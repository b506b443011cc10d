use christina::panel::MyApp;
use christina::sites::{get_translate_sites, Site};

#[test]
fn site_table_has_the_five_known_sites() {
    let sites = get_translate_sites("hello");
    assert_eq!(sites.len(), 5);
    let brands: Vec<&str> = sites.iter().map(|s| s.brand()).collect();
    assert_eq!(brands, vec!["Google", "YouDao", "Bing", "DeepL", "NihongoDera"]);
}

#[test]
fn site_urls_interpolate_the_source_text() {
    let sites = get_translate_sites("hello");
    assert_eq!(
        sites[0].url(),
        "https://translate.google.com.hk/?sl=auto&tl=zh-CN&text=hello&op=translate"
    );
    assert_eq!(sites[1].url(), "https://fanyi.youdao.com/index.html");
    assert_eq!(sites[2].url(), "https://cn.bing.com/translator/?to=cn&text=hello");
    assert_eq!(sites[3].url(), "https://www.deepl.com/translator#ja/zh/hello");
    assert_eq!(sites[4].url(), "https://nihongodera.com/tools/romaji-converter");
}

#[test]
fn site_new_keeps_brand_and_url() {
    let s = Site::new("Example", "https://example.org/");
    assert_eq!(s.brand(), "Example");
    assert_eq!(s.url(), "https://example.org/");
}

#[test]
fn panel_urls_use_the_panel_origin() {
    let app = MyApp::new("kon", "translated text");
    assert_eq!(
        app.google_translate_url(),
        "https://translate.google.com.hk/?sl=auto&tl=zh-CN&text=kon&op=translate"
    );
    assert_eq!(app.youdao_url(), "https://fanyi.youdao.com/index.html");
    assert_eq!(app.deepl_url(), "https://www.deepl.com/translator#ja/zh/kon");
}

#[test]
fn panel_keeps_its_texts() {
    let app = MyApp::new("a", "b");
    assert_eq!(app.origin, "a");
    assert_eq!(app.translated, "b");
}
