use vstd::prelude::*;
use crate::chars::{concat2, concat3};

verus! {

/// URL of a Google Translate query prefilled with the source text.
pub open spec fn google_url_spec(origin: Seq<char>) -> Seq<char> {
    "https://translate.google.com.hk/?sl=auto&tl=zh-CN&text="@ + origin + "&op=translate"@
}

/// URL of the Youdao translator's start page.
pub open spec fn youdao_url_spec() -> Seq<char> {
    "https://fanyi.youdao.com/index.html"@
}

/// URL of a Bing Translator query prefilled with the source text.
pub open spec fn bing_url_spec(origin: Seq<char>) -> Seq<char> {
    "https://cn.bing.com/translator/?to=cn&text="@ + origin
}

/// URL of a DeepL query prefilled with the source text.
pub open spec fn deepl_url_spec(origin: Seq<char>) -> Seq<char> {
    "https://www.deepl.com/translator#ja/zh/"@ + origin
}

/// URL of the NihongoDera romaji converter.
pub open spec fn nihongodera_url_spec() -> Seq<char> {
    "https://nihongodera.com/tools/romaji-converter"@
}

/// One alternate translation site: a brand name and the URL to open,
/// with the source text already interpolated where the site takes it.
#[derive(Debug, Clone)]
pub struct Site {
    brand: String,
    url: String,
}

impl Site {
    /// The site's brand name.
    pub closed spec fn spec_brand(&self) -> Seq<char> {
        self.brand@
    }

    /// The site's URL.
    pub closed spec fn spec_url(&self) -> Seq<char> {
        self.url@
    }

    /// A site entry from its brand name and URL.
    pub fn new(brand: &str, url: &str) -> (s: Site)
        ensures
            s.spec_brand() == brand@,
            s.spec_url() == url@,
    {
        Site { brand: brand.to_owned(), url: url.to_owned() }
    }

    /// The brand name.
    pub fn brand(&self) -> (r: &str)
        ensures
            r@ == self.spec_brand(),
    {
        self.brand.as_str()
    }

    /// The URL.
    pub fn url(&self) -> (r: &str)
        ensures
            r@ == self.spec_url(),
    {
        self.url.as_str()
    }
}

/// The fixed table of alternate translation sites for a source text:
/// Google, Bing and DeepL take the text in the URL; Youdao and
/// NihongoDera are start pages without a query.
pub fn get_translate_sites(origin: &str) -> (sites: Vec<Site>)
    ensures
        sites@.len() == 5,
        sites@[0].spec_brand() == "Google"@,
        sites@[0].spec_url() == google_url_spec(origin@),
        sites@[1].spec_brand() == "YouDao"@,
        sites@[1].spec_url() == youdao_url_spec(),
        sites@[2].spec_brand() == "Bing"@,
        sites@[2].spec_url() == bing_url_spec(origin@),
        sites@[3].spec_brand() == "DeepL"@,
        sites@[3].spec_url() == deepl_url_spec(origin@),
        sites@[4].spec_brand() == "NihongoDera"@,
        sites@[4].spec_url() == nihongodera_url_spec(),
{
    let mut result: Vec<Site> = Vec::new();
    let google = concat3(
        "https://translate.google.com.hk/?sl=auto&tl=zh-CN&text=",
        origin,
        "&op=translate",
    );
    result.push(Site::new("Google", google.as_str()));
    result.push(Site::new("YouDao", "https://fanyi.youdao.com/index.html"));
    let bing = concat2("https://cn.bing.com/translator/?to=cn&text=", origin);
    result.push(Site::new("Bing", bing.as_str()));
    let deepl = concat2("https://www.deepl.com/translator#ja/zh/", origin);
    result.push(Site::new("DeepL", deepl.as_str()));
    result.push(Site::new("NihongoDera", "https://nihongodera.com/tools/romaji-converter"));
    result
}

} // verus!
