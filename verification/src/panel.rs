use vstd::prelude::*;
use crate::chars::{concat2, concat3};
use crate::sites::{google_url_spec, youdao_url_spec, deepl_url_spec};

verus! {

/// The translate panel's state: the recognized source text and its
/// translation, as shown to the user.
pub struct MyApp {
    pub origin: String,
    pub translated: String,
}

impl MyApp {
    /// A panel showing the given source and translated text.
    pub fn new(origin: &str, translated: &str) -> (a: MyApp)
        ensures
            a.origin@ == origin@,
            a.translated@ == translated@,
    {
        MyApp { origin: origin.to_owned(), translated: translated.to_owned() }
    }

    /// Google Translate prefilled with the panel's source text.
    pub fn google_translate_url(&self) -> (r: String)
        ensures
            r@ == google_url_spec(self.origin@),
    {
        concat3(
            "https://translate.google.com.hk/?sl=auto&tl=zh-CN&text=",
            self.origin.as_str(),
            "&op=translate",
        )
    }

    /// The Youdao translator's start page.
    pub fn youdao_url(&self) -> (r: String)
        ensures
            r@ == youdao_url_spec(),
    {
        let r = "https://fanyi.youdao.com/index.html".to_owned();
        r
    }

    /// DeepL prefilled with the panel's source text.
    pub fn deepl_url(&self) -> (r: String)
        ensures
            r@ == deepl_url_spec(self.origin@),
    {
        concat2("https://www.deepl.com/translator#ja/zh/", self.origin.as_str())
    }
}

} // verus!
