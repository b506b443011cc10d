use vstd::prelude::*;
use crate::chars::{str_to_chars, str_eq, ends_with, has_suffix};

verus! {

/// A query string's payload: the source text a caller asks to have
/// translated.
pub struct TransQuery {
    pub origin: String,
}

/// The shared pipeline result read by the panel: the latest recognized
/// source text and its translation.  Writes are last-write-wins.
pub struct TransData {
    pub origin: String,
    pub translated: String,
}

impl TransData {
    /// A slot pair holding the given initial texts.
    pub fn new(origin: &str, translated: &str) -> (d: TransData)
        ensures
            d.origin@ == origin@,
            d.translated@ == translated@,
    {
        TransData { origin: origin.to_owned(), translated: translated.to_owned() }
    }

    /// Publishes newly recognized source text; the stored translation is
    /// left as it was.
    pub fn set_origin(&mut self, origin: String)
        ensures
            final(self).origin == origin,
            final(self).translated == old(self).translated,
    {
        self.origin = origin;
    }

    /// Publishes a translation outcome: a successful translation
    /// replaces the stored one, a failed one leaves the previous
    /// translation in place.
    pub fn apply_translation(&mut self, translated: Option<String>)
        ensures
            final(self).origin == old(self).origin,
            match translated {
                Some(t) => final(self).translated == t,
                None => final(self).translated == old(self).translated,
            },
    {
        match translated {
            Some(t) => {
                self.translated = t;
            },
            None => {},
        }
    }
}

/// What a user action or an OS signal asks the event loop to do: open a
/// URL in a window, or run the capture-and-translate job once.
pub enum UserEvent {
    NewWindow(String),
    DoTheJobOnce,
}

/// The hang-up signal, reserved for configuration reload (a no-op).
pub const SIGHUP: i32 = 1;

/// The interrupt signal, which re-triggers the capture pipeline.
pub const SIGINT: i32 = 2;

/// The quit signal, reserved for graceful shutdown (a no-op).
pub const SIGQUIT: i32 = 3;

/// The terminate signal, reserved for graceful shutdown (a no-op).
pub const SIGTERM: i32 = 15;

/// The event a registered OS signal maps to: the interrupt signal runs
/// the capture-and-translate job once; the hang-up, terminate and quit
/// signals are documented no-ops.
pub fn signal_event(signal: i32) -> (e: Option<UserEvent>)
    requires
        signal == SIGHUP || signal == SIGINT || signal == SIGTERM || signal == SIGQUIT,
    ensures
        signal == SIGINT <==> e is Some,
        match e {
            Some(ev) => ev is DoTheJobOnce,
            None => true,
        },
{
    if signal == SIGINT {
        Some(UserEvent::DoTheJobOnce)
    } else {
        None
    }
}

/// What a tray menu choice asks the application to do.
pub enum TrayAction {
    Capture,
    Toggle,
    About,
    Quit,
}

/// The action behind a tray menu entry, decided by its identifier;
/// `None` for an unknown entry, which is ignored.
pub fn tray_action(id: &str) -> (a: Option<TrayAction>)
    ensures
        a == (if id@ == "capture"@ {
            Some(TrayAction::Capture)
        } else if id@ == "toggle"@ {
            Some(TrayAction::Toggle)
        } else if id@ == "about"@ {
            Some(TrayAction::About)
        } else if id@ == "quit"@ {
            Some(TrayAction::Quit)
        } else {
            None
        }),
{
    if str_eq(id, "capture") {
        Some(TrayAction::Capture)
    } else if str_eq(id, "toggle") {
        Some(TrayAction::Toggle)
    } else if str_eq(id, "about") {
        Some(TrayAction::About)
    } else if str_eq(id, "quit") {
        Some(TrayAction::Quit)
    } else {
        None
    }
}

/// Where the panel's web server routes a request: the index page, one
/// of the three JSON endpoints, or a static file read from disk.
pub enum Route {
    IndexPage,
    DataJson,
    TranslateJson,
    SitesJson,
    StaticFile,
}

/// The route a request path is served by.
pub fn route_for(path: &str) -> (r: Route)
    ensures
        r == (if path@ == "/"@ {
            Route::IndexPage
        } else if path@ == "/data.json"@ {
            Route::DataJson
        } else if path@ == "/translate.json"@ {
            Route::TranslateJson
        } else if path@ == "/sites.json"@ {
            Route::SitesJson
        } else {
            Route::StaticFile
        }),
{
    if str_eq(path, "/") {
        Route::IndexPage
    } else if str_eq(path, "/data.json") {
        Route::DataJson
    } else if str_eq(path, "/translate.json") {
        Route::TranslateJson
    } else if str_eq(path, "/sites.json") {
        Route::SitesJson
    } else {
        Route::StaticFile
    }
}

/// The text shown for a translation outcome: the translation itself, or
/// the fixed error marker where none came back.
pub fn translation_or_marker(t: Option<String>) -> (r: String)
    ensures
        match t {
            Some(s) => r == s,
            None => r@ == "\u{7ffb}\u{8bd1}\u{51fa}\u{9519}\u{4e86}"@,
        },
{
    match t {
        Some(s) => s,
        None => "\u{7ffb}\u{8bd1}\u{51fa}\u{9519}\u{4e86}".to_owned(),
    }
}

/// MIME type the panel serves for a request path, decided by the path's
/// ending; `None` for a path the panel does not know.
pub open spec fn mime_spec(p: Seq<char>) -> Option<Seq<char>> {
    if ends_with(p, ".html"@) || p == "/"@ {
        Some("text/html"@)
    } else if ends_with(p, ".js"@) {
        Some("text/javascript"@)
    } else if ends_with(p, ".json"@) {
        Some("application/json"@)
    } else if ends_with(p, ".css"@) {
        Some("text/css"@)
    } else if ends_with(p, ".png"@) {
        Some("image/png"@)
    } else if ends_with(p, ".wasm"@) {
        Some("application/wasm"@)
    } else {
        None
    }
}

/// The MIME type to serve a request path with, or `None` for a path
/// outside the table; callers decide whether an unknown path is an
/// error.
pub fn get_path_mime(path: &str) -> (r: Option<&'static str>)
    ensures
        r is Some <==> mime_spec(path@) is Some,
        r matches Some(m) ==> mime_spec(path@)->0 == m@,
{
    let v = str_to_chars(path);
    let is_root = v.len() == 1 && v[0] == '/';
    proof {
        reveal_strlit("/");
        if is_root {
            assert(v@ =~= "/"@);
        }
        if v@ == "/"@ {
            assert(v@.len() == 1 && v@[0] == '/');
        }
    }
    let html_suffix = str_to_chars(".html");
    if has_suffix(&v, &html_suffix) || is_root {
        return Some("text/html");
    }
    let js_suffix = str_to_chars(".js");
    if has_suffix(&v, &js_suffix) {
        return Some("text/javascript");
    }
    let json_suffix = str_to_chars(".json");
    if has_suffix(&v, &json_suffix) {
        return Some("application/json");
    }
    let css_suffix = str_to_chars(".css");
    if has_suffix(&v, &css_suffix) {
        return Some("text/css");
    }
    let png_suffix = str_to_chars(".png");
    if has_suffix(&v, &png_suffix) {
        return Some("image/png");
    }
    let wasm_suffix = str_to_chars(".wasm");
    if has_suffix(&v, &wasm_suffix) {
        return Some("application/wasm");
    }
    None
}

} // verus!
