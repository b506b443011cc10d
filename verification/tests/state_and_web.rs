use christina::web::{
    get_path_mime, route_for, signal_event, translation_or_marker, tray_action, Route, TransData,
    TransQuery, TrayAction, UserEvent, SIGHUP, SIGINT, SIGQUIT, SIGTERM,
};

#[test]
fn slots_start_with_the_given_texts() {
    let d = TransData::new("origin text", "translated text");
    assert_eq!(d.origin, "origin text");
    assert_eq!(d.translated, "translated text");
}

#[test]
fn set_origin_leaves_the_translation() {
    let mut d = TransData::new("old", "kept");
    d.set_origin("new".to_string());
    assert_eq!(d.origin, "new");
    assert_eq!(d.translated, "kept");
}

#[test]
fn successful_translation_replaces_the_slot() {
    let mut d = TransData::new("o", "before");
    d.apply_translation(Some("after".to_string()));
    assert_eq!(d.origin, "o");
    assert_eq!(d.translated, "after");
}

#[test]
fn failed_translation_leaves_the_previous_one() {
    let mut d = TransData::new("o", "before");
    d.apply_translation(None);
    assert_eq!(d.translated, "before");
}

#[test]
fn query_holds_the_origin() {
    let q = TransQuery { origin: "text".to_string() };
    assert_eq!(q.origin, "text");
}

#[test]
fn interrupt_signal_triggers_the_job() {
    assert!(matches!(signal_event(SIGINT), Some(UserEvent::DoTheJobOnce)));
}

#[test]
fn other_signals_are_no_ops() {
    assert!(signal_event(SIGHUP).is_none());
    assert!(signal_event(SIGTERM).is_none());
    assert!(signal_event(SIGQUIT).is_none());
}

#[test]
fn mime_types_follow_the_path_ending() {
    assert_eq!(get_path_mime("/"), Some("text/html"));
    assert_eq!(get_path_mime("index.html"), Some("text/html"));
    assert_eq!(get_path_mime("app.js"), Some("text/javascript"));
    assert_eq!(get_path_mime("data.json"), Some("application/json"));
    assert_eq!(get_path_mime("style.css"), Some("text/css"));
    assert_eq!(get_path_mime("icon.png"), Some("image/png"));
    assert_eq!(get_path_mime("lib.wasm"), Some("application/wasm"));
}

#[test]
fn unknown_paths_have_no_mime_type() {
    assert_eq!(get_path_mime("archive.zip"), None);
    assert_eq!(get_path_mime(""), None);
    assert_eq!(get_path_mime("json"), None);
}

#[test]
fn tray_entries_map_to_their_actions() {
    assert!(matches!(tray_action("capture"), Some(TrayAction::Capture)));
    assert!(matches!(tray_action("toggle"), Some(TrayAction::Toggle)));
    assert!(matches!(tray_action("about"), Some(TrayAction::About)));
    assert!(matches!(tray_action("quit"), Some(TrayAction::Quit)));
    assert!(tray_action("Capture").is_none());
    assert!(tray_action("").is_none());
}

#[test]
fn request_paths_map_to_their_routes() {
    assert!(matches!(route_for("/"), Route::IndexPage));
    assert!(matches!(route_for("/data.json"), Route::DataJson));
    assert!(matches!(route_for("/translate.json"), Route::TranslateJson));
    assert!(matches!(route_for("/sites.json"), Route::SitesJson));
    assert!(matches!(route_for("/index.html"), Route::StaticFile));
    assert!(matches!(route_for("/data.json/"), Route::StaticFile));
}

#[test]
fn missing_translation_becomes_the_error_marker() {
    assert_eq!(translation_or_marker(Some("ok".to_string())), "ok");
    assert_eq!(
        translation_or_marker(None),
        "\u{7ffb}\u{8bd1}\u{51fa}\u{9519}\u{4e86}"
    );
}
