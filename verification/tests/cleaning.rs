use christina::ocr::clean_ocr_text;

#[test]
fn clean_removes_noise_characters() {
    // spaces, newlines, backticks and corner brackets disappear
    assert_eq!(
        clean_ocr_text("\u{300C}hel lo\u{300D}\n`world`"),
        "helloworld".to_string()
    );
}

#[test]
fn clean_keeps_ordinary_text() {
    assert_eq!(
        clean_ocr_text("\u{305d}\u{308c}\u{306b}\u{3082}\u{3002}"),
        "\u{305d}\u{308c}\u{306b}\u{3082}\u{3002}".to_string()
    );
}

#[test]
fn trailing_artifact_after_period_is_dropped() {
    // next-to-last character is the full-width period: the last one goes
    assert_eq!(clean_ocr_text("abc\u{3002}d"), "abc\u{3002}".to_string());
}

#[test]
fn trailing_artifact_rule_needs_more_than_three_characters() {
    assert_eq!(clean_ocr_text("a\u{3002}b"), "a\u{3002}b".to_string());
}

#[test]
fn trailing_artifact_rule_checks_next_to_last_only() {
    assert_eq!(clean_ocr_text("abcd\u{3002}"), "abcd\u{3002}".to_string());
}

#[test]
fn stripping_applies_before_the_trailing_rule() {
    // after the spaces go, the period stands next to last
    assert_eq!(clean_ocr_text("a b\u{3002} c"), "ab\u{3002}".to_string());
}

#[test]
fn cleaning_twice_is_cleaning_once() {
    let raw = "\u{300C}ab c\u{3002}d\u{300D}\n";
    let once = clean_ocr_text(raw);
    let twice = clean_ocr_text(&once);
    assert_eq!(once, twice);
    assert_eq!(once, "abc\u{3002}".to_string());
}

#[test]
fn empty_text_stays_empty() {
    assert_eq!(clean_ocr_text(""), "".to_string());
    assert_eq!(clean_ocr_text(" \n` "), "".to_string());
}
