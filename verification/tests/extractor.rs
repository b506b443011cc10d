use christina::translate::{find_translated_from_html, translate};

#[test]
fn extracts_list_items_joined_by_newlines() {
    let html = "<ul id=\"translateResult\"><li>foo</li><li>bar</li></ul>";
    assert_eq!(find_translated_from_html(html), Some("foo\nbar".to_string()));
}

#[test]
fn absent_container_yields_none() {
    assert_eq!(find_translated_from_html("<html><body>nothing here</body></html>"), None);
    assert_eq!(find_translated_from_html(""), None);
    assert_eq!(find_translated_from_html("<ul id=\"otherList\"><li>x</li></ul>"), None);
}

#[test]
fn unclosed_container_yields_none() {
    assert_eq!(find_translated_from_html("<ul id=\"translateResult\"><li>foo</li>"), None);
}

#[test]
fn container_inside_page_is_found() {
    let html = "<html><body><p>intro</p><ul id=\"translateResult\">\n<li>first</li>\n<li>second</li>\n</ul><footer/></body></html>";
    assert_eq!(find_translated_from_html(html), Some("first\nsecond".to_string()));
}

#[test]
fn per_item_whitespace_is_kept_inside() {
    // trim applies to the joined result's two ends only, not per line
    let html = "<ul id=\"translateResult\"><li>  foo </li><li> bar  </li></ul>";
    assert_eq!(find_translated_from_html(html), Some("foo \n bar".to_string()));
}

#[test]
fn empty_container_yields_empty_text() {
    assert_eq!(
        find_translated_from_html("<ul id=\"translateResult\"></ul>"),
        Some("".to_string())
    );
}

#[test]
fn nested_tags_are_stripped_from_item_text() {
    let html = "<ul id=\"translateResult\"><li><b>x</b>y</li></ul>";
    assert_eq!(find_translated_from_html(html), Some("xy".to_string()));
}

#[test]
fn item_attributes_are_ignored() {
    let html = "<ul id=\"translateResult\"><li class=\"line\">z</li></ul>";
    assert_eq!(find_translated_from_html(html), Some("z".to_string()));
}

#[test]
fn link_tag_is_not_a_list_item() {
    let html = "<ul id=\"translateResult\"><link>n</link><li>yes</li></ul>";
    assert_eq!(find_translated_from_html(html), Some("yes".to_string()));
}

#[test]
fn entities_are_decoded() {
    let html = "<ul id=\"translateResult\"><li>a &amp; b</li><li>&lt;i&gt;</li><li>&quot;q&quot;</li><li>&apos;s&#39;</li></ul>";
    assert_eq!(
        find_translated_from_html(html),
        Some("a & b\n<i>\n\"q\"\n's'".to_string())
    );
}

#[test]
fn item_left_open_runs_to_the_container_end() {
    let html = "<ul id=\"translateResult\"><li>foo</ul>";
    assert_eq!(find_translated_from_html(html), Some("foo".to_string()));
}

#[test]
fn japanese_text_passes_through() {
    let html = "<ul id=\"translateResult\"><li>\u{5bf9}\u{6b64}\u{ff0c}\u{6211}\u{5f53}\u{7136}\u{5f88}\u{611f}\u{5174}\u{8da3}\u{3002}</li></ul>";
    assert_eq!(
        find_translated_from_html(html),
        Some("\u{5bf9}\u{6b64}\u{ff0c}\u{6211}\u{5f53}\u{7136}\u{5f88}\u{611f}\u{5174}\u{8da3}\u{3002}".to_string())
    );
}

#[test]
fn translate_folds_request_failure_to_none() {
    assert_eq!(translate(None), None);
}

#[test]
fn translate_extracts_from_a_response_body() {
    let html = "<ul id=\"translateResult\"><li>hello</li></ul>";
    assert_eq!(translate(Some(html)), Some("hello".to_string()));
    assert_eq!(translate(Some("<p>no result</p>")), None);
}
