use markup::{format_inlines, separate_link};

#[test]
fn format_styles_works() {
    assert_eq!(format_inlines("Some *example* text"), "Some <i>example</i> text");
    assert_eq!(format_inlines("Some ^example^ text"), "Some <b>example</b> text");
    assert_eq!(format_inlines("Some _example_ text"), "Some <u>example</u> text");
    assert_eq!(format_inlines("Some `example` text"), "Some <code>example</code> text");

    assert_eq!(format_inlines("Some *example ^text^*"), "Some <i>example <b>text</b></i>");
    assert_eq!(format_inlines("Some *^example^* text"), "Some <i><b>example</b></i> text");
    assert_eq!(
        format_inlines("_Some *example_ ^text^*"),
        "<u>Some <i>example</u> <b>text</b></i>"
    );

    assert_eq!(format_inlines(r"Some \\ example text"), r"Some \ example text");

    assert_eq!(format_inlines(r"Some \*example\* text"), "Some *example* text");
    assert_eq!(format_inlines(r"Some \^\_example\_\^ text"), "Some ^_example_^ text");
}

#[test]
fn separate_link_works() {
    assert_eq!(
        separate_link("link content | https://example.com"),
        ("link content", "https://example.com")
    );
    assert_eq!(
        separate_link("link | example | content | https://example.com"),
        ("link | example | content", "https://example.com")
    );
    assert_eq!(separate_link("link content"), ("link content", ""));
}

#[test]
fn format_links_works() {
    assert_eq!(
        format_inlines("[link content | https://example.com]"),
        r#"<a href="https://example.com">link content</a>"#
    );
    assert_eq!(
        format_inlines("[link | example | content | https://example.com]"),
        r#"<a href="https://example.com">link | example | content</a>"#
    );
    assert_eq!(format_inlines("[link content]"), r#"<a href="">link content</a>"#);
    assert_eq!(format_inlines(r"\[no link\]"), r#"[no link]"#);
}

#[test]
fn toggle_pairs_wrap_plain_text() {
    assert_eq!(format_inlines("*plain words*"), "<i>plain words</i>");
    assert_eq!(format_inlines("^plain words^"), "<b>plain words</b>");
    assert_eq!(format_inlines("_plain words_"), "<u>plain words</u>");
    assert_eq!(format_inlines("`plain words`"), "<code>plain words</code>");
}

#[test]
fn escapes_are_consumed() {
    assert_eq!(format_inlines(r"\*a\*"), "*a*");
    assert_eq!(format_inlines(r"\\"), r"\");
    assert_eq!(format_inlines(r"\\*a*"), r"\<i>a</i>");
}

#[test]
fn link_scenarios() {
    assert_eq!(format_inlines("[text | http://x]"), r#"<a href="http://x">text</a>"#);
    assert_eq!(format_inlines("[text]"), r#"<a href="">text</a>"#);
    assert_eq!(format_inlines(r"\[text]"), "[text]");
}

#[test]
fn escaped_pipe_stays_in_link_text() {
    assert_eq!(
        format_inlines(r"[a | b \| c]"),
        r#"<a href="b | c">a</a>"#
    );
    assert_eq!(format_inlines(r"[a \| b]"), r#"<a href="">a | b</a>"#);
}

#[test]
fn unclosed_markers_are_dropped() {
    assert_eq!(format_inlines("*open"), "<i>open");
    assert_eq!(format_inlines("[never closed"), "");
    assert_eq!(format_inlines(""), "");
}

#[test]
fn link_text_is_trimmed_only_when_split() {
    assert_eq!(format_inlines("[ spaced ]"), r#"<a href=""> spaced </a>"#);
    assert_eq!(format_inlines("[  a  |  b  ]"), r#"<a href="b">a</a>"#);
}
