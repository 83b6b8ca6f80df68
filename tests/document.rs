use markup::document::{BODY_SEPARATOR, DEFAULT_TITLE, PAGE_HEAD, PAGE_MID, PAGE_TAIL};
use markup::replace_file_extension as rfe;
use markup::{compile, find_back, replace_file_extension, Args};

fn page(title: &str, body: &[&str]) -> String {
    format!(
        "{}{}{}{}{}",
        PAGE_HEAD,
        title,
        PAGE_MID,
        body.join(BODY_SEPARATOR),
        PAGE_TAIL
    )
}

#[test]
fn find_back_works() {
    assert_eq!(find_back("abcd", 'a'), Some(0));
    assert_eq!(find_back("abcd", 'b'), Some(1));
    assert_eq!(find_back("abcd", 'c'), Some(2));
    assert_eq!(find_back("abcd", 'd'), Some(3));
    assert_eq!(find_back("abcd", 'e'), None);
    assert_eq!(find_back("abad", 'a'), Some(2));
}

#[test]
fn replace_file_extension_works() {
    assert_eq!(rfe("abc", "html"), "abc.html");
    assert_eq!(rfe("abc.txt", "html"), "abc.html");
    assert_eq!(rfe("abc.def.txt", "html"), "abc.def.html");
    assert_eq!(rfe("abc.def.ghi.txt", "html"), "abc.def.ghi.html");

    assert_eq!(rfe("abc", ""), "abc");
    assert_eq!(rfe("abc.txt", ""), "abc");
}

#[test]
fn find_back_gives_byte_offsets() {
    assert_eq!(find_back("é.x", '.'), Some(2));
    assert_eq!(find_back("é|", '|'), Some(2));
    assert_eq!(find_back("|é", '|'), Some(0));
    assert_eq!(replace_file_extension("café.md", "html"), "café.html");
}

#[test]
fn output_path_defaults_to_html_extension() {
    let given = Args { file: "notes.txt".to_string(), out: Some("page.htm".to_string()) };
    assert_eq!(given.output_path(), "page.htm");
    let derived = Args { file: "notes.txt".to_string(), out: None };
    assert_eq!(derived.output_path(), "notes.html");
}

#[test]
fn end_to_end_document() {
    let out = compile("# Title\n- item1\n- item2\n\nSome *bold-ish* ^text^.");
    assert_eq!(
        out,
        page(
            "Title",
            &[
                "<h1> Title </h1>",
                "<ul>",
                "  <li> item1 </li>",
                "  <li> item2 </li>",
                "</ul>",
                "<p> Some <i>bold-ish</i> <b>text</b>. </p>",
            ]
        )
    );
}

#[test]
fn list_items_share_one_group() {
    assert_eq!(
        compile("- a\n- b"),
        page(DEFAULT_TITLE, &["<ul>", "  <li> a </li>", "  <li> b </li>", "</ul>"])
    );
}

#[test]
fn list_kind_switch_closes_and_opens() {
    assert_eq!(
        compile("- a\n1. b"),
        page(
            DEFAULT_TITLE,
            &["<ul>", "  <li> a </li>", "</ul>", "<ol>", "  <li> b </li>", "</ol>"]
        )
    );
}

#[test]
fn title_is_first_level_one_header() {
    assert_eq!(
        compile("## Sub\n# *First*\n# Second"),
        page(
            "<i>First</i>",
            &["<h2> Sub </h2>", "<h1> <i>First</i> </h1>", "<h1> Second </h1>"]
        )
    );
    assert_eq!(compile("plain"), page("Markup File", &["<p> plain </p>"]));
}

#[test]
fn blank_line_keeps_list_open() {
    assert_eq!(
        compile("- a\n   \n- b"),
        page(DEFAULT_TITLE, &["<ul>", "  <li> a </li>", "  <li> b </li>", "</ul>"])
    );
}

#[test]
fn comment_emits_nothing_but_closes_list() {
    assert_eq!(
        compile("- a\n~~~ note\ntext"),
        page(DEFAULT_TITLE, &["<ul>", "  <li> a </li>", "</ul>", "<p> text </p>"])
    );
    assert_eq!(compile("~~~ only"), page(DEFAULT_TITLE, &[]));
}

#[test]
fn input_is_html_escaped() {
    assert_eq!(
        compile("a < b & c > d\n> quoted"),
        page(
            DEFAULT_TITLE,
            &["<p> a &lt; b &amp; c &gt; d </p>", "<blockquote> quoted </blockquote>"]
        )
    );
}

#[test]
fn quotes_are_html_escaped() {
    assert_eq!(
        compile("say \"hi\"\nit's"),
        page(DEFAULT_TITLE, &["<p> say &quot;hi&quot; </p>", "<p> it&#x27;s </p>"])
    );
}

#[test]
fn empty_input_and_line_endings() {
    assert_eq!(compile(""), page(DEFAULT_TITLE, &[]));
    assert_eq!(
        compile("one\r\ntwo\n"),
        page(DEFAULT_TITLE, &["<p> one </p>", "<p> two </p>"])
    );
}

#[test]
fn horizontal_line_ignores_content() {
    assert_eq!(compile("--- ignored"), page(DEFAULT_TITLE, &["<hr />"]));
}
