use markup::style::ListKind::{Ordered, Unordered};
use markup::style::Style::{Comment, Header, HorizontalLine, List, Quote};
use markup::Style;

#[test]
fn style_from_works() {
    assert_eq!(Style::from("# Hello"), (Some(Header(1)), "Hello"));
    assert_eq!(Style::from("## Hello"), (Some(Header(2)), "Hello"));
    assert_eq!(Style::from("### Hello"), (Some(Header(3)), "Hello"));

    assert_eq!(Style::from("#Hello"), (None, "#Hello"));
    assert_eq!(Style::from("# # Hello"), (Some(Header(1)), "# Hello"));

    assert_eq!(Style::from("> Hello"), (Some(Quote), "Hello"));

    assert_eq!(Style::from("---"), (Some(HorizontalLine), ""));
    assert_eq!(Style::from("--- Hello"), (Some(HorizontalLine), "Hello"));

    assert_eq!(Style::from("~~~ Hello"), (Some(Comment), "Hello"));
    assert_eq!(Style::from("~~~Hello"), (None, "~~~Hello"));

    assert_eq!(Style::from("Hello"), (None, "Hello"));
    assert_eq!(Style::from("& Hello"), (None, "& Hello"));
}

#[test]
fn style_format_works() {
    assert_eq!(Header(1).format("Hello").unwrap(), "<h1> Hello </h1>");
    assert_eq!(Header(2).format("Hello").unwrap(), "<h2> Hello </h2>");
    assert_eq!(Header(3).format("Hello").unwrap(), "<h3> Hello </h3>");
    assert_eq!(Header(4).format("Hello").unwrap(), "<h4> Hello </h4>");

    assert_eq!(List(Ordered).format("Hello").unwrap(), "  <li> Hello </li>");
    assert_eq!(List(Unordered).format("Hello").unwrap(), "  <li> Hello </li>");

    assert_eq!(Quote.format("Hello").unwrap(), "<blockquote> Hello </blockquote>");
    assert_eq!(HorizontalLine.format("Hello").unwrap(), "<hr />");
    assert_eq!(Comment.format("Hello"), None);
}

#[test]
fn deep_header_and_multi_digit_depth() {
    assert_eq!(Style::from("###### Deep"), (Some(Header(6)), "Deep"));
    assert_eq!(Header(12).format("x").unwrap(), "<h12> x </h12>");
}

#[test]
fn list_tokens() {
    assert_eq!(Style::from("- item"), (Some(List(Unordered)), "item"));
    assert_eq!(Style::from("1. item"), (Some(List(Ordered)), "item"));
    assert_eq!(Style::from("42. item"), (Some(List(Ordered)), "item"));
    assert_eq!(Style::from(". item"), (None, ". item"));
    assert_eq!(Style::from("1 item"), (None, "1 item"));
    assert_eq!(Style::from("1.2. item"), (None, "1.2. item"));
    assert_eq!(Style::from("\u{661}\u{662}. item"), (Some(List(Ordered)), "item"));
}

#[test]
fn escaped_quote_token() {
    assert_eq!(Style::from("&gt; Hello"), (Some(Quote), "Hello"));
}

#[test]
fn trimming_of_content() {
    assert_eq!(Style::from("#   spaced   "), (Some(Header(1)), "spaced"));
    assert_eq!(Style::from("  plain text \t"), (None, "plain text"));
    assert_eq!(Style::from("#"), (Some(Header(1)), ""));
    assert_eq!(Style::from(""), (None, ""));
}

#[test]
fn paragraph_and_list_tags() {
    assert_eq!(Style::no_format("Hello"), "<p> Hello </p>");
    assert_eq!(Unordered.opening_tag(), "<ul>");
    assert_eq!(Unordered.closing_tag(), "</ul>");
    assert_eq!(Ordered.opening_tag(), "<ol>");
    assert_eq!(Ordered.closing_tag(), "</ol>");
}
