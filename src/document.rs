//! The document assembler: sequences classified, formatted lines into an
//! HTML page, grouping list items and picking up the title.
use vstd::prelude::*;
use vstd::string::StringExecFns;

use crate::inline::{format_inlines, inline_html};
use crate::style::{
    classify, closing_tag_of, opening_tag_of, paragraph_html, style_html, ListKind, Style,
};
use crate::text::{escape_html, escaped_text, lines_of, split_lines, views};

verus! {

/// The page up to the title.
pub const PAGE_HEAD: &'static str =
    "<!DOCTYPE html>\n<html lang=\"en\">\n  <head>\n    <meta charset=\"UTF-8\" />\n    <title>";

/// The page between the title and the body.
pub const PAGE_MID: &'static str = "</title>\n  </head>\n  <body>\n    ";

/// The page after the body.
pub const PAGE_TAIL: &'static str = "\n  </body>\n</html>\n";

/// The title of a page without a first-level header.
pub const DEFAULT_TITLE: &'static str = "Markup File";

/// What separates two body entries.
pub const BODY_SEPARATOR: &'static str = "\n    ";

/// The assembler's state after some lines.
pub struct Assembly {
    /// The kind of the list that is open, if one is.
    pub list: Option<ListKind>,
    /// The content of the first first-level header, once seen.
    pub title: Option<Seq<char>>,
    /// The body entries emitted so far.
    pub body: Seq<Seq<char>>,
}

/// The state before the first line.
pub open spec fn assembly_start() -> Assembly {
    Assembly { list: None, title: None, body: Seq::empty() }
}

/// Closes the open list, if any.
pub open spec fn close_list(a: Assembly) -> Assembly {
    match a.list {
        Some(k) => Assembly { list: None, body: a.body.push(closing_tag_of(k)), ..a },
        None => a,
    }
}

/// Makes a list of kind `k` the open one: a list of another kind is closed
/// first, one of the same kind stays open.
pub open spec fn open_list(a: Assembly, k: ListKind) -> Assembly {
    let body = match a.list {
        Some(cur) => if cur == k {
            a.body
        } else {
            a.body.push(closing_tag_of(cur)).push(opening_tag_of(k))
        },
        None => a.body.push(opening_tag_of(k)),
    };
    Assembly { list: Some(k), body, ..a }
}

/// Whether a line is blank: no style and nothing left after trimming.
pub open spec fn is_blank(line: Seq<char>) -> bool {
    classify(line).0 is None && classify(line).1.len() == 0
}

/// What one line does to the assembler's state.
pub open spec fn line_step(a: Assembly, line: Seq<char>) -> Assembly {
    let (style, content) = classify(line);
    let f = inline_html(content);
    match style {
        None => if content.len() == 0 {
            a
        } else {
            let b = close_list(a);
            Assembly { body: b.body.push(paragraph_html(f)), ..b }
        },
        Some(Style::List(k)) => {
            let b = open_list(a, k);
            Assembly { body: b.body.push(style_html(Style::List(k), f)->0), ..b }
        },
        Some(st) => {
            let b = close_list(a);
            let title = if b.title is None && st == Style::Header(1) {
                Some(f)
            } else {
                b.title
            };
            let body = match style_html(st, f) {
                Some(h) => b.body.push(h),
                None => b.body,
            };
            Assembly { list: None, title, body }
        },
    }
}

/// The assembler's state after all of `lines`.
pub open spec fn assemble(lines: Seq<Seq<char>>) -> Assembly
    decreases lines.len(),
{
    if lines.len() == 0 {
        assembly_start()
    } else {
        line_step(assemble(lines.drop_last()), lines.last())
    }
}

/// Body entries joined by the separator.
pub open spec fn join_body(body: Seq<Seq<char>>) -> Seq<char>
    decreases body.len(),
{
    if body.len() == 0 {
        Seq::empty()
    } else if body.len() == 1 {
        body[0]
    } else {
        join_body(body.drop_last()) + BODY_SEPARATOR@ + body.last()
    }
}

/// The page around a body and a title.
pub open spec fn page(body: Seq<Seq<char>>, title: Option<Seq<char>>) -> Seq<char> {
    let t = match title {
        Some(t) => t,
        None => DEFAULT_TITLE@,
    };
    PAGE_HEAD@ + t + PAGE_MID@ + join_body(body) + PAGE_TAIL@
}

/// The final state of the assembler on a source text: the text is escaped,
/// split into lines, the lines are assembled, and an open list is closed.
pub open spec fn assembled(file: Seq<char>) -> Assembly {
    close_list(assemble(lines_of(escaped_text(file))))
}

/// The HTML document compiled from a source text.
pub open spec fn compiled(file: Seq<char>) -> Seq<char> {
    let a = assembled(file);
    page(a.body, a.title)
}

/// Joins body entries with the separator.
pub fn join_entries(body: &Vec<String>) -> (r: String)
    ensures
        r@ == join_body(views(body@)),
{
    let mut r = String::new();
    let mut i: usize = 0;
    while i < body.len()
        invariant
            i <= body@.len(),
            r@ == join_body(views(body@).take(i as int)),
        decreases body@.len() - i,
    {
        proof {
            assert(views(body@).take(i + 1).drop_last() =~= views(body@).take(i as int));
        }
        if i > 0 {
            r.append(BODY_SEPARATOR);
        }
        r.append(body[i].as_str());
        proof {
            if i == 0 {
                assert(r@ =~= views(body@).take(1)[0]);
            }
        }
        i = i + 1;
    }
    assert(views(body@).take(body@.len() as int) =~= views(body@));
    r
}

/// Appends a string to the body.
fn push_entry(body: &mut Vec<String>, s: String)
    ensures
        views(final(body)@) == views(old(body)@).push(s@),
{
    body.push(s);
    assert(views(body@) =~= views(old(body)@).push(s@));
}

/// Compiles a source text to an HTML document.
pub fn compile(file: &str) -> (r: String)
    ensures
        r@ == compiled(file@),
{
    let escaped = escape_html(file);
    let lines = split_lines(escaped.as_str());
    let mut list: Option<ListKind> = None;
    let mut title: Option<String> = None;
    let mut body: Vec<String> = Vec::new();
    let mut j: usize = 0;
    while j < lines.len()
        invariant
            j <= lines@.len(),
            views(lines@) == lines_of(escaped_text(file@)),
            ({
                let a = assemble(views(lines@).take(j as int));
                &&& a.list == list
                &&& a.title == match title {
                    Some(t) => Some(t@),
                    None => None::<Seq<char>>,
                }
                &&& a.body == views(body@)
            }),
        decreases lines@.len() - j,
    {
        proof {
            assert(views(lines@).take(j + 1).drop_last() =~= views(lines@).take(j as int));
            assert(views(lines@).take(j + 1).last() == lines@[j as int]@);
        }
        let (style, content) = Style::from(lines[j].as_str());
        let f = format_inlines(content);
        if style.is_some() || !content.is_empty() {
            let is_list = match style {
                Some(Style::List(_)) => true,
                _ => false,
            };
            if !is_list {
                match list {
                    Some(cur) => {
                        push_entry(&mut body, String::from_str(cur.closing_tag()));
                        list = None;
                    },
                    None => {},
                }
            }
            match style {
                Some(st) => {
                    match st {
                        Style::List(k) => {
                            match list {
                                Some(cur) => {
                                    if cur != k {
                                        push_entry(&mut body, String::from_str(cur.closing_tag()));
                                        push_entry(&mut body, String::from_str(k.opening_tag()));
                                    }
                                },
                                None => {
                                    push_entry(&mut body, String::from_str(k.opening_tag()));
                                },
                            }
                            list = Some(k);
                        },
                        _ => {},
                    }
                    let html = st.format(f.as_str());
                    if title.is_none() && st == Style::Header(1) {
                        title = Some(f.clone());
                    }
                    match html {
                        Some(h) => {
                            push_entry(&mut body, h);
                        },
                        None => {},
                    }
                },
                None => {
                    push_entry(&mut body, Style::no_format(f.as_str()));
                },
            }
        }
        j = j + 1;
    }
    match list {
        Some(cur) => {
            push_entry(&mut body, String::from_str(cur.closing_tag()));
        },
        None => {},
    }
    assert(views(lines@).take(lines@.len() as int) =~= views(lines@));
    let joined = join_entries(&body);
    let mut r = String::from_str(PAGE_HEAD);
    match title {
        Some(t) => r.append(t.as_str()),
        None => r.append(DEFAULT_TITLE),
    }
    r.append(PAGE_MID);
    r.append(joined.as_str());
    r.append(PAGE_TAIL);
    r
}

} // verus!
