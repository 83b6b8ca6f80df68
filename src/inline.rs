//! Inline formatting of one line: toggle markers, links and escapes.
use vstd::prelude::*;
use vstd::string::{StrSliceExecFns, StringExecFns};

use crate::text::{chars_of, find_back_in, push_char, string_of, trim, trimmed, is_last_position};

verus! {

/// Whether each inline format is active.
#[derive(PartialEq, Eq, Structural, Debug, Clone, Copy)]
pub struct Inlines {
    pub italic: bool,
    pub bold: bool,
    pub underline: bool,
    pub code: bool,
}

impl Default for Inlines {
    fn default() -> (r: Inlines)
        ensures
            r == all_off(),
    {
        Inlines { italic: false, bold: false, underline: false, code: false }
    }
}

/// No inline format active.
pub open spec fn all_off() -> Inlines {
    Inlines { italic: false, bold: false, underline: false, code: false }
}

/// The state of the inline formatter after a prefix of the line.
pub struct InlineScan {
    /// The last character was an unescaped backslash.
    pub escaped: bool,
    pub inlines: Inlines,
    /// The text of the open link, if one is open.
    pub link: Option<Seq<char>>,
    /// Position in the link text of its last unescaped `|`.
    pub split: Option<int>,
    /// What has been emitted so far.
    pub out: Seq<char>,
}

/// The state before the first character.
pub open spec fn scan_start() -> InlineScan {
    InlineScan { escaped: false, inlines: all_off(), link: None, split: None, out: Seq::empty() }
}

/// The opening or the closing tag, depending on whether the format is on.
pub open spec fn toggle_tag(on: bool, open: Seq<char>, close: Seq<char>) -> Seq<char> {
    if on {
        close
    } else {
        open
    }
}

/// Visible text and destination of a link, split at `split` if there is a
/// separator.
pub open spec fn link_parts(buf: Seq<char>, split: Option<int>) -> (Seq<char>, Seq<char>) {
    match split {
        Some(p) => (trimmed(buf.subrange(0, p)), trimmed(buf.subrange(p + 1, buf.len() as int))),
        None => (buf, Seq::empty()),
    }
}

/// The anchor element for a closed link.
pub open spec fn link_html(buf: Seq<char>, split: Option<int>) -> Seq<char> {
    let (text, href) = link_parts(buf, split);
    "<a href=\""@ + href + "\">"@ + text + "</a>"@
}

/// Sends a character to the open link, or else to the output.
pub open spec fn emit(st: InlineScan, c: char) -> InlineScan {
    match st.link {
        Some(b) => InlineScan { escaped: false, link: Some(b.push(c)), ..st },
        None => InlineScan { escaped: false, out: st.out.push(c), ..st },
    }
}

/// One step of the inline formatter.
pub open spec fn step(st: InlineScan, c: char) -> InlineScan {
    if st.escaped {
        emit(st, c)
    } else if c == '\\' {
        InlineScan { escaped: true, ..st }
    } else if c == '*' {
        InlineScan {
            out: st.out + toggle_tag(st.inlines.italic, "<i>"@, "</i>"@),
            inlines: Inlines { italic: !st.inlines.italic, ..st.inlines },
            ..st
        }
    } else if c == '^' {
        InlineScan {
            out: st.out + toggle_tag(st.inlines.bold, "<b>"@, "</b>"@),
            inlines: Inlines { bold: !st.inlines.bold, ..st.inlines },
            ..st
        }
    } else if c == '_' {
        InlineScan {
            out: st.out + toggle_tag(st.inlines.underline, "<u>"@, "</u>"@),
            inlines: Inlines { underline: !st.inlines.underline, ..st.inlines },
            ..st
        }
    } else if c == '`' {
        InlineScan {
            out: st.out + toggle_tag(st.inlines.code, "<code>"@, "</code>"@),
            inlines: Inlines { code: !st.inlines.code, ..st.inlines },
            ..st
        }
    } else if c == '[' && st.link is None {
        InlineScan { link: Some(Seq::empty()), split: None, ..st }
    } else if c == ']' && st.link is Some {
        InlineScan {
            out: st.out + link_html(st.link->0, st.split),
            link: None,
            split: None,
            ..st
        }
    } else if c == '|' && st.link is Some {
        InlineScan {
            link: Some(st.link->0.push(c)),
            split: Some(st.link->0.len() as int),
            ..st
        }
    } else {
        emit(st, c)
    }
}

/// The formatter's state after the whole of `s`.
pub open spec fn scan(s: Seq<char>) -> InlineScan
    decreases s.len(),
{
    if s.len() == 0 {
        scan_start()
    } else {
        step(scan(s.drop_last()), s.last())
    }
}

/// The HTML of one line's content.
pub open spec fn inline_html(s: Seq<char>) -> Seq<char> {
    scan(s).out
}

/// Splits a link's text at `split` into its visible text and destination.
pub fn split_link(link: &str, split: Option<usize>) -> (r: (&str, &str))
    requires
        split matches Some(p) ==> p < link@.len(),
    ensures
        (r.0@, r.1@) == link_parts(
            link@,
            match split {
                Some(p) => Some(p as int),
                None => None,
            },
        ),
{
    match split {
        Some(p) => {
            let len = link.unicode_len();
            let text = link.substring_char(0, p);
            let href = link.substring_char(p + 1, len);
            (trim(text), trim(href))
        },
        None => {
            proof {
                reveal_strlit("");
            }
            (link, "")
        },
    }
}

/// Splits raw link text into visible text and destination, at the last `|`.
pub fn separate_link(link: &str) -> (r: (&str, &str))
    ensures
        (r.0@, r.1@) == link_parts(
            link@,
            if exists|i: int| is_last_position(link@, '|', i) {
                Some(choose|i: int| is_last_position(link@, '|', i))
            } else {
                None
            },
        ),
{
    let v = chars_of(link);
    let pos = find_back_in(&v, '|');
    proof {
        match pos {
            Some(p) => {
                let w = choose|i: int| is_last_position(link@, '|', i);
                assert(is_last_position(link@, '|', w));
                assert(w == p);
            },
            None => {},
        }
    }
    split_link(link, pos)
}

/// Whether the exec state of the formatter is the spec state `st`.
pub open spec fn state_is(
    st: InlineScan,
    escaped: bool,
    inl: Inlines,
    link: Option<Vec<char>>,
    split: Option<usize>,
    out: Seq<char>,
) -> bool {
    &&& st.escaped == escaped
    &&& st.inlines == inl
    &&& st.out == out
    &&& match link {
        Some(b) => st.link == Some(b@),
        None => st.link is None,
    }
    &&& match split {
        Some(p) => st.split == Some(p as int) && (link matches Some(b) && p < b@.len()),
        None => st.split is None,
    }
}

/// Formats the inline styles and links of one line.
pub fn format_inlines(line: &str) -> (r: String)
    ensures
        r@ == inline_html(line@),
{
    let v = chars_of(line);
    let mut escaped = false;
    let mut inl = Inlines::default();
    let mut link: Option<Vec<char>> = None;
    let mut split: Option<usize> = None;
    let mut out = String::new();
    let mut i: usize = 0;
    while i < v.len()
        invariant
            v@ == line@,
            i <= v@.len(),
            state_is(scan(v@.take(i as int)), escaped, inl, link, split, out@),
        decreases v@.len() - i,
    {
        let c = v[i];
        let ghost next = step(scan(v@.take(i as int)), c);
        proof {
            assert(v@.take(i + 1).drop_last() =~= v@.take(i as int));
            assert(v@.take(i + 1).last() == c);
            assert(scan(v@.take(i + 1)) == next);
        }
        if escaped || !(c == '\\' || c == '*' || c == '^' || c == '_' || c == '`' || (c == '['
            && link.is_none()) || (c == ']' && link.is_some()) || (c == '|' && link.is_some())) {
            // A literal character goes to the open link, else to the output
            link =
            match link {
                Some(mut b) => {
                    b.push(c);
                    Some(b)
                },
                None => {
                    push_char(&mut out, c);
                    None
                },
            };
            escaped = false;
        } else if c == '\\' {
            escaped = true;
        } else if c == '*' {
            out.append(if inl.italic { "</i>" } else { "<i>" });
            inl.italic = !inl.italic;
        } else if c == '^' {
            out.append(if inl.bold { "</b>" } else { "<b>" });
            inl.bold = !inl.bold;
        } else if c == '_' {
            out.append(if inl.underline { "</u>" } else { "<u>" });
            inl.underline = !inl.underline;
        } else if c == '`' {
            out.append(if inl.code { "</code>" } else { "<code>" });
            inl.code = !inl.code;
        } else if c == '[' {
            link = Some(Vec::new());
            split = None;
        } else if c == ']' {
            match link {
                Some(b) => {
                    let l = string_of(&b, 0, b.len());
                    assert(l@ =~= b@);
                    let ghost before = out@;
                    let (text, href) = split_link(l.as_str(), split);
                    out.append("<a href=\"");
                    out.append(href);
                    out.append("\">");
                    out.append(text);
                    out.append("</a>");
                    assert(out@ =~= before + link_html(b@, scan(v@.take(i as int)).split));
                },
                None => {},
            }
            link = None;
            split = None;
        } else {
            // An unescaped `|` inside a link: the latest place to split it
            link =
            match link {
                Some(mut b) => {
                    split = Some(b.len());
                    b.push(c);
                    Some(b)
                },
                None => None,
            };
        }
        assert(state_is(next, escaped, inl, link, split, out@));
        i = i + 1;
    }
    assert(v@.take(v@.len() as int) =~= line@);
    out
}

} // verus!
