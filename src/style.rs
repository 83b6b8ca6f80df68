//! Block-level line styles: which role a line plays, and how it is wrapped.
use vstd::prelude::*;
use vstd::string::{StrSliceExecFns, StringExecFns};

use crate::text::{chars_of, decimal, push_decimal, trim, trimmed};

verus! {

/// Kind of line formatting style.
#[derive(PartialEq, Eq, Structural, Debug, Clone, Copy)]
pub enum Style {
    /// Header with its depth.
    Header(usize),
    /// Block quote.
    Quote,
    /// List item of the given kind.
    List(ListKind),
    HorizontalLine,
    Comment,
}

/// Kind of list for `Style::List`.
#[derive(PartialEq, Eq, Structural, Debug, Clone, Copy)]
pub enum ListKind {
    Unordered,
    Ordered,
}

/// The pattern of a header token: one or more `#`.
pub const HEADER_PATTERN: &'static str = "^#+$";

/// The pattern of an ordered list token: one or more digits and a dot.
pub const ORDERED_PATTERN: &'static str = "^\\d+\\.$";

/// Whether a non-ASCII character is a Unicode decimal digit (general
/// category Nd), which is what `\d` matches in a Unicode-mode regex.
pub uninterp spec fn unicode_decimal_digit(c: char) -> bool;

/// Whether `t` is made of one or more `#` and nothing else.
pub open spec fn is_hash_run(t: Seq<char>) -> bool {
    t.len() > 0 && forall|i: int| 0 <= i < t.len() ==> t[i] == '#'
}

/// Whether `c` is matched by the regex class `\d`.
pub open spec fn is_regex_digit(c: char) -> bool {
    if c <= '\u{7f}' {
        '0' <= c <= '9'
    } else {
        unicode_decimal_digit(c)
    }
}

/// Whether `t` is one or more digits followed by a dot, and nothing else.
pub open spec fn is_ordered_marker(t: Seq<char>) -> bool {
    &&& t.len() >= 2
    &&& t.last() == '.'
    &&& forall|i: int| 0 <= i < t.len() - 1 ==> is_regex_digit(t[i])
}

/// Relies on regex::Regex::new, which accepts both patterns, and
/// Regex::is_match, which tells whether the whole text fits the pattern
/// (both patterns are anchored at `^` and `$`).
#[verifier::external_body]
fn regex_is_match(pattern: &str, text: &str) -> (r: bool)
    requires
        pattern@ == HEADER_PATTERN@ || pattern@ == ORDERED_PATTERN@,
    ensures
        pattern@ == HEADER_PATTERN@ ==> r == is_hash_run(text@),
        pattern@ == ORDERED_PATTERN@ ==> r == (text@.len() >= 2 && text@.last() == '.'
            && forall|i: int|
            0 <= i < text@.len() - 1 ==> if text@[i] <= '\u{7f}' {
                '0' <= text@[i] <= '9'
            } else {
                unicode_decimal_digit(text@[i])
            }),
{
    regex::Regex::new(pattern).unwrap().is_match(text)
}

/// Whether `i` is the position of the first space of `s`.
pub open spec fn is_first_space(s: Seq<char>, i: int) -> bool {
    &&& 0 <= i < s.len()
    &&& s[i] == ' '
    &&& forall|j: int| 0 <= j < i ==> s[j] != ' '
}

/// Where the leading token of `s` ends: at its first space, else at its end.
pub open spec fn token_end(s: Seq<char>) -> int {
    if exists|i: int| is_first_space(s, i) {
        choose|i: int| is_first_space(s, i)
    } else {
        s.len() as int
    }
}

/// The style that a leading token stands for, if any.
pub open spec fn token_style(t: Seq<char>) -> Option<Style> {
    if is_hash_run(t) {
        Some(Style::Header(t.len() as usize))
    } else if t == seq!['-'] {
        Some(Style::List(ListKind::Unordered))
    } else if is_ordered_marker(t) {
        Some(Style::List(ListKind::Ordered))
    } else if t == seq!['>'] || t == seq!['&', 'g', 't', ';'] {
        Some(Style::Quote)
    } else if t == seq!['-', '-', '-'] {
        Some(Style::HorizontalLine)
    } else if t == seq!['~', '~', '~'] {
        Some(Style::Comment)
    } else {
        None
    }
}

/// A line's style and the content left to format: on a style, what follows
/// the token, trimmed; else the whole line, trimmed.
pub open spec fn classify(s: Seq<char>) -> (Option<Style>, Seq<char>) {
    let p = token_end(s);
    match token_style(s.subrange(0, p)) {
        Some(st) => (Some(st), trimmed(s.subrange(p, s.len() as int))),
        None => (None, trimmed(s)),
    }
}

/// What a style wraps around formatted content; `None` where it emits nothing.
pub open spec fn style_html(st: Style, line: Seq<char>) -> Option<Seq<char>> {
    match st {
        Style::Header(n) => Some(
            "<h"@ + decimal(n as nat) + "> "@ + line + " </h"@ + decimal(n as nat) + ">"@,
        ),
        Style::List(_) => Some("  <li> "@ + line + " </li>"@),
        Style::Quote => Some("<blockquote> "@ + line + " </blockquote>"@),
        Style::HorizontalLine => Some("<hr />"@),
        Style::Comment => None,
    }
}

/// A line without a style: a paragraph.
pub open spec fn paragraph_html(line: Seq<char>) -> Seq<char> {
    "<p> "@ + line + " </p>"@
}

/// The tag that opens a list of the kind.
pub open spec fn opening_tag_of(k: ListKind) -> Seq<char> {
    match k {
        ListKind::Unordered => "<ul>"@,
        ListKind::Ordered => "<ol>"@,
    }
}

/// The tag that closes a list of the kind.
pub open spec fn closing_tag_of(k: ListKind) -> Seq<char> {
    match k {
        ListKind::Unordered => "</ul>"@,
        ListKind::Ordered => "</ol>"@,
    }
}

impl Style {
    /// Splits a line into its optional style and the rest of the line.
    pub fn from(line: &str) -> (r: (Option<Style>, &str))
        ensures
            (r.0, r.1@) == classify(line@),
    {
        let v = chars_of(line);
        let mut p: usize = 0;
        while p < v.len() && v[p] != ' '
            invariant
                v@ == line@,
                p <= v@.len(),
                forall|j: int| 0 <= j < p ==> v@[j] != ' ',
            decreases v@.len() - p,
        {
            p = p + 1;
        }
        proof {
            if p < v@.len() {
                assert(is_first_space(line@, p as int));
                let w = choose|i: int| is_first_space(line@, i);
                assert(w == p);
            } else {
                assert(!exists|i: int| is_first_space(line@, i));
            }
        }
        let token = line.substring_char(0, p);
        let rest = line.substring_char(p, v.len());
        let style = if regex_is_match(HEADER_PATTERN, token) {
            Style::Header(p)
        } else if p == 1 && v[0] == '-' {
            assert(token@ =~= seq!['-']);
            Style::List(ListKind::Unordered)
        } else if regex_is_match(ORDERED_PATTERN, token) {
            Style::List(ListKind::Ordered)
        } else if (p == 1 && v[0] == '>') || (p == 4 && v[0] == '&' && v[1] == 'g' && v[2] == 't'
            && v[3] == ';') {
            assert(token@ =~= seq!['>'] || token@ =~= seq!['&', 'g', 't', ';']);
            Style::Quote
        } else if p == 3 && v[0] == '-' && v[1] == '-' && v[2] == '-' {
            assert(token@ =~= seq!['-', '-', '-']);
            Style::HorizontalLine
        } else if p == 3 && v[0] == '~' && v[1] == '~' && v[2] == '~' {
            assert(token@ =~= seq!['~', '~', '~']);
            Style::Comment
        } else {
            proof {
                assert(token@.len() == p);
                if token@ == seq!['-'] || token@ == seq!['>'] || token@ == seq![
                    '&',
                    'g',
                    't',
                    ';',
                ] || token@ == seq!['-', '-', '-'] || token@ == seq!['~', '~', '~'] {
                    assert(token@[0] == v@[0]);
                    assert(false);
                }
            }
            return (None, trim(line));
        };
        (Some(style), trim(rest))
    }

    /// Wraps formatted content in the style's HTML; `None` for a comment.
    pub fn format(&self, line: &str) -> (r: Option<String>)
        ensures
            match r {
                Some(s) => style_html(*self, line@) == Some(s@),
                None => style_html(*self, line@) is None,
            },
    {
        match self {
            Style::Header(n) => {
                let mut r = String::from_str("<h");
                push_decimal(&mut r, *n);
                r.append("> ");
                r.append(line);
                r.append(" </h");
                push_decimal(&mut r, *n);
                r.append(">");
                Some(r)
            },
            Style::List(_) => {
                let mut r = String::from_str("  <li> ");
                r.append(line);
                r.append(" </li>");
                Some(r)
            },
            Style::Quote => {
                let mut r = String::from_str("<blockquote> ");
                r.append(line);
                r.append(" </blockquote>");
                Some(r)
            },
            Style::HorizontalLine => Some(String::from_str("<hr />")),
            Style::Comment => None,
        }
    }

    /// Formats a line that has no style as a paragraph.
    pub fn no_format(line: &str) -> (r: String)
        ensures
            r@ == paragraph_html(line@),
    {
        let mut r = String::from_str("<p> ");
        r.append(line);
        r.append(" </p>");
        r
    }
}

impl ListKind {
    /// The opening HTML tag of the kind.
    pub fn opening_tag(&self) -> (r: &'static str)
        ensures
            r@ == opening_tag_of(*self),
    {
        match self {
            ListKind::Unordered => "<ul>",
            ListKind::Ordered => "<ol>",
        }
    }

    /// The closing HTML tag of the kind.
    pub fn closing_tag(&self) -> (r: &'static str)
        ensures
            r@ == closing_tag_of(*self),
    {
        match self {
            ListKind::Unordered => "</ul>",
            ListKind::Ordered => "</ol>",
        }
    }
}

} // verus!
