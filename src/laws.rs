//! Laws of the classifier, the inline formatter and the assembler.
use vstd::prelude::*;

use crate::document::{assemble, close_list, line_step, is_blank, Assembly};
use crate::inline::{inline_html, scan, scan_start, step, InlineScan};
use crate::style::{
    classify, closing_tag_of, is_hash_run, opening_tag_of, style_html, token_end, ListKind, Style,
};
use crate::text::trimmed;

verus! {

/// A line whose leading token is a run of `#` is a header as deep as the
/// run is long, and its content is the rest of the line after the token
/// (which starts at the first space), trimmed.
pub proof fn header_token_law(line: Seq<char>)
    requires
        is_hash_run(line.subrange(0, token_end(line))),
    ensures
        classify(line) == (
            Some(Style::Header(token_end(line) as usize)),
            trimmed(line.subrange(token_end(line), line.len() as int)),
        ),
{
}

/// Whether `c` plays a part in inline formatting outside a link.
pub open spec fn is_marker(c: char) -> bool {
    c == '\\' || c == '*' || c == '^' || c == '_' || c == '`' || c == '['
}

/// Characters without a role pass through to the output unchanged.
proof fn plain_run(p: Seq<char>, t: Seq<char>)
    requires
        scan(p).link is None,
        !scan(p).escaped,
        forall|i: int| 0 <= i < t.len() ==> !is_marker(t[i]),
    ensures
        scan(p + t) == (InlineScan { out: scan(p).out + t, ..scan(p) }),
    decreases t.len(),
{
    if t.len() == 0 {
        assert(p + t =~= p);
        assert(scan(p).out + t =~= scan(p).out);
    } else {
        plain_run(p, t.drop_last());
        let s = p + t;
        assert(s.drop_last() =~= p + t.drop_last());
        assert(s.last() == t.last());
        assert(!is_marker(t[t.len() - 1]));
        assert(scan(s) == step(scan(p + t.drop_last()), t.last()));
        assert((scan(p).out + t.drop_last()).push(t.last()) =~= scan(p).out + t);
    }
}

/// A marker pair around text without other markers becomes the marker's
/// opening and closing tags around that text.
pub proof fn toggle_pair_law(m: char, t: Seq<char>, open: Seq<char>, close: Seq<char>)
    requires
        (m == '*' && open == "<i>"@ && close == "</i>"@) || (m == '^' && open == "<b>"@ && close
            == "</b>"@) || (m == '_' && open == "<u>"@ && close == "</u>"@) || (m == '`' && open
            == "<code>"@ && close == "</code>"@),
        forall|i: int| 0 <= i < t.len() ==> !is_marker(t[i]),
    ensures
        inline_html(seq![m] + t + seq![m]) == open + t + close,
{
    let s = seq![m] + t + seq![m];
    assert(seq![m].drop_last() =~= Seq::<char>::empty());
    assert(scan(Seq::<char>::empty()) == scan_start());
    assert(scan(seq![m]) == step(scan_start(), m));
    plain_run(seq![m], t);
    assert(s.drop_last() =~= seq![m] + t);
    assert(open + t + close =~= Seq::<char>::empty() + open + t + close);
}

/// A backslash before `[` keeps it from opening a link.
pub proof fn escaped_bracket_law(p: Seq<char>)
    requires
        !scan(p).escaped,
        scan(p).link is None,
    ensures
        scan(p + seq!['\\', '[']).link is None,
{
    let s = p + seq!['\\', '['];
    let q = p + seq!['\\'];
    assert(s.drop_last() =~= q);
    assert(s.last() == '[');
    assert(q.drop_last() =~= p);
    assert(q.last() == '\\');
    assert(scan(q) == step(scan(p), '\\'));
    assert(scan(s) == step(scan(q), '['));
}

/// Consecutive items of one kind share one list: the list opens before the
/// first and closes once after the last.
pub proof fn list_grouping_law(a: Assembly, l1: Seq<char>, l2: Seq<char>, k: ListKind)
    requires
        a.list is None,
        classify(l1).0 == Some(Style::List(k)),
        classify(l2).0 == Some(Style::List(k)),
    ensures
        close_list(line_step(line_step(a, l1), l2)).body == a.body.push(opening_tag_of(k)).push(
            style_html(Style::List(k), inline_html(classify(l1).1))->0,
        ).push(style_html(Style::List(k), inline_html(classify(l2).1))->0).push(
            closing_tag_of(k),
        ),
        close_list(line_step(line_step(a, l1), l2)).list is None,
{
}

/// An item of the other kind right after an item closes the open list and
/// opens a new one.
pub proof fn list_switch_law(a: Assembly, line: Seq<char>, k: ListKind, j: ListKind)
    requires
        a.list == Some(k),
        k != j,
        classify(line).0 == Some(Style::List(j)),
    ensures
        line_step(a, line).body == a.body.push(closing_tag_of(k)).push(opening_tag_of(j)).push(
            style_html(Style::List(j), inline_html(classify(line).1))->0,
        ),
        line_step(a, line).list == Some(j),
{
}

/// The first first-level header gives the title: its formatted content.
pub proof fn first_header_title_law(a: Assembly, line: Seq<char>)
    requires
        a.title is None,
        classify(line).0 == Some(Style::Header(1)),
    ensures
        line_step(a, line).title == Some(inline_html(classify(line).1)),
{
}

/// Once a title is captured, no later line changes it.
pub proof fn title_kept_law(a: Assembly, line: Seq<char>)
    requires
        a.title is Some,
    ensures
        line_step(a, line).title == a.title,
{
}

/// Without a first-level header there is no title, and the page takes the
/// default one.
pub proof fn no_header_no_title_law(lines: Seq<Seq<char>>)
    requires
        forall|i: int| 0 <= i < lines.len() ==> classify(lines[i]).0 != Some(Style::Header(1)),
    ensures
        assemble(lines).title is None,
    decreases lines.len(),
{
    if lines.len() > 0 {
        no_header_no_title_law(lines.drop_last());
        assert(classify(lines[lines.len() - 1]).0 != Some(Style::Header(1)));
    }
}

/// A blank line changes nothing: no entry, and an open list stays open.
pub proof fn blank_line_law(a: Assembly, line: Seq<char>)
    requires
        is_blank(line),
    ensures
        line_step(a, line) == a,
{
}

/// A comment emits nothing of its own but closes an open list.
pub proof fn comment_law(a: Assembly, line: Seq<char>)
    requires
        classify(line).0 == Some(Style::Comment),
    ensures
        line_step(a, line) == close_list(a),
{
}

} // verus!
