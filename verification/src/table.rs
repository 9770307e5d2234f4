//! Box-drawn table borders: the top border, the header separator whose
//! segments encode the column alignments, and the bottom border.

use vstd::prelude::*;

use crate::doc::{Line, Span, SpanV};
use crate::event::MdAlign;
use crate::style::{StyleAttr, Theme};
use crate::text::{chars1, chars5};

verus! {

/// A span in the muted border color.
pub open spec fn comment_span(text: Seq<char>, th: Theme) -> SpanV {
    SpanV { text, style: StyleAttr::fg_spec(th.comment) }
}

/// The fixed-width segment of one column in the header separator: a
/// distinct five-glyph pattern for each alignment.
pub open spec fn col_seg(a: MdAlign) -> Seq<char> {
    match a {
        MdAlign::Unspecified => seq!['─', '─', '─', '─', '─'],
        MdAlign::Left => seq![':', '─', '─', '─', '─'],
        MdAlign::Center => seq![':', '─', '─', '─', ':'],
        MdAlign::Right => seq!['─', '─', '─', '─', ':'],
    }
}

/// A full border or separator line: a leading corner span, then for each
/// column one segment span followed by a junction span (a closing corner
/// after the last column).  Each column contributes exactly two spans.
pub open spec fn border_spans(
    aligns: Seq<MdAlign>,
    by_align: bool,
    lead: char,
    junction: char,
    close: char,
    th: Theme,
) -> Seq<SpanV> {
    Seq::new(
        (1 + 2 * aligns.len()) as nat,
        |j: int|
            if j == 0 {
                comment_span(seq![lead], th)
            } else if j % 2 == 1 {
                comment_span(
                    if by_align {
                        col_seg(aligns[(j - 1) / 2])
                    } else {
                        col_seg(MdAlign::Unspecified)
                    },
                    th,
                )
            } else if j == 2 * aligns.len() {
                comment_span(seq![close], th)
            } else {
                comment_span(seq![junction], th)
            },
    )
}

/// The top border of a table.
pub open spec fn top_border(aligns: Seq<MdAlign>, th: Theme) -> Seq<SpanV> {
    border_spans(aligns, false, '┌', '┬', '┐', th)
}

/// The separator under the header row; its segments encode the alignments.
pub open spec fn sep_border(aligns: Seq<MdAlign>, th: Theme) -> Seq<SpanV> {
    border_spans(aligns, true, '├', '┼', '┤', th)
}

/// The bottom border of a table.
pub open spec fn bottom_border(aligns: Seq<MdAlign>, th: Theme) -> Seq<SpanV> {
    border_spans(aligns, false, '└', '┴', '┘', th)
}

/// The alignment-encoding segment, as characters.
pub fn seg_of(a: MdAlign) -> (v: Vec<char>)
    ensures
        v@ == col_seg(a),
{
    match a {
        MdAlign::Unspecified => chars5('─', '─', '─', '─', '─'),
        MdAlign::Left => chars5(':', '─', '─', '─', '─'),
        MdAlign::Center => chars5(':', '─', '─', '─', ':'),
        MdAlign::Right => chars5('─', '─', '─', '─', ':'),
    }
}

/// A fresh copy of a column-alignment sequence.
pub fn copy_aligns(v: &Vec<MdAlign>) -> (r: Vec<MdAlign>)
    ensures
        r@ == v@,
{
    let mut r: Vec<MdAlign> = Vec::new();
    let mut k: usize = 0;
    while k < v.len()
        invariant
            k <= v@.len(),
            r@.len() == k,
            forall|j: int| 0 <= j < k ==> r@[j] == v@[j],
        decreases v@.len() - k,
    {
        r.push(v[k]);
        k += 1;
    }
    proof {
        assert(r@ =~= v@);
    }
    r
}

/// Builds one border or separator line for the given columns.
pub fn table_border(
    aligns: &Vec<MdAlign>,
    by_align: bool,
    lead: char,
    junction: char,
    close: char,
    theme: &Theme,
) -> (l: Line)
    ensures
        l@ == border_spans(aligns@, by_align, lead, junction, close, *theme),
{
    let ghost target = border_spans(aligns@, by_align, lead, junction, close, *theme);
    let style = StyleAttr::with_fg(theme.comment);
    let mut spans: Vec<Span> = Vec::new();
    spans.push(Span::new(chars1(lead), style));
    let mut i: usize = 0;
    while i < aligns.len()
        invariant
            i <= aligns@.len(),
            style == StyleAttr::fg_spec(theme.comment),
            target == border_spans(aligns@, by_align, lead, junction, close, *theme),
            spans@.len() == 1 + 2 * i,
            forall|j: int|
                0 <= j < spans@.len() ==> #[trigger] spans@[j]@ == target[j],
        decreases aligns@.len() - i,
    {
        let seg = if by_align {
            seg_of(aligns[i])
        } else {
            seg_of(MdAlign::Unspecified)
        };
        spans.push(Span::new(seg, style));
        if i + 1 == aligns.len() {
            spans.push(Span::new(chars1(close), style));
        } else {
            spans.push(Span::new(chars1(junction), style));
        }
        i += 1;
    }
    let l = Line::from_spans(spans);
    proof {
        assert(l@ =~= target);
    }
    l
}

/// The separator has exactly one alignment-encoding segment per recorded
/// column — its segment spans stand at the odd positions — and the top
/// and bottom borders describe the same number of columns as each other.
pub proof fn lemma_table_shape(aligns: Seq<MdAlign>, th: Theme)
    ensures
        sep_border(aligns, th).len() == 1 + 2 * aligns.len(),
        forall|i: int|
            0 <= i < aligns.len() ==> #[trigger] sep_border(aligns, th)[1 + 2 * i].text == col_seg(
                aligns[i],
            ),
        top_border(aligns, th).len() == bottom_border(aligns, th).len(),
{
    assert forall|i: int| 0 <= i < aligns.len() implies #[trigger] sep_border(aligns, th)[1 + 2
        * i].text == col_seg(aligns[i]) by {
        let j = 1 + 2 * i;
        assert(j % 2 == 1);
        assert((j - 1) / 2 == i);
    }
}

} // verus!
