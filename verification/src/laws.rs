//! The renderer's global laws, stated and proved against the same spec
//! functions its contracts use.

use vstd::prelude::*;

use crate::event::{
    code_close_p, code_open_p, count_if, head_close_p, head_open_p, list_close_p,
    list_open_p, prefix_bounded, stream_balanced, style_close_p, style_open_p, table_close_p,
    table_open_p, MdAlign, MdEventV,
};
use crate::doc::SpanV;
use crate::event::{list_close, list_open, MdTagEnd, MdTagV};
use crate::render::{
    code_text_style, item_indent, lemma_append_code_lines_frame, lemma_append_code_lines_shape,
    lemma_append_parts_frame, lemma_append_parts_shape, lemma_run_snoc, marker_span, run, step,
    text_style,
};
use crate::render_pipeline;
use crate::style::StyleAttr;
use crate::table::{comment_span, sep_border};
use crate::text::{
    dec_spec, first_occ, join_with, lemma_first_occ_bounds, lemma_join_split,
    lemma_split_on_concat, occurs_at, split_lines, split_on,
};
use crate::state::{base_style, init_state, RenderState};
use crate::style::Theme;

verus! {

/// Counting over one more event.
proof fn lemma_count_snoc(es: Seq<MdEventV>, e: MdEventV, p: spec_fn(MdEventV) -> bool)
    ensures
        count_if(es.push(e), p) == count_if(es, p) + (if p(e) {
            1int
        } else {
            0
        }),
    decreases es.len(),
{
    if es.len() == 0 {
        assert(es.push(e).drop_first() =~= Seq::<MdEventV>::empty());
        assert(es.push(e)[0] == e);
        assert(count_if(es.push(e), p) == (if p(e) {
            1int
        } else {
            0
        }) + count_if(Seq::<MdEventV>::empty(), p));
    } else {
        assert(es.push(e).drop_first() =~= es.drop_first().push(e));
        assert(es.push(e)[0] == es[0]);
        assert(count_if(es.push(e), p) == (if p(es[0]) {
            1int
        } else {
            0
        }) + count_if(es.drop_first().push(e), p));
        lemma_count_snoc(es.drop_first(), e, p);
        assert(count_if(es, p) == (if p(es[0]) {
            1int
        } else {
            0
        }) + count_if(es.drop_first(), p));
    }
}

/// Prefix-boundedness passes to the stream without its last event.
proof fn lemma_prefix_restrict(
    es: Seq<MdEventV>,
    po: spec_fn(MdEventV) -> bool,
    pc: spec_fn(MdEventV) -> bool,
)
    requires
        es.len() > 0,
        prefix_bounded(es, po, pc),
    ensures
        prefix_bounded(es.drop_last(), po, pc),
{
    assert forall|i: int|
        0 <= i <= es.drop_last().len() implies count_if(es.drop_last().take(i), pc) <= count_if(
        es.drop_last().take(i),
        po,
    ) by {
        assert(es.drop_last().take(i) =~= es.take(i));
    }
}

/// How the run's final contexts relate to the stream's open and close
/// counts, for any prefix-bounded stream: style depth and list depth are
/// exactly one plus, respectively exactly, the surplus of opens; and a
/// class whose opens and closes have evened out leaves its context clear.
proof fn lemma_run_counts(es: Seq<MdEventV>, th: Theme, ph: Seq<char>)
    requires
        prefix_bounded(es, style_open_p(), style_close_p()),
        prefix_bounded(es, list_open_p(), list_close_p()),
        prefix_bounded(es, table_open_p(), table_close_p()),
        prefix_bounded(es, head_open_p(), head_close_p()),
        prefix_bounded(es, code_open_p(), code_close_p()),
    ensures
        ({
            let r = run(es, init_state(th), th, ph);
            &&& r.styles.len() == 1 + count_if(es, style_open_p()) - count_if(
                es,
                style_close_p(),
            )
            &&& r.styles[0] == base_style(th)
            &&& r.lists.len() == count_if(es, list_open_p()) - count_if(es, list_close_p())
            &&& count_if(es, table_open_p()) == count_if(es, table_close_p())
                ==> r.aligns == Seq::<MdAlign>::empty()
            &&& count_if(es, head_open_p()) == count_if(es, head_close_p()) ==> !r.in_header
            &&& count_if(es, code_open_p()) == count_if(es, code_close_p()) ==> !r.in_code
        }),
    decreases es.len(),
{
    if es.len() == 0 {
    } else {
        let es0 = es.drop_last();
        let e = es.last();
        assert(es0.push(e) =~= es);
        lemma_prefix_restrict(es, style_open_p(), style_close_p());
        lemma_prefix_restrict(es, list_open_p(), list_close_p());
        lemma_prefix_restrict(es, table_open_p(), table_close_p());
        lemma_prefix_restrict(es, head_open_p(), head_close_p());
        lemma_prefix_restrict(es, code_open_p(), code_close_p());
        lemma_run_counts(es0, th, ph);
        lemma_run_snoc(es0, e, init_state(th), th, ph);
        lemma_count_snoc(es0, e, style_open_p());
        lemma_count_snoc(es0, e, style_close_p());
        lemma_count_snoc(es0, e, list_open_p());
        lemma_count_snoc(es0, e, list_close_p());
        lemma_count_snoc(es0, e, table_open_p());
        lemma_count_snoc(es0, e, table_close_p());
        lemma_count_snoc(es0, e, head_open_p());
        lemma_count_snoc(es0, e, head_close_p());
        lemma_count_snoc(es0, e, code_open_p());
        lemma_count_snoc(es0, e, code_close_p());
        let r0 = run(es0, init_state(th), th, ph);
        assert(run(es, init_state(th), th, ph) == step(r0, e, th, ph));
        assert(es.take(es.len() as int) =~= es);
        assert(es0.take(es0.len() as int) =~= es0);
        assert(count_if(es0, style_close_p()) <= count_if(es0, style_open_p()));
        assert(count_if(es0, list_close_p()) <= count_if(es0, list_open_p()));
        assert(r0.styles.len() >= 1);
        if let MdEventV::Text(t) = e {
            if r0.in_code {
                lemma_append_code_lines_frame(r0, split_lines(t), code_text_style(r0, th), th);
            } else {
                lemma_append_parts_frame(r0, split_on(t, ph), text_style(r0, th), th);
            }
        }
        if style_close_p()(e) {
            assert(count_if(es, style_close_p()) <= count_if(es, style_open_p()));
            assert(r0.styles.len() >= 2);
        }
        if list_close_p()(e) {
            assert(count_if(es, list_close_p()) <= count_if(es, list_open_p()));
            assert(r0.lists.len() >= 1);
        }
        if table_open_p()(e) {
            assert(count_if(es, table_close_p()) <= count_if(es, table_open_p()));
        }
        if head_open_p()(e) {
            assert(count_if(es, head_close_p()) <= count_if(es, head_open_p()));
        }
        if code_open_p()(e) {
            assert(count_if(es, code_close_p()) <= count_if(es, code_open_p()));
        }
    }
}

/// After a well-formed event stream is fully processed, every context is
/// back at its baseline: the style stack holds exactly the document
/// default, the list context and the table alignments are empty, and the
/// header and code flags are off.
pub proof fn lemma_stack_balance(es: Seq<MdEventV>, th: Theme, ph: Seq<char>)
    requires
        stream_balanced(es),
    ensures
        run(es, init_state(th), th, ph).styles == seq![base_style(th)],
        run(es, init_state(th), th, ph).lists == Seq::<Option<u64>>::empty(),
        run(es, init_state(th), th, ph).aligns == Seq::<MdAlign>::empty(),
        !run(es, init_state(th), th, ph).in_header,
        !run(es, init_state(th), th, ph).in_code,
{
    lemma_run_counts(es, th, ph);
    let r = run(es, init_state(th), th, ph);
    assert(r.styles.len() == 1);
    assert(r.styles =~= seq![base_style(th)]);
    assert(r.lists =~= Seq::<Option<u64>>::empty());
}

/// Rendering the same source text, placeholder and theme twice yields
/// structurally identical styled documents: the pipeline is a pure
/// function of its three inputs.
pub proof fn lemma_render_deterministic(
    source: Seq<char>,
    ph: Seq<char>,
    th: Theme,
    d1: Seq<Seq<SpanV>>,
    d2: Seq<Seq<SpanV>>,
)
    requires
        d1 == render_pipeline(source, ph, th),
        d2 == render_pipeline(source, ph, th),
    ensures
        d1 == d2,
{
}

/// An item opened under an ordered-list context whose counter stands at
/// `n` emits the indent span and the marker `"<n>. "`, and advances that
/// counter — and only it — to `n + 1`.
pub proof fn lemma_item_numbering(s: RenderState, th: Theme, ph: Seq<char>, n: u64)
    requires
        s.lists.len() > 0,
        s.lists.last() == Some(n),
        n < u64::MAX,
    ensures
        ({
            let r = step(s, MdEventV::Start(MdTagV::Item), th, ph);
            &&& r.lists == s.lists.update(s.lists.len() - 1, Some((n + 1) as u64))
            &&& r.cur.len() == 2
            &&& r.cur[0] == (SpanV {
                text: item_indent(s.lists.len() as int),
                style: StyleAttr::plain_spec(),
            })
            &&& r.cur[1] == (SpanV {
                text: dec_spec(n as nat) + seq!['.', ' '],
                style: StyleAttr::fg_spec(th.comment),
            })
        }),
{
    assert(crate::state::flushed(s).cur =~= Seq::<SpanV>::empty());
}

/// An item opened with no ordered-list counter in scope — an unordered
/// list, or no open list at all — emits the bullet marker and leaves the
/// list context unchanged.
pub proof fn lemma_item_bullet(s: RenderState, th: Theme, ph: Seq<char>)
    requires
        s.lists.len() == 0 || s.lists.last() is None,
    ensures
        ({
            let r = step(s, MdEventV::Start(MdTagV::Item), th, ph);
            &&& r.lists == s.lists
            &&& r.cur.len() == 2
            &&& r.cur[1] == (SpanV {
                text: seq!['•', ' '],
                style: StyleAttr::fg_spec(th.comment),
            })
        }),
{
    assert(crate::state::flushed(s).cur =~= Seq::<SpanV>::empty());
}

/// A nested list pushes a fresh counter of its own — every enclosing
/// counter stays where it was — and closing the nested list pops exactly
/// that entry, restoring the parent's counter.
pub proof fn lemma_nested_list(s: RenderState, th: Theme, ph: Seq<char>, start: Option<u64>)
    ensures
        step(s, MdEventV::Start(MdTagV::List(start)), th, ph).lists == s.lists.push(start),
        s.lists.len() > 0 ==> step(s, MdEventV::End(MdTagEnd::List), th, ph).lists
            == s.lists.drop_last(),
{
}

/// Events other than list opens, list closes and item opens leave the
/// list context untouched, so consecutive items at one depth draw their
/// numbers from one counter.
pub proof fn lemma_lists_untouched(s: RenderState, e: MdEventV, th: Theme, ph: Seq<char>)
    requires
        !list_open(e),
        !list_close(e),
        e != MdEventV::Start(MdTagV::Item),
    ensures
        step(s, e, th, ph).lists == s.lists,
{
    if let MdEventV::Text(t) = e {
        if s.in_code {
            lemma_append_code_lines_frame(s, split_lines(t), code_text_style(s, th), th);
        } else {
            lemma_append_parts_frame(s, split_on(t, ph), text_style(s, th), th);
        }
    }
}

/// A run of events none of which opens or closes a list or an item
/// leaves the list context exactly as it was.
pub proof fn lemma_run_lists_neutral(es: Seq<MdEventV>, s: RenderState, th: Theme, ph: Seq<char>)
    requires
        forall|i: int|
            0 <= i < es.len() ==> !list_open(#[trigger] es[i]) && !list_close(es[i]) && es[i]
                != MdEventV::Start(MdTagV::Item),
    ensures
        run(es, s, th, ph).lists == s.lists,
    decreases es.len(),
{
    if es.len() > 0 {
        lemma_lists_untouched(s, es[0], th, ph);
        assert(forall|i: int|
            0 <= i < es.drop_first().len() ==> !list_open(#[trigger] es.drop_first()[i])
                && !list_close(es.drop_first()[i]) && es.drop_first()[i] != MdEventV::Start(
                MdTagV::Item,
            ));
        lemma_run_lists_neutral(es.drop_first(), step(s, es[0], th, ph), th, ph);
    }
}

/// Two items at the same nesting depth, with any list-neutral events
/// between them, draw consecutive ordinals from the one shared counter:
/// the first emits `"<n>. "`, the second `"<n+1>. "`.
pub proof fn lemma_consecutive_items(
    s: RenderState,
    th: Theme,
    ph: Seq<char>,
    n: u64,
    mid: Seq<MdEventV>,
)
    requires
        s.lists.len() > 0,
        s.lists.last() == Some(n),
        n + 1 < u64::MAX,
        forall|i: int|
            0 <= i < mid.len() ==> !list_open(#[trigger] mid[i]) && !list_close(mid[i]) && mid[i]
                != MdEventV::Start(MdTagV::Item),
    ensures
        ({
            let first = step(s, MdEventV::Start(MdTagV::Item), th, ph);
            let between = run(mid, first, th, ph);
            let second = step(between, MdEventV::Start(MdTagV::Item), th, ph);
            &&& first.cur[1].text == dec_spec(n as nat) + seq!['.', ' ']
            &&& second.cur[1].text == dec_spec((n + 1) as nat) + seq!['.', ' ']
            &&& second.lists.last() == Some((n + 2) as u64)
        }),
{
    lemma_item_numbering(s, th, ph, n);
    let first = step(s, MdEventV::Start(MdTagV::Item), th, ph);
    assert(first.lists.last() == Some((n + 1) as u64));
    lemma_run_lists_neutral(mid, first, th, ph);
    let between = run(mid, first, th, ph);
    lemma_item_numbering(between, th, ph, (n + 1) as u64);
}

/// Text inside a code block is reproduced character for character: the
/// event appends one output line per source line — a border glyph, then
/// the line's text unchanged, in the fixed code style whatever the
/// characters look like — and joining the emitted line texts with
/// newlines restores the event text, up to one trailing newline.
pub proof fn lemma_code_verbatim(s: RenderState, th: Theme, ph: Seq<char>, t: Seq<char>)
    requires
        s.in_code,
    ensures
        ({
            let r = step(s, MdEventV::Text(t), th, ph);
            &&& r.lines == s.lines + split_lines(t).map_values(
                |l: Seq<char>| seq![
                    comment_span(seq!['│', ' '], th),
                    SpanV { text: l, style: code_text_style(s, th) },
                ],
            )
            &&& join_with(split_lines(t), seq!['\n']) == if t.len() > 0 && t.last() == '\n' {
                t.drop_last()
            } else {
                t
            }
        }),
{
    lemma_append_code_lines_shape(s, split_lines(t), code_text_style(s, th), th);
    if t.len() == 0 {
    } else if t.last() == '\n' {
        lemma_join_split(t.drop_last(), seq!['\n']);
    } else {
        lemma_join_split(t, seq!['\n']);
    }
}

/// A text event carrying `a`, then the placeholder, then `b` — with the
/// placeholder occurring nowhere else in the event — contributes the span
/// for `a`, the distinctly styled break-marker span, and the span for
/// `b`, in that order: the break marker is never lost.
pub proof fn lemma_break_marker_roundtrip(
    s: RenderState,
    th: Theme,
    ph: Seq<char>,
    a: Seq<char>,
    b: Seq<char>,
)
    requires
        !s.in_code,
        ph.len() > 0,
        a.len() > 0,
        b.len() > 0,
        forall|j: int| 0 <= j < a.len() ==> !occurs_at(a + ph + b, ph, j),
        forall|j: int| !occurs_at(b, ph, j),
    ensures
        step(s, MdEventV::Text(a + ph + b), th, ph).cur == s.cur + seq![
            SpanV { text: a, style: text_style(s, th) },
            marker_span(th),
            SpanV { text: b, style: text_style(s, th) },
        ],
{
    lemma_split_on_concat(a, ph, b);
    lemma_first_occ_bounds(b, ph);
    if let Some(i) = first_occ(b, ph) {
        assert(occurs_at(b, ph, i));
        assert(false);
    }
    let parts = split_on(a + ph + b, ph);
    assert(parts =~= seq![a, b]);
    let style = text_style(s, th);
    lemma_append_parts_shape(s, parts, style, th);
    assert(parts.drop_first() =~= seq![b]);
    assert(parts.len() == 2 && parts[0] == a);
    assert(crate::render::parts_spans(seq![b], style, th) =~= seq![SpanV { text: b, style }]);
    assert(crate::render::parts_spans(parts, style, th) == crate::render::parts_spans(
        seq![a, b],
        style,
        th,
    ));
    assert(crate::render::parts_spans(parts, text_style(s, th), th) =~= seq![
        SpanV { text: a, style: text_style(s, th) },
        marker_span(th),
        SpanV { text: b, style: text_style(s, th) },
    ]);
}

/// Closing the header row flushes it, emits the alignment-encoding
/// separator line for exactly the recorded columns, and clears the header
/// flag; the shape of that line is what the table-shape law states.
pub proof fn lemma_separator_emitted(s: RenderState, th: Theme, ph: Seq<char>)
    ensures
        step(s, MdEventV::End(MdTagEnd::TableHead), th, ph).lines == crate::state::flushed(
            s,
        ).lines.push(sep_border(s.aligns, th)),
        !step(s, MdEventV::End(MdTagEnd::TableHead), th, ph).in_header,
{
}

} // verus!
