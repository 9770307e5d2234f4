//! The renderer's state, as a mathematical value, and the primitive
//! operations the event handlers are built from.

use vstd::prelude::*;

use crate::doc::SpanV;
use crate::event::MdAlign;
use crate::style::{StyleAttr, Theme};

verus! {

/// Everything the single forward pass carries: finished lines, the
/// pending line, the style-context stack, the list context, the table
/// context and the two mode flags.
#[verifier::ext_equal]
pub struct RenderState {
    /// Completed display lines, in output order.
    pub lines: Seq<Seq<SpanV>>,
    /// Spans of the line being assembled; flushed at block boundaries.
    pub cur: Seq<SpanV>,
    /// The style-context stack; the last entry is the active style and
    /// the first entry is the document baseline, which is never popped.
    pub styles: Seq<StyleAttr>,
    /// One entry per open list: the next ordinal of an ordered list,
    /// nothing for an unordered one.
    pub lists: Seq<Option<u64>>,
    /// Column alignments of the open table, empty outside tables.
    pub aligns: Seq<MdAlign>,
    /// Inside a table header row: literal text turns bold.
    pub in_header: bool,
    /// Inside a fenced or indented code block: text is echoed verbatim.
    pub in_code: bool,
}

/// The baseline style: the theme's default foreground, nothing else.
pub open spec fn base_style(th: Theme) -> StyleAttr {
    StyleAttr::fg_spec(th.fg)
}

/// The state every rendering pass starts from.
pub open spec fn init_state(th: Theme) -> RenderState {
    RenderState {
        lines: Seq::empty(),
        cur: Seq::empty(),
        styles: seq![base_style(th)],
        lists: Seq::empty(),
        aligns: Seq::empty(),
        in_header: false,
        in_code: false,
    }
}

/// The active style: the top of the stack, or the baseline if the stack
/// is unexpectedly empty.
pub open spec fn cur_style(s: RenderState, th: Theme) -> StyleAttr {
    if s.styles.len() > 0 {
        s.styles.last()
    } else {
        base_style(th)
    }
}

/// A non-empty pending line is completed and appended; an empty one is
/// left alone, so flushing never emits blank lines of its own.
pub open spec fn flushed(s: RenderState) -> RenderState {
    if s.cur.len() > 0 {
        RenderState { lines: s.lines.push(s.cur), cur: Seq::empty(), ..s }
    } else {
        s
    }
}

/// One blank line of vertical spacing.
pub open spec fn with_blank(s: RenderState) -> RenderState {
    RenderState { lines: s.lines.push(Seq::empty()), ..s }
}

/// A completed line appended directly, bypassing the pending line.
pub open spec fn with_line(s: RenderState, l: Seq<SpanV>) -> RenderState {
    RenderState { lines: s.lines.push(l), ..s }
}

/// One more span on the pending line.
pub open spec fn with_span(s: RenderState, sp: SpanV) -> RenderState {
    RenderState { cur: s.cur.push(sp), ..s }
}

/// One more entry on the style-context stack.
pub open spec fn with_style(s: RenderState, st: StyleAttr) -> RenderState {
    RenderState { styles: s.styles.push(st), ..s }
}

/// The top style entry removed — unless only the baseline is left, in
/// which case an unmatched close is ignored rather than underflowing.
pub open spec fn popped_style(s: RenderState) -> RenderState {
    if s.styles.len() > 1 {
        RenderState { styles: s.styles.drop_last(), ..s }
    } else {
        s
    }
}

} // verus!
