//! The styled document the renderer produces: lines of styled spans.

use vstd::prelude::*;

use crate::style::StyleAttr;

verus! {

/// The mathematical value of a span: its characters and its style.
#[verifier::ext_equal]
pub struct SpanV {
    pub text: Seq<char>,
    pub style: StyleAttr,
}

/// An immutable literal text run paired with a fully resolved style.
/// Never split once appended to a line.
#[derive(Clone, Debug, PartialEq, Eq)]
pub struct Span {
    pub text: Vec<char>,
    pub style: StyleAttr,
}

impl View for Span {
    type V = SpanV;

    open spec fn view(&self) -> SpanV {
        SpanV { text: self.text@, style: self.style }
    }
}

impl Span {
    pub fn new(text: Vec<char>, style: StyleAttr) -> (s: Span)
        ensures
            s@ == (SpanV { text: text@, style }),
    {
        Span { text, style }
    }
}

/// One display row: an ordered sequence of spans, left to right.
#[derive(Clone, Debug, PartialEq, Eq)]
pub struct Line {
    pub spans: Vec<Span>,
}

impl View for Line {
    type V = Seq<SpanV>;

    open spec fn view(&self) -> Seq<SpanV> {
        self.spans@.map_values(|s: Span| s@)
    }
}

impl Line {
    /// A line with no spans: vertical blank space.
    pub fn blank() -> (l: Line)
        ensures
            l@ == Seq::<SpanV>::empty(),
    {
        let l = Line { spans: Vec::new() };
        proof {
            assert(l@ =~= Seq::<SpanV>::empty());
        }
        l
    }

    pub fn from_spans(spans: Vec<Span>) -> (l: Line)
        ensures
            l@ == spans@.map_values(|s: Span| s@),
    {
        Line { spans }
    }
}

/// The complete ordered sequence of lines produced by one rendering pass.
#[derive(Clone, Debug, PartialEq, Eq)]
pub struct Document {
    pub lines: Vec<Line>,
}

impl View for Document {
    type V = Seq<Seq<SpanV>>;

    open spec fn view(&self) -> Seq<Seq<SpanV>> {
        self.lines@.map_values(|l: Line| l@)
    }
}

impl Document {
    /// The number of display rows, for scroll-range arithmetic in a viewer.
    pub fn height(&self) -> (n: usize)
        ensures
            n == self@.len(),
    {
        self.lines.len()
    }
}

} // verus!
