//! The closed event vocabulary the renderer consumes.
//!
//! The upstream tokenizer delivers block and inline open/close markers,
//! literal text and leaf events in document order; these types hold, as
//! plain values, exactly what the renderer reads of each event.

use vstd::prelude::*;

verus! {

/// Text alignment of one table column.
#[derive(Clone, Copy, Debug, PartialEq, Eq)]
pub enum MdAlign {
    Unspecified,
    Left,
    Center,
    Right,
}

/// The mathematical value of a block or inline open tag.
#[verifier::ext_equal]
pub enum MdTagV {
    /// A heading with its level, 1 through 6.
    Heading(u8),
    BlockQuote,
    /// A code block with its fence language label; empty for indented code.
    CodeBlock(Seq<char>),
    /// A table with the alignment of each of its columns.
    Table(Seq<MdAlign>),
    TableHead,
    TableRow,
    TableCell,
    /// A list; the number of its first item when ordered, nothing when not.
    List(Option<u64>),
    Item,
    Emphasis,
    Strong,
    Strikethrough,
    Link,
    /// Any open tag the renderer does not react to.
    Other,
}

/// A block or inline open tag.
#[derive(Clone, Debug, PartialEq, Eq)]
pub enum MdTag {
    Heading(u8),
    BlockQuote,
    CodeBlock(Vec<char>),
    Table(Vec<MdAlign>),
    TableHead,
    TableRow,
    TableCell,
    List(Option<u64>),
    Item,
    Emphasis,
    Strong,
    Strikethrough,
    Link,
    Other,
}

impl View for MdTag {
    type V = MdTagV;

    open spec fn view(&self) -> MdTagV {
        match self {
            MdTag::Heading(level) => MdTagV::Heading(*level),
            MdTag::BlockQuote => MdTagV::BlockQuote,
            MdTag::CodeBlock(lang) => MdTagV::CodeBlock(lang@),
            MdTag::Table(aligns) => MdTagV::Table(aligns@),
            MdTag::TableHead => MdTagV::TableHead,
            MdTag::TableRow => MdTagV::TableRow,
            MdTag::TableCell => MdTagV::TableCell,
            MdTag::List(start) => MdTagV::List(*start),
            MdTag::Item => MdTagV::Item,
            MdTag::Emphasis => MdTagV::Emphasis,
            MdTag::Strong => MdTagV::Strong,
            MdTag::Strikethrough => MdTagV::Strikethrough,
            MdTag::Link => MdTagV::Link,
            MdTag::Other => MdTagV::Other,
        }
    }
}

/// A block or inline close tag.
#[derive(Clone, Copy, Debug, PartialEq, Eq)]
pub enum MdTagEnd {
    Heading,
    BlockQuote,
    CodeBlock,
    Table,
    TableHead,
    TableRow,
    TableCell,
    List,
    Item,
    Paragraph,
    Emphasis,
    Strong,
    Strikethrough,
    Link,
    Other,
}

/// The mathematical value of one parse event.
#[verifier::ext_equal]
pub enum MdEventV {
    Start(MdTagV),
    End(MdTagEnd),
    /// A literal text run.
    Text(Seq<char>),
    /// An inline code run.
    Code(Seq<char>),
    /// A raw HTML run, inline or block-level.
    Html(Seq<char>),
    SoftBreak,
    HardBreak,
    /// A thematic break.
    Rule,
    /// Any leaf event the renderer does not react to.
    Other,
}

/// One parse event from the upstream tokenizer.
#[derive(Clone, Debug, PartialEq, Eq)]
pub enum MdEvent {
    Start(MdTag),
    End(MdTagEnd),
    Text(Vec<char>),
    Code(Vec<char>),
    Html(Vec<char>),
    SoftBreak,
    HardBreak,
    Rule,
    Other,
}

impl View for MdEvent {
    type V = MdEventV;

    open spec fn view(&self) -> MdEventV {
        match self {
            MdEvent::Start(tag) => MdEventV::Start(tag@),
            MdEvent::End(tag) => MdEventV::End(*tag),
            MdEvent::Text(text) => MdEventV::Text(text@),
            MdEvent::Code(text) => MdEventV::Code(text@),
            MdEvent::Html(text) => MdEventV::Html(text@),
            MdEvent::SoftBreak => MdEventV::SoftBreak,
            MdEvent::HardBreak => MdEventV::HardBreak,
            MdEvent::Rule => MdEventV::Rule,
            MdEvent::Other => MdEventV::Other,
        }
    }
}

/// The mathematical value of a whole event stream.
pub open spec fn events_view(events: Seq<MdEvent>) -> Seq<MdEventV> {
    events.map_values(|e: MdEvent| e@)
}

/// Does this event open a style-context scope?
pub open spec fn style_open(e: MdEventV) -> bool {
    match e {
        MdEventV::Start(t) => match t {
            MdTagV::Heading(_) => true,
            MdTagV::BlockQuote => true,
            MdTagV::CodeBlock(_) => true,
            MdTagV::Emphasis => true,
            MdTagV::Strong => true,
            MdTagV::Strikethrough => true,
            MdTagV::Link => true,
            _ => false,
        },
        _ => false,
    }
}

/// Does this event close a style-context scope?
pub open spec fn style_close(e: MdEventV) -> bool {
    match e {
        MdEventV::End(t) => match t {
            MdTagEnd::Heading => true,
            MdTagEnd::BlockQuote => true,
            MdTagEnd::CodeBlock => true,
            MdTagEnd::Emphasis => true,
            MdTagEnd::Strong => true,
            MdTagEnd::Strikethrough => true,
            MdTagEnd::Link => true,
            _ => false,
        },
        _ => false,
    }
}

pub open spec fn list_open(e: MdEventV) -> bool {
    e matches MdEventV::Start(MdTagV::List(_))
}

pub open spec fn list_close(e: MdEventV) -> bool {
    e matches MdEventV::End(MdTagEnd::List)
}

pub open spec fn table_open(e: MdEventV) -> bool {
    e matches MdEventV::Start(MdTagV::Table(_))
}

pub open spec fn table_close(e: MdEventV) -> bool {
    e matches MdEventV::End(MdTagEnd::Table)
}

pub open spec fn head_open(e: MdEventV) -> bool {
    e matches MdEventV::Start(MdTagV::TableHead)
}

pub open spec fn head_close(e: MdEventV) -> bool {
    e matches MdEventV::End(MdTagEnd::TableHead)
}

pub open spec fn code_open(e: MdEventV) -> bool {
    e matches MdEventV::Start(MdTagV::CodeBlock(_))
}

pub open spec fn code_close(e: MdEventV) -> bool {
    e matches MdEventV::End(MdTagEnd::CodeBlock)
}

/// How many events of the stream satisfy `p`.
pub open spec fn count_if(es: Seq<MdEventV>, p: spec_fn(MdEventV) -> bool) -> int
    decreases es.len(),
{
    if es.len() == 0 {
        0
    } else {
        (if p(es[0]) {
            1int
        } else {
            0
        }) + count_if(es.drop_first(), p)
    }
}

/// In every prefix, closes of the class never outnumber opens: a close
/// always answers an open that came before it.
pub open spec fn prefix_bounded(
    es: Seq<MdEventV>,
    po: spec_fn(MdEventV) -> bool,
    pc: spec_fn(MdEventV) -> bool,
) -> bool {
    forall|i: int|
        0 <= i <= es.len() ==> count_if(es.take(i), pc) <= count_if(es.take(i), po)
}

/// Opens and closes of one scope class pair up: equally many of each over
/// the whole stream, and no close before its open.
pub open spec fn class_balanced(
    es: Seq<MdEventV>,
    po: spec_fn(MdEventV) -> bool,
    pc: spec_fn(MdEventV) -> bool,
) -> bool {
    &&& prefix_bounded(es, po, pc)
    &&& count_if(es, pc) == count_if(es, po)
}

pub open spec fn style_open_p() -> spec_fn(MdEventV) -> bool {
    |e: MdEventV| style_open(e)
}

pub open spec fn style_close_p() -> spec_fn(MdEventV) -> bool {
    |e: MdEventV| style_close(e)
}

pub open spec fn list_open_p() -> spec_fn(MdEventV) -> bool {
    |e: MdEventV| list_open(e)
}

pub open spec fn list_close_p() -> spec_fn(MdEventV) -> bool {
    |e: MdEventV| list_close(e)
}

pub open spec fn table_open_p() -> spec_fn(MdEventV) -> bool {
    |e: MdEventV| table_open(e)
}

pub open spec fn table_close_p() -> spec_fn(MdEventV) -> bool {
    |e: MdEventV| table_close(e)
}

pub open spec fn head_open_p() -> spec_fn(MdEventV) -> bool {
    |e: MdEventV| head_open(e)
}

pub open spec fn head_close_p() -> spec_fn(MdEventV) -> bool {
    |e: MdEventV| head_close(e)
}

pub open spec fn code_open_p() -> spec_fn(MdEventV) -> bool {
    |e: MdEventV| code_open(e)
}

pub open spec fn code_close_p() -> spec_fn(MdEventV) -> bool {
    |e: MdEventV| code_close(e)
}

/// A well-formed event stream: every scope class the renderer keeps a
/// context for has properly paired opens and closes.
pub open spec fn stream_balanced(es: Seq<MdEventV>) -> bool {
    &&& class_balanced(es, style_open_p(), style_close_p())
    &&& class_balanced(es, list_open_p(), list_close_p())
    &&& class_balanced(es, table_open_p(), table_close_p())
    &&& class_balanced(es, head_open_p(), head_close_p())
    &&& class_balanced(es, code_open_p(), code_close_p())
}

} // verus!
