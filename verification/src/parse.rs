//! The boundary to the upstream Markdown tokenizer (pulldown-cmark).
//!
//! The tokenizer is an external collaborator, assumed correct: the
//! declarations here say only that parsing is a function of the input
//! text and that the stream it yields is properly nested, which its
//! documentation states (`Event::Start`: "Start and end events are
//! guaranteed to be balanced").  Everything downstream of the stream is
//! verified.

use vstd::prelude::*;

use crate::event::{events_view, stream_balanced, MdAlign, MdEvent, MdEventV, MdTag, MdTagEnd};
use pulldown_cmark::{Alignment, CodeBlockKind, Event, Options, Parser, Tag, TagEnd};

verus! {

#[verifier::external_type_specification]
#[verifier::external_body]
pub struct ExEvent<'a>(Event<'a>);

#[verifier::external_type_specification]
#[verifier::external_body]
pub struct ExTag<'a>(Tag<'a>);

#[verifier::external_type_specification]
#[verifier::external_body]
pub struct ExTagEnd(TagEnd);

#[verifier::external_type_specification]
#[verifier::external_body]
pub struct ExAlignment(Alignment);

/// What the tokenizer makes of a text: the event stream, named here so
/// that contracts can speak of it.  It depends on the characters alone.
pub uninterp spec fn parse_events(s: Seq<char>) -> Seq<MdEventV>;

/// Relies on pulldown_cmark::Alignment: its four variants, mapped one
/// for one.
#[verifier::external_body]
fn align_of(a: Alignment) -> MdAlign {
    match a {
        Alignment::None => MdAlign::Unspecified,
        Alignment::Left => MdAlign::Left,
        Alignment::Center => MdAlign::Center,
        Alignment::Right => MdAlign::Right,
    }
}

/// Relies on pulldown_cmark::Tag: each variant the renderer reacts to is
/// mapped to its counterpart, moving only the fields the renderer reads;
/// every other variant becomes the inert tag.
#[verifier::external_body]
fn tag_of(t: Tag<'_>) -> MdTag {
    match t {
        Tag::Heading { level, .. } => MdTag::Heading(level as u8),
        Tag::BlockQuote => MdTag::BlockQuote,
        Tag::CodeBlock(CodeBlockKind::Fenced(l)) => MdTag::CodeBlock(l.chars().collect()),
        Tag::CodeBlock(CodeBlockKind::Indented) => MdTag::CodeBlock(Vec::new()),
        Tag::Table(a) => MdTag::Table(a.into_iter().map(align_of).collect()),
        Tag::TableHead => MdTag::TableHead, Tag::TableRow => MdTag::TableRow,
        Tag::TableCell => MdTag::TableCell, Tag::List(n) => MdTag::List(n),
        Tag::Item => MdTag::Item, Tag::Emphasis => MdTag::Emphasis,
        Tag::Strong => MdTag::Strong, Tag::Strikethrough => MdTag::Strikethrough,
        Tag::Link { .. } => MdTag::Link,
        _ => MdTag::Other,
    }
}

/// Relies on pulldown_cmark::TagEnd: mapped one for one, the variants the
/// renderer ignores becoming the inert tag.
#[verifier::external_body]
fn tag_end_of(t: TagEnd) -> MdTagEnd {
    match t {
        TagEnd::Paragraph => MdTagEnd::Paragraph, TagEnd::Heading(_) => MdTagEnd::Heading,
        TagEnd::BlockQuote => MdTagEnd::BlockQuote, TagEnd::CodeBlock => MdTagEnd::CodeBlock,
        TagEnd::Table => MdTagEnd::Table, TagEnd::TableHead => MdTagEnd::TableHead,
        TagEnd::TableRow => MdTagEnd::TableRow, TagEnd::TableCell => MdTagEnd::TableCell,
        TagEnd::List(_) => MdTagEnd::List, TagEnd::Item => MdTagEnd::Item,
        TagEnd::Emphasis => MdTagEnd::Emphasis, TagEnd::Strong => MdTagEnd::Strong,
        TagEnd::Strikethrough => MdTagEnd::Strikethrough, TagEnd::Link => MdTagEnd::Link,
        _ => MdTagEnd::Other,
    }
}

/// Relies on pulldown_cmark::Event: each variant mapped to its
/// counterpart, block-level and inline HTML both to the raw-HTML event,
/// the rest (footnote references, task markers) to the inert event.
#[verifier::external_body]
fn event_of(e: Event<'_>) -> MdEvent {
    match e {
        Event::Start(t) => MdEvent::Start(tag_of(t)),
        Event::End(t) => MdEvent::End(tag_end_of(t)),
        Event::Text(s) => MdEvent::Text(s.chars().collect()),
        Event::Code(s) => MdEvent::Code(s.chars().collect()),
        Event::Html(s) => MdEvent::Html(s.chars().collect()),
        Event::InlineHtml(s) => MdEvent::Html(s.chars().collect()),
        Event::SoftBreak => MdEvent::SoftBreak,
        Event::HardBreak => MdEvent::HardBreak,
        Event::Rule => MdEvent::Rule,
        _ => MdEvent::Other,
    }
}

/// Relies on pulldown_cmark::Parser::new_ext with all extensions (tables
/// and strikethrough among them): the event stream is a function of the
/// input text alone, and its start and end events are properly balanced,
/// as the Event documentation guarantees.
#[verifier::external_body]
pub fn parse_markdown(input: &Vec<char>) -> (events: Vec<MdEvent>)
    ensures
        events_view(events@) == parse_events(input@),
        stream_balanced(events_view(events@)),
{
    let text: String = input.iter().collect();
    Parser::new_ext(&text, Options::all()).map(event_of).collect()
}

} // verus!
