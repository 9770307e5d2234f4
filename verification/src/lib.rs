//! A Markdown-to-styled-document renderer for character-grid displays.
//!
//! The crate turns a stream of Markdown parse events into an ordered
//! sequence of styled display lines.  The renderer is a single forward
//! pass that maintains a style-context stack, a list-nesting context and
//! a table context; a placeholder-substitution protocol preserves literal
//! `<br>` markers that the upstream tokenizer would otherwise drop.

pub mod doc;
pub mod event;
pub mod laws;
pub mod parse;
pub mod render;
pub mod state;
pub mod style;
pub mod table;
pub mod text;

use vstd::prelude::*;

use crate::doc::{Document, SpanV};
use crate::parse::{parse_events, parse_markdown};
use crate::render::{render_events, render_spec};
use crate::style::Theme;
use crate::text::{chars4, chars_of, replace_chars, replace_spec};

verus! {

/// The lower-case literal break marker the tokenizer would drop.
pub open spec fn break_lower() -> Seq<char> {
    seq!['<', 'b', 'r', '>']
}

/// The upper-case literal break marker.
pub open spec fn break_upper() -> Seq<char> {
    seq!['<', 'B', 'R', '>']
}

/// The source with every literal break marker, in either of its two
/// case-sensitive forms, replaced by the placeholder.
pub open spec fn subst_spec(s: Seq<char>, ph: Seq<char>) -> Seq<char> {
    replace_spec(replace_spec(s, break_lower(), ph), break_upper(), ph)
}

/// Replaces every literal `<br>` and `<BR>` by the placeholder, so the
/// tokenizer cannot drop them; the renderer later restores a marker at
/// each placeholder occurrence.
pub fn substitute_breaks(source: &Vec<char>, placeholder: &Vec<char>) -> (r: Vec<char>)
    ensures
        r@ == subst_spec(source@, placeholder@),
{
    let lower = chars4('<', 'b', 'r', '>');
    let upper = chars4('<', 'B', 'R', '>');
    let pass1 = replace_chars(source, &lower, placeholder);
    replace_chars(&pass1, &upper, placeholder)
}

/// What the whole pipeline produces from a source text, a placeholder
/// and a theme: substitute break markers, tokenize, render.
pub open spec fn render_pipeline(source: Seq<char>, ph: Seq<char>, th: Theme) -> Seq<Seq<SpanV>> {
    render_spec(parse_events(subst_spec(source, ph)), ph, th)
}

/// Renders Markdown source text into a styled document: a pure function
/// of the source, the placeholder token and the theme.
pub fn render_markdown(source: &str, placeholder: &str, theme: &Theme) -> (doc: Document)
    ensures
        doc@ == render_pipeline(source@, placeholder@, *theme),
{
    let src = chars_of(source);
    let ph = chars_of(placeholder);
    let substituted = substitute_breaks(&src, &ph);
    let events = parse_markdown(&substituted);
    render_events(&events, &ph, theme)
}

} // verus!
