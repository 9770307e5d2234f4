//! The Markdown-to-styled-document transducer: a single forward pass
//! over the event stream, specified event by event and proved against
//! that specification.

use vstd::prelude::*;

use crate::doc::{Document, Line, Span, SpanV};
use crate::event::{events_view, MdAlign, MdEvent, MdEventV, MdTag, MdTagEnd, MdTagV};
use crate::state::{
    base_style, cur_style, flushed, init_state, popped_style, with_blank, with_line, with_span,
    with_style, RenderState,
};
use crate::style::{StyleAttr, Theme};
use crate::table::{
    bottom_border, comment_span, copy_aligns, sep_border, table_border, top_border,
};
use crate::text::{
    chars1, chars2, chars3, chars4, chars5, clone_chars, dec_of, dec_spec, extend_chars, lines_of,
    repeat_char, split_chars, split_lines, split_on,
};

verus! {

/// The style a heading of the given level establishes: bold, in the
/// level's color; levels past the second share one dimmed color.
pub open spec fn heading_style(th: Theme, level: u8) -> StyleAttr {
    if level <= 1 {
        StyleAttr { bold: true, ..StyleAttr::fg_spec(th.heading1) }
    } else if level == 2 {
        StyleAttr { bold: true, ..StyleAttr::fg_spec(th.heading2) }
    } else {
        StyleAttr { bold: true, dim: true, ..StyleAttr::fg_spec(th.heading_rest) }
    }
}

/// The restored break marker: a literal `<br>` in the accent color,
/// visibly distinct from surrounding text.
pub open spec fn marker_span(th: Theme) -> SpanV {
    SpanV { text: seq!['<', 'b', 'r', '>'], style: StyleAttr::fg_spec(th.link) }
}

/// The next ordinal after `n`, stopping at the largest representable.
pub open spec fn sat_inc(n: u64) -> u64 {
    if n == u64::MAX {
        n
    } else {
        (n + 1) as u64
    }
}

/// An item's marker text: `"<n>. "` for an ordered list, a bullet glyph
/// for an unordered one or for an item outside any list.
pub open spec fn item_marker(entry: Option<Option<u64>>) -> Seq<char> {
    match entry {
        Some(Some(n)) => dec_spec(n as nat) + seq!['.', ' '],
        Some(None) => seq!['•', ' '],
        None => seq!['•', ' '],
    }
}

/// Indentation of an item: two spaces per nesting level beyond the first.
pub open spec fn item_indent(depth: int) -> Seq<char> {
    Seq::new(if depth > 0 { (2 * (depth - 1)) as nat } else { 0 }, |i: int| ' ')
}

/// Builds an item's indentation for the given nesting depth.
fn indent_of(depth: usize) -> (v: Vec<char>)
    ensures
        v@ == item_indent(depth as int),
{
    let mut v: Vec<char> = Vec::new();
    if depth == 0 {
        proof {
            assert(v@ =~= item_indent(0));
        }
        return v;
    }
    let mut k: usize = 0;
    while k < depth - 1
        invariant
            depth >= 1,
            k <= depth - 1,
            v@.len() == 2 * k,
            forall|j: int| 0 <= j < v@.len() ==> v@[j] == ' ',
        decreases depth - 1 - k,
    {
        v.push(' ');
        v.push(' ');
        k += 1;
    }
    proof {
        assert(v@ =~= item_indent(depth as int));
    }
    v
}

/// An item open: flush, indent by nesting depth, then the marker in the
/// muted color; an ordered list's counter advances by one.
pub open spec fn step_item(s: RenderState, th: Theme) -> RenderState {
    let s1 = flushed(s);
    let s2 = with_span(
        s1,
        SpanV { text: item_indent(s1.lists.len() as int), style: StyleAttr::plain_spec() },
    );
    let entry = if s1.lists.len() > 0 {
        Some(s1.lists.last())
    } else {
        None
    };
    let s3 = with_span(
        s2,
        SpanV { text: item_marker(entry), style: StyleAttr::fg_spec(th.comment) },
    );
    match entry {
        Some(Some(n)) => RenderState {
            lists: s3.lists.update(s3.lists.len() - 1, Some(sat_inc(n))),
            ..s3
        },
        _ => s3,
    }
}

/// The fence header: a corner glyph and the language label.
pub open spec fn code_header(lang: Seq<char>, th: Theme) -> Seq<SpanV> {
    seq![
        comment_span(seq!['┌', '─', '─', '─', ' '], th),
        SpanV { text: lang, style: StyleAttr::fg_spec(th.code_accent) },
    ]
}

/// The fence footer glyph run.
pub open spec fn code_footer(th: Theme) -> Seq<SpanV> {
    seq![comment_span(seq!['└'] + Seq::new(18, |i: int| '─'), th)]
}

/// A block or inline open tag.
pub open spec fn step_start(s: RenderState, t: MdTagV, th: Theme) -> RenderState {
    match t {
        MdTagV::Heading(level) => with_style(with_blank(flushed(s)), heading_style(th, level)),
        MdTagV::BlockQuote => {
            let s1 = with_span(
                flushed(s),
                SpanV { text: seq!['▎'], style: StyleAttr::fg_spec(th.quote_border) },
            );
            let s2 = with_span(s1, SpanV { text: seq![' '], style: StyleAttr::plain_spec() });
            with_style(s2, StyleAttr::fg_spec(th.quote_fg))
        },
        MdTagV::CodeBlock(lang) => {
            let s1 = RenderState { in_code: true, ..with_blank(flushed(s)) };
            let s2 = with_line(s1, code_header(lang, th));
            with_style(s2, StyleAttr { bg: Some(th.code_bg), ..StyleAttr::plain_spec() })
        },
        MdTagV::Table(aligns) => {
            let s1 = RenderState { aligns, ..flushed(s) };
            with_line(s1, top_border(aligns, th))
        },
        MdTagV::TableHead => RenderState { in_header: true, ..s },
        MdTagV::TableRow => with_span(s, comment_span(seq!['│', ' '], th)),
        MdTagV::TableCell => s,
        MdTagV::List(start) => {
            let s1 = flushed(s);
            RenderState { lists: s1.lists.push(start), ..s1 }
        },
        MdTagV::Item => step_item(s, th),
        MdTagV::Emphasis => with_style(s, StyleAttr { italic: true, ..cur_style(s, th) }),
        MdTagV::Strong => with_style(s, StyleAttr { bold: true, ..cur_style(s, th) }),
        MdTagV::Strikethrough => with_style(
            s,
            StyleAttr { strikethrough: true, ..cur_style(s, th) },
        ),
        MdTagV::Link => with_style(
            s,
            StyleAttr { underline: true, ..StyleAttr::fg_spec(th.link) },
        ),
        MdTagV::Other => s,
    }
}

/// A block or inline close tag.
pub open spec fn step_end(s: RenderState, t: MdTagEnd, th: Theme) -> RenderState {
    match t {
        MdTagEnd::Heading => popped_style(flushed(s)),
        MdTagEnd::BlockQuote => popped_style(flushed(s)),
        MdTagEnd::Item => flushed(s),
        MdTagEnd::CodeBlock => {
            let s1 = RenderState { in_code: false, ..s };
            popped_style(with_blank(with_line(s1, code_footer(th))))
        },
        MdTagEnd::Table => {
            let s1 = with_line(s, bottom_border(s.aligns, th));
            with_blank(RenderState { aligns: Seq::empty(), ..s1 })
        },
        MdTagEnd::TableHead => {
            let s1 = RenderState { in_header: false, ..flushed(s) };
            with_line(s1, sep_border(s.aligns, th))
        },
        MdTagEnd::TableRow => flushed(s),
        MdTagEnd::TableCell => with_span(s, comment_span(seq![' ', '│', ' '], th)),
        MdTagEnd::List => {
            let s1 = RenderState {
                lists: if s.lists.len() > 0 {
                    s.lists.drop_last()
                } else {
                    s.lists
                },
                ..s
            };
            with_blank(s1)
        },
        MdTagEnd::Paragraph => with_blank(flushed(s)),
        MdTagEnd::Emphasis => popped_style(s),
        MdTagEnd::Strong => popped_style(s),
        MdTagEnd::Strikethrough => popped_style(s),
        MdTagEnd::Link => popped_style(s),
        MdTagEnd::Other => s,
    }
}

/// Literal text split at the break-marker placeholder: the parts become
/// ordinary styled spans (empty parts add nothing) and a visibly styled
/// `<br>` marker span stands between consecutive parts, one marker per
/// occurrence of the placeholder.
pub open spec fn append_parts(
    s: RenderState,
    parts: Seq<Seq<char>>,
    style: StyleAttr,
    th: Theme,
) -> RenderState
    decreases parts.len(),
{
    if parts.len() == 0 {
        s
    } else {
        let s1 = if parts[0].len() > 0 {
            with_span(s, SpanV { text: parts[0], style })
        } else {
            s
        };
        if parts.len() == 1 {
            s1
        } else {
            append_parts(with_span(s1, marker_span(th)), parts.drop_first(), style, th)
        }
    }
}

/// Code-block text, one complete output line per source line: a border
/// glyph, then the line's characters exactly as they came.
pub open spec fn append_code_lines(
    s: RenderState,
    lines: Seq<Seq<char>>,
    style: StyleAttr,
    th: Theme,
) -> RenderState
    decreases lines.len(),
{
    if lines.len() == 0 {
        s
    } else {
        let s1 = with_line(
            s,
            seq![comment_span(seq!['│', ' '], th), SpanV { text: lines[0], style }],
        );
        append_code_lines(s1, lines.drop_first(), style, th)
    }
}

/// Appending text parts only grows the pending line: every other part of
/// the state — the contexts, the flags, the finished lines — is untouched.
pub proof fn lemma_append_parts_frame(
    s: RenderState,
    parts: Seq<Seq<char>>,
    style: StyleAttr,
    th: Theme,
)
    ensures
        ({
            let r = append_parts(s, parts, style, th);
            &&& r.lines == s.lines
            &&& r.styles == s.styles
            &&& r.lists == s.lists
            &&& r.aligns == s.aligns
            &&& r.in_header == s.in_header
            &&& r.in_code == s.in_code
        }),
    decreases parts.len(),
{
    if parts.len() == 0 {
    } else if parts.len() == 1 {
    } else {
        let s1 = if parts[0].len() > 0 {
            with_span(s, SpanV { text: parts[0], style })
        } else {
            s
        };
        lemma_append_parts_frame(
            with_span(s1, marker_span(th)),
            parts.drop_first(),
            style,
            th,
        );
    }
}

/// Echoing code lines only grows the finished lines: every other part of
/// the state is untouched.
pub proof fn lemma_append_code_lines_frame(
    s: RenderState,
    lines: Seq<Seq<char>>,
    style: StyleAttr,
    th: Theme,
)
    ensures
        ({
            let r = append_code_lines(s, lines, style, th);
            &&& r.cur == s.cur
            &&& r.styles == s.styles
            &&& r.lists == s.lists
            &&& r.aligns == s.aligns
            &&& r.in_header == s.in_header
            &&& r.in_code == s.in_code
        }),
    decreases lines.len(),
{
    if lines.len() == 0 {
    } else {
        let s1 = with_line(
            s,
            seq![comment_span(seq!['│', ' '], th), SpanV { text: lines[0], style }],
        );
        lemma_append_code_lines_frame(s1, lines.drop_first(), style, th);
    }
}

/// The spans a text event contributes outside code blocks: its
/// placeholder-separated parts in the text style (empty parts adding
/// nothing), with one break-marker span between consecutive parts — one
/// marker per placeholder occurrence.
pub open spec fn parts_spans(parts: Seq<Seq<char>>, style: StyleAttr, th: Theme) -> Seq<SpanV>
    decreases parts.len(),
{
    if parts.len() == 0 {
        Seq::empty()
    } else {
        let head: Seq<SpanV> = if parts[0].len() > 0 {
            seq![SpanV { text: parts[0], style }]
        } else {
            Seq::empty()
        };
        if parts.len() == 1 {
            head
        } else {
            head + seq![marker_span(th)] + parts_spans(parts.drop_first(), style, th)
        }
    }
}

/// Appending text parts puts exactly `parts_spans` onto the pending line.
pub proof fn lemma_append_parts_shape(
    s: RenderState,
    parts: Seq<Seq<char>>,
    style: StyleAttr,
    th: Theme,
)
    ensures
        append_parts(s, parts, style, th).cur == s.cur + parts_spans(parts, style, th),
    decreases parts.len(),
{
    if parts.len() == 0 {
        assert(s.cur + parts_spans(parts, style, th) =~= s.cur);
    } else {
        let s1 = if parts[0].len() > 0 {
            with_span(s, SpanV { text: parts[0], style })
        } else {
            s
        };
        if parts.len() == 1 {
            assert(append_parts(s, parts, style, th).cur =~= s.cur + parts_spans(
                parts,
                style,
                th,
            ));
        } else {
            let s2 = with_span(s1, marker_span(th));
            lemma_append_parts_shape(s2, parts.drop_first(), style, th);
            assert(append_parts(s, parts, style, th).cur =~= s.cur + parts_spans(
                parts,
                style,
                th,
            ));
        }
    }
}

/// Echoing code lines appends exactly one output line per source line: a
/// border glyph span, then the source line's characters unchanged, in the
/// fixed style the caller gave.
pub proof fn lemma_append_code_lines_shape(
    s: RenderState,
    lines: Seq<Seq<char>>,
    style: StyleAttr,
    th: Theme,
)
    ensures
        append_code_lines(s, lines, style, th).lines == s.lines + lines.map_values(
            |l: Seq<char>| seq![comment_span(seq!['│', ' '], th), SpanV { text: l, style }],
        ),
    decreases lines.len(),
{
    let f = |l: Seq<char>| seq![comment_span(seq!['│', ' '], th), SpanV { text: l, style }];
    if lines.len() == 0 {
        assert(s.lines + lines.map_values(f) =~= s.lines);
    } else {
        let s1 = with_line(s, f(lines[0]));
        lemma_append_code_lines_shape(s1, lines.drop_first(), style, th);
        assert(lines.drop_first().map_values(f) =~= lines.map_values(f).drop_first());
        assert(append_code_lines(s, lines, style, th).lines =~= s.lines + lines.map_values(f));
    }
}

/// The style code-block text is echoed in: the active (background) style
/// with the document foreground.
pub open spec fn code_text_style(s: RenderState, th: Theme) -> StyleAttr {
    StyleAttr { fg: Some(th.fg), ..cur_style(s, th) }
}

/// The style of ordinary literal text: the active style, plus bold while
/// inside a table header row.
pub open spec fn text_style(s: RenderState, th: Theme) -> StyleAttr {
    if s.in_header {
        StyleAttr { bold: true, ..cur_style(s, th) }
    } else {
        cur_style(s, th)
    }
}

/// A literal text event.
pub open spec fn step_text(s: RenderState, t: Seq<char>, th: Theme, ph: Seq<char>) -> RenderState {
    if s.in_code {
        append_code_lines(s, split_lines(t), code_text_style(s, th), th)
    } else {
        append_parts(s, split_on(t, ph), text_style(s, th), th)
    }
}

/// A thematic break: a full-width rule in the muted rule color.
pub open spec fn rule_line(th: Theme) -> Seq<SpanV> {
    seq![SpanV { text: Seq::new(80, |i: int| '─'), style: StyleAttr::fg_spec(th.hr) }]
}

/// One event's effect on the state.
pub open spec fn step(s: RenderState, e: MdEventV, th: Theme, ph: Seq<char>) -> RenderState {
    match e {
        MdEventV::Start(t) => step_start(s, t, th),
        MdEventV::End(t) => step_end(s, t, th),
        MdEventV::Text(t) => step_text(s, t, th, ph),
        MdEventV::Code(t) => with_span(
            s,
            SpanV {
                text: seq![' '] + t + seq![' '],
                style: StyleAttr {
                    fg: Some(th.fg),
                    bg: Some(th.inline_code_bg),
                    ..StyleAttr::plain_spec()
                },
            },
        ),
        MdEventV::Html(t) => with_span(s, SpanV { text: t, style: StyleAttr::fg_spec(th.comment) }),
        MdEventV::SoftBreak => with_span(
            s,
            SpanV { text: seq![' '], style: StyleAttr::plain_spec() },
        ),
        MdEventV::HardBreak => flushed(s),
        MdEventV::Rule => with_blank(with_line(flushed(s), rule_line(th))),
        MdEventV::Other => s,
    }
}

/// The whole stream's effect, first event first.
pub open spec fn run(es: Seq<MdEventV>, s: RenderState, th: Theme, ph: Seq<char>) -> RenderState
    decreases es.len(),
{
    if es.len() == 0 {
        s
    } else {
        run(es.drop_first(), step(s, es[0], th, ph), th, ph)
    }
}

/// Running one more event steps the state the run reached.
pub proof fn lemma_run_snoc(
    es: Seq<MdEventV>,
    e: MdEventV,
    s: RenderState,
    th: Theme,
    ph: Seq<char>,
)
    ensures
        run(es.push(e), s, th, ph) == step(run(es, s, th, ph), e, th, ph),
    decreases es.len(),
{
    if es.len() == 0 {
        assert(es.push(e).drop_first() =~= Seq::<MdEventV>::empty());
        assert(es.push(e)[0] == e);
        assert(run(es.push(e), s, th, ph) == run(
            Seq::<MdEventV>::empty(),
            step(s, e, th, ph),
            th,
            ph,
        ));
        assert(run(es, s, th, ph) == s);
    } else {
        assert(es.push(e).drop_first() =~= es.drop_first().push(e));
        assert(es.push(e)[0] == es[0]);
        assert(run(es.push(e), s, th, ph) == run(
            es.drop_first().push(e),
            step(s, es[0], th, ph),
            th,
            ph,
        ));
        lemma_run_snoc(es.drop_first(), e, step(s, es[0], th, ph), th, ph);
        assert(run(es, s, th, ph) == run(es.drop_first(), step(s, es[0], th, ph), th, ph));
    }
}

/// What rendering a stream produces: the lines the run reached, with any
/// pending line flushed at the end.
pub open spec fn render_spec(es: Seq<MdEventV>, ph: Seq<char>, th: Theme) -> Seq<Seq<SpanV>> {
    flushed(run(es, init_state(th), th, ph)).lines
}

/// The renderer's working storage, mirroring `RenderState` field by field.
pub struct Renderer {
    pub lines: Vec<Line>,
    pub cur: Vec<Span>,
    pub styles: Vec<StyleAttr>,
    pub lists: Vec<Option<u64>>,
    pub aligns: Vec<MdAlign>,
    pub in_header: bool,
    pub in_code: bool,
}

impl View for Renderer {
    type V = RenderState;

    open spec fn view(&self) -> RenderState {
        RenderState {
            lines: self.lines@.map_values(|l: Line| l@),
            cur: self.cur@.map_values(|sp: Span| sp@),
            styles: self.styles@,
            lists: self.lists@,
            aligns: self.aligns@,
            in_header: self.in_header,
            in_code: self.in_code,
        }
    }
}

impl Renderer {
    pub fn new(theme: &Theme) -> (r: Renderer)
        ensures
            r@ == init_state(*theme),
    {
        let mut styles: Vec<StyleAttr> = Vec::new();
        styles.push(StyleAttr::with_fg(theme.fg));
        let r = Renderer {
            lines: Vec::new(),
            cur: Vec::new(),
            styles,
            lists: Vec::new(),
            aligns: Vec::new(),
            in_header: false,
            in_code: false,
        };
        proof {
            assert(r@ =~~= init_state(*theme));
        }
        r
    }

    fn flush(&mut self)
        ensures
            final(self)@ == flushed(old(self)@),
    {
        if self.cur.len() > 0 {
            let mut spans: Vec<Span> = Vec::new();
            core::mem::swap(&mut spans, &mut self.cur);
            self.lines.push(Line::from_spans(spans));
            proof {
                assert(self@ =~~= flushed(old(self)@));
            }
        }
    }

    fn add_blank(&mut self)
        ensures
            final(self)@ == with_blank(old(self)@),
    {
        self.lines.push(Line::blank());
        proof {
            assert(self@ =~~= with_blank(old(self)@));
        }
    }

    fn add_line(&mut self, l: Line)
        ensures
            final(self)@ == with_line(old(self)@, l@),
    {
        self.lines.push(l);
        proof {
            assert(self@ =~~= with_line(old(self)@, l@));
        }
    }

    fn add_span(&mut self, sp: Span)
        ensures
            final(self)@ == with_span(old(self)@, sp@),
    {
        self.cur.push(sp);
        proof {
            assert(self@ =~~= with_span(old(self)@, sp@));
        }
    }

    fn push_style(&mut self, st: StyleAttr)
        ensures
            final(self)@ == with_style(old(self)@, st),
    {
        self.styles.push(st);
        proof {
            assert(self@ =~~= with_style(old(self)@, st));
        }
    }

    fn pop_style(&mut self)
        ensures
            final(self)@ == popped_style(old(self)@),
    {
        if self.styles.len() > 1 {
            self.styles.pop();
            proof {
                assert(self@.styles =~= old(self)@.styles.drop_last());
                assert(self@ =~~= popped_style(old(self)@));
            }
        }
    }

    fn current_style(&self, theme: &Theme) -> (st: StyleAttr)
        ensures
            st == cur_style(self@, *theme),
    {
        if self.styles.len() > 0 {
            self.styles[self.styles.len() - 1]
        } else {
            StyleAttr::with_fg(theme.fg)
        }
    }

    fn on_item(&mut self, theme: &Theme)
        ensures
            final(self)@ == step_item(old(self)@, *theme),
    {
        self.flush();
        let depth = self.lists.len();
        self.add_span(Span::new(indent_of(depth), StyleAttr::plain()));
        let comment = StyleAttr::with_fg(theme.comment);
        if depth > 0 {
            let entry = self.lists[depth - 1];
            match entry {
                Some(n) => {
                    let mut m = dec_of(n);
                    extend_chars(&mut m, &chars2('.', ' '));
                    proof {
                        assert(m@ =~= dec_spec(n as nat) + seq!['.', ' ']);
                    }
                    self.add_span(Span::new(m, comment));
                    let next = if n == u64::MAX {
                        n
                    } else {
                        n + 1
                    };
                    self.lists.set(depth - 1, Some(next));
                    proof {
                        assert(self@ =~~= step_item(old(self)@, *theme));
                    }
                },
                None => {
                    self.add_span(Span::new(chars2('•', ' '), comment));
                },
            }
        } else {
            self.add_span(Span::new(chars2('•', ' '), comment));
        }
    }

    fn on_start(&mut self, tag: &MdTag, theme: &Theme)
        ensures
            final(self)@ == step_start(old(self)@, tag@, *theme),
    {
        match tag {
            MdTag::Heading(level) => {
                self.flush();
                self.add_blank();
                let st = if *level <= 1 {
                    StyleAttr { bold: true, ..StyleAttr::with_fg(theme.heading1) }
                } else if *level == 2 {
                    StyleAttr { bold: true, ..StyleAttr::with_fg(theme.heading2) }
                } else {
                    StyleAttr { bold: true, dim: true, ..StyleAttr::with_fg(theme.heading_rest) }
                };
                self.push_style(st);
            },
            MdTag::BlockQuote => {
                self.flush();
                self.add_span(Span::new(chars1('▎'), StyleAttr::with_fg(theme.quote_border)));
                self.add_span(Span::new(chars1(' '), StyleAttr::plain()));
                self.push_style(StyleAttr::with_fg(theme.quote_fg));
            },
            MdTag::CodeBlock(lang) => {
                self.flush();
                self.add_blank();
                self.in_code = true;
                let mut spans: Vec<Span> = Vec::new();
                spans.push(
                    Span::new(chars5('┌', '─', '─', '─', ' '), StyleAttr::with_fg(theme.comment)),
                );
                spans.push(Span::new(clone_chars(lang), StyleAttr::with_fg(theme.code_accent)));
                let l = Line::from_spans(spans);
                proof {
                    assert(l@ =~~= code_header(lang@, *theme));
                }
                self.add_line(l);
                self.push_style(StyleAttr { bg: Some(theme.code_bg), ..StyleAttr::plain() });
            },
            MdTag::Table(aligns) => {
                self.flush();
                self.aligns = copy_aligns(aligns);
                let l = table_border(&self.aligns, false, '┌', '┬', '┐', theme);
                self.add_line(l);
            },
            MdTag::TableHead => {
                self.in_header = true;
            },
            MdTag::TableRow => {
                self.add_span(Span::new(chars2('│', ' '), StyleAttr::with_fg(theme.comment)));
            },
            MdTag::TableCell => {},
            MdTag::List(start) => {
                self.flush();
                self.lists.push(*start);
            },
            MdTag::Item => {
                self.on_item(theme);
            },
            MdTag::Emphasis => {
                let st = self.current_style(theme);
                self.push_style(StyleAttr { italic: true, ..st });
            },
            MdTag::Strong => {
                let st = self.current_style(theme);
                self.push_style(StyleAttr { bold: true, ..st });
            },
            MdTag::Strikethrough => {
                let st = self.current_style(theme);
                self.push_style(StyleAttr { strikethrough: true, ..st });
            },
            MdTag::Link => {
                self.push_style(StyleAttr { underline: true, ..StyleAttr::with_fg(theme.link) });
            },
            MdTag::Other => {},
        }
    }

    fn on_end(&mut self, tag: &MdTagEnd, theme: &Theme)
        ensures
            final(self)@ == step_end(old(self)@, *tag, *theme),
    {
        match tag {
            MdTagEnd::Heading => {
                self.flush();
                self.pop_style();
            },
            MdTagEnd::BlockQuote => {
                self.flush();
                self.pop_style();
            },
            MdTagEnd::Item => {
                self.flush();
            },
            MdTagEnd::CodeBlock => {
                self.in_code = false;
                let mut f = chars1('└');
                extend_chars(&mut f, &repeat_char('─', 18));
                proof {
                    assert(f@ =~= seq!['└'] + Seq::new(18, |i: int| '─'));
                }
                let mut spans: Vec<Span> = Vec::new();
                spans.push(Span::new(f, StyleAttr::with_fg(theme.comment)));
                let l = Line::from_spans(spans);
                proof {
                    assert(l@ =~~= code_footer(*theme));
                }
                self.add_line(l);
                self.add_blank();
                self.pop_style();
            },
            MdTagEnd::Table => {
                let l = table_border(&self.aligns, false, '└', '┴', '┘', theme);
                self.add_line(l);
                self.aligns = Vec::new();
                self.add_blank();
                proof {
                    assert(self@ =~~= step_end(old(self)@, *tag, *theme));
                }
            },
            MdTagEnd::TableHead => {
                self.flush();
                self.in_header = false;
                let l = table_border(&self.aligns, true, '├', '┼', '┤', theme);
                self.add_line(l);
            },
            MdTagEnd::TableRow => {
                self.flush();
            },
            MdTagEnd::TableCell => {
                self.add_span(Span::new(chars3(' ', '│', ' '), StyleAttr::with_fg(theme.comment)));
            },
            MdTagEnd::List => {
                if self.lists.len() > 0 {
                    self.lists.pop();
                }
                self.add_blank();
            },
            MdTagEnd::Paragraph => {
                self.flush();
                self.add_blank();
            },
            MdTagEnd::Emphasis => {
                self.pop_style();
            },
            MdTagEnd::Strong => {
                self.pop_style();
            },
            MdTagEnd::Strikethrough => {
                self.pop_style();
            },
            MdTagEnd::Link => {
                self.pop_style();
            },
            MdTagEnd::Other => {},
        }
    }

    fn on_text(&mut self, t: &Vec<char>, theme: &Theme, ph: &Vec<char>)
        ensures
            final(self)@ == step_text(old(self)@, t@, *theme, ph@),
    {
        if self.in_code {
            let cur = self.current_style(theme);
            let style = StyleAttr { fg: Some(theme.fg), ..cur };
            let comment = StyleAttr::with_fg(theme.comment);
            let parts = lines_of(t);
            let ghost whole = split_lines(t@);
            let ghost s0 = self@;
            let mut k: usize = 0;
            proof {
                assert(whole.skip(0) =~= whole);
            }
            while k < parts.len()
                invariant
                    k <= parts@.len(),
                    parts.deep_view() == whole,
                    style == code_text_style(s0, *theme),
                    comment == StyleAttr::fg_spec(theme.comment),
                    append_code_lines(s0, whole, style, *theme) == append_code_lines(
                        self@,
                        whole.skip(k as int),
                        style,
                        *theme,
                    ),
                decreases parts@.len() - k,
            {
                let mut spans: Vec<Span> = Vec::new();
                spans.push(Span::new(chars2('│', ' '), comment));
                spans.push(Span::new(clone_chars(&parts[k]), style));
                let l = Line::from_spans(spans);
                proof {
                    assert(l@ =~~= seq![
                        comment_span(seq!['│', ' '], *theme),
                        SpanV { text: whole[k as int], style },
                    ]);
                    assert(whole.skip(k as int).drop_first() =~= whole.skip(k + 1));
                    assert(whole.skip(k as int)[0] == whole[k as int]);
                }
                self.add_line(l);
                k += 1;
            }
            proof {
                assert(whole.skip(parts@.len() as int) =~= Seq::<Seq<char>>::empty());
            }
        } else {
            let cur = self.current_style(theme);
            let style = if self.in_header {
                StyleAttr { bold: true, ..cur }
            } else {
                cur
            };
            if ph.len() == 0 {
                if t.len() > 0 {
                    self.add_span(Span::new(clone_chars(t), style));
                }
                proof {
                    assert(split_on(t@, ph@) =~= seq![t@]);
                }
            } else {
                let parts = split_chars(t, ph);
                let ghost whole = split_on(t@, ph@);
                let ghost s0 = self@;
                let marker = StyleAttr::with_fg(theme.link);
                let mut k: usize = 0;
                proof {
                    assert(whole.skip(0) =~= whole);
                }
                while k < parts.len()
                    invariant
                        k <= parts@.len(),
                        parts.deep_view() == whole,
                        marker == StyleAttr::fg_spec(theme.link),
                        append_parts(s0, whole, style, *theme) == append_parts(
                            self@,
                            whole.skip(k as int),
                            style,
                            *theme,
                        ),
                    decreases parts@.len() - k,
                {
                    proof {
                        assert(whole.skip(k as int).drop_first() =~= whole.skip(k + 1));
                        assert(whole.skip(k as int)[0] == whole[k as int]);
                        assert(whole[k as int] =~= parts@[k as int]@);
                    }
                    if parts[k].len() > 0 {
                        self.add_span(Span::new(clone_chars(&parts[k]), style));
                    }
                    if k + 1 < parts.len() {
                        self.add_span(Span::new(chars4('<', 'b', 'r', '>'), marker));
                    }
                    k += 1;
                }
                proof {
                    assert(whole.skip(parts@.len() as int) =~= Seq::<Seq<char>>::empty());
                }
            }
        }
    }

    /// Feeds one event through the transducer.
    fn do_event(&mut self, e: &MdEvent, theme: &Theme, ph: &Vec<char>)
        ensures
            final(self)@ == step(old(self)@, e@, *theme, ph@),
    {
        match e {
            MdEvent::Start(tag) => {
                self.on_start(tag, theme);
            },
            MdEvent::End(tag) => {
                self.on_end(tag, theme);
            },
            MdEvent::Text(t) => {
                self.on_text(t, theme, ph);
            },
            MdEvent::Code(t) => {
                let mut v = chars1(' ');
                extend_chars(&mut v, t);
                v.push(' ');
                proof {
                    assert(v@ =~= seq![' '] + t@ + seq![' ']);
                }
                let st = StyleAttr {
                    fg: Some(theme.fg),
                    bg: Some(theme.inline_code_bg),
                    ..StyleAttr::plain()
                };
                self.add_span(Span::new(v, st));
            },
            MdEvent::Html(t) => {
                self.add_span(Span::new(clone_chars(t), StyleAttr::with_fg(theme.comment)));
            },
            MdEvent::SoftBreak => {
                self.add_span(Span::new(chars1(' '), StyleAttr::plain()));
            },
            MdEvent::HardBreak => {
                self.flush();
            },
            MdEvent::Rule => {
                self.flush();
                let mut spans: Vec<Span> = Vec::new();
                spans.push(Span::new(repeat_char('─', 80), StyleAttr::with_fg(theme.hr)));
                let l = Line::from_spans(spans);
                proof {
                    assert(l@ =~~= rule_line(*theme));
                }
                self.add_line(l);
                self.add_blank();
            },
            MdEvent::Other => {},
        }
    }

    fn finish(self) -> (doc: Document)
        ensures
            doc@ == flushed(self@).lines,
    {
        let mut r = self;
        r.flush();
        let doc = Document { lines: r.lines };
        proof {
            assert(doc@ =~~= flushed(self@).lines);
        }
        doc
    }
}

/// Renders a full event stream into a styled document: one forward pass,
/// total for arbitrary event orderings, producing exactly what
/// `render_spec` says for the stream, placeholder and theme.
pub fn render_events(events: &Vec<MdEvent>, placeholder: &Vec<char>, theme: &Theme) -> (doc:
    Document)
    ensures
        doc@ == render_spec(events_view(events@), placeholder@, *theme),
{
    let mut r = Renderer::new(theme);
    let ghost es = events_view(events@);
    let mut i: usize = 0;
    proof {
        assert(es.take(0) =~= Seq::<MdEventV>::empty());
    }
    while i < events.len()
        invariant
            i <= events@.len(),
            es == events_view(events@),
            es.len() == events@.len(),
            r@ == run(es.take(i as int), init_state(*theme), *theme, placeholder@),
        decreases events@.len() - i,
    {
        r.do_event(&events[i], theme, placeholder);
        proof {
            assert(es[i as int] == events@[i as int]@);
            assert(es.take(i + 1) =~= es.take(i as int).push(es[i as int]));
            lemma_run_snoc(
                es.take(i as int),
                es[i as int],
                init_state(*theme),
                *theme,
                placeholder@,
            );
        }
        i += 1;
    }
    proof {
        assert(es.take(events@.len() as int) =~= es);
    }
    r.finish()
}

} // verus!
