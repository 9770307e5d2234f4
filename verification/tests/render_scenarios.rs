//! End-to-end scenarios: Markdown source through the real tokenizer into
//! styled documents.

use mdrender::doc::{Document, Line, Span};
use mdrender::event::{MdEvent, MdTagEnd};
use mdrender::render::render_events;
use mdrender::render_markdown;
use mdrender::style::{github_dark, Theme};
use mdrender::text::chars_of;

const PH: &str = "\u{E000}BR\u{E000}";

fn text_of(s: &Span) -> String {
    s.text.iter().collect()
}

fn line_texts(l: &Line) -> Vec<String> {
    l.spans.iter().map(text_of).collect()
}

fn doc_texts(d: &Document) -> Vec<Vec<String>> {
    d.lines.iter().map(line_texts).collect()
}

fn render(source: &str) -> (Document, Theme) {
    let theme = github_dark();
    (render_markdown(source, PH, &theme), theme)
}

#[test]
fn heading_and_paragraph() {
    let (doc, theme) = render("# Title\n\nHello **world**.");
    let texts = doc_texts(&doc);
    assert_eq!(
        texts,
        vec![
            vec![],
            vec!["Title".to_string()],
            vec!["Hello ".to_string(), "world".to_string(), ".".to_string()],
            vec![],
        ]
    );
    let title = &doc.lines[1].spans[0];
    assert!(title.style.bold);
    assert_eq!(title.style.fg, Some(theme.heading1));
    let hello = &doc.lines[2].spans[0];
    assert!(!hello.style.bold);
    assert_eq!(hello.style.fg, Some(theme.fg));
    let world = &doc.lines[2].spans[1];
    assert!(world.style.bold);
}

#[test]
fn heading_levels_share_dimmed_color_past_two() {
    let (doc, theme) = render("# A\n## B\n### C");
    let a = &doc.lines[1].spans[0];
    let b = &doc.lines[3].spans[0];
    let c = &doc.lines[5].spans[0];
    assert_eq!(a.style.fg, Some(theme.heading1));
    assert!(!a.style.dim);
    assert_eq!(b.style.fg, Some(theme.heading2));
    assert!(!b.style.dim);
    assert_eq!(c.style.fg, Some(theme.heading_rest));
    assert!(c.style.dim);
}

#[test]
fn table_scenario() {
    let (doc, theme) = render("| A | B |\n|---|---|\n| 1 | 2 |");
    let texts = doc_texts(&doc);
    assert_eq!(
        texts,
        vec![
            vec!["┌", "─────", "┬", "─────", "┐"]
                .into_iter()
                .map(String::from)
                .collect::<Vec<_>>(),
            vec!["A", " │ ", "B", " │ "].into_iter().map(String::from).collect::<Vec<_>>(),
            vec!["├", "─────", "┼", "─────", "┤"]
                .into_iter()
                .map(String::from)
                .collect::<Vec<_>>(),
            vec!["│ ", "1", " │ ", "2", " │ "].into_iter().map(String::from).collect::<Vec<_>>(),
            vec!["└", "─────", "┴", "─────", "┘"]
                .into_iter()
                .map(String::from)
                .collect::<Vec<_>>(),
            vec![],
        ]
    );
    assert!(doc.lines[1].spans[0].style.bold);
    assert!(doc.lines[1].spans[2].style.bold);
    assert!(!doc.lines[3].spans[1].style.bold);
    assert_eq!(doc.lines[0].spans[0].style.fg, Some(theme.comment));
}

#[test]
fn table_separator_encodes_alignments() {
    let (doc, _) = render("| a | b | c |\n|:--|:-:|--:|\n| 1 | 2 | 3 |");
    let sep = line_texts(&doc.lines[2]);
    assert_eq!(sep, vec!["├", ":────", "┼", ":───:", "┼", "────:", "┤"]);
}

#[test]
fn break_marker_in_table_cell() {
    let (doc, theme) = render("| h |\n|---|\n| a<br>b |");
    let row = line_texts(&doc.lines[3]);
    assert_eq!(row, vec!["│ ", "a", "<br>", "b", " │ "]);
    let marker = &doc.lines[3].spans[2];
    assert_eq!(marker.style.fg, Some(theme.link));
    assert_ne!(marker.style.fg, doc.lines[3].spans[1].style.fg);
}

#[test]
fn break_marker_upper_case_form() {
    let (doc, _) = render("| h |\n|---|\n| a<BR>b |");
    let row = line_texts(&doc.lines[3]);
    assert_eq!(row, vec!["│ ", "a", "<br>", "b", " │ "]);
}

#[test]
fn code_block_verbatim() {
    let (doc, theme) = render("```\n**bold**\n```\n");
    let texts = doc_texts(&doc);
    assert_eq!(
        texts,
        vec![
            vec![],
            vec!["┌─── ".to_string(), "".to_string()],
            vec!["│ ".to_string(), "**bold**".to_string()],
            vec!["└──────────────────".to_string()],
            vec![],
        ]
    );
    let content = &doc.lines[2].spans[1];
    assert!(!content.style.bold);
    assert_eq!(content.style.bg, Some(theme.code_bg));
    assert_eq!(content.style.fg, Some(theme.fg));
}

#[test]
fn code_block_language_label() {
    let (doc, theme) = render("```rust\nlet x = 1;\n```\n");
    assert_eq!(text_of(&doc.lines[1].spans[1]), "rust");
    assert_eq!(doc.lines[1].spans[1].style.fg, Some(theme.code_accent));
    assert_eq!(text_of(&doc.lines[2].spans[1]), "let x = 1;");
}

#[test]
fn ordered_list_starts_at_declared_number() {
    let (doc, _) = render("3. a\n4. b\n5. c");
    assert_eq!(line_texts(&doc.lines[0]), vec!["", "3. ", "a"]);
    assert_eq!(line_texts(&doc.lines[1]), vec!["", "4. ", "b"]);
    assert_eq!(line_texts(&doc.lines[2]), vec!["", "5. ", "c"]);
}

#[test]
fn nested_list_resets_its_own_counter() {
    let (doc, _) = render("1. a\n   1. x\n   2. y\n2. b");
    assert_eq!(line_texts(&doc.lines[0]), vec!["", "1. ", "a"]);
    assert_eq!(line_texts(&doc.lines[1]), vec!["  ", "1. ", "x"]);
    assert_eq!(line_texts(&doc.lines[2]), vec!["  ", "2. ", "y"]);
    assert_eq!(line_texts(&doc.lines[4]), vec!["", "2. ", "b"]);
}

#[test]
fn unordered_list_uses_bullets() {
    let (doc, _) = render("- a\n- b");
    assert_eq!(line_texts(&doc.lines[0]), vec!["", "• ", "a"]);
    assert_eq!(line_texts(&doc.lines[1]), vec!["", "• ", "b"]);
}

#[test]
fn block_quote_prefixes_border_glyph() {
    let (doc, theme) = render("> quoted");
    assert_eq!(line_texts(&doc.lines[0]), vec!["▎", " ", "quoted"]);
    assert_eq!(doc.lines[0].spans[0].style.fg, Some(theme.quote_border));
    assert_eq!(doc.lines[0].spans[2].style.fg, Some(theme.quote_fg));
}

#[test]
fn rule_draws_full_width_line() {
    let (doc, theme) = render("---\n");
    assert_eq!(text_of(&doc.lines[0].spans[0]), "─".repeat(80));
    assert_eq!(doc.lines[0].spans[0].style.fg, Some(theme.hr));
    assert_eq!(doc.lines[1].spans.len(), 0);
}

#[test]
fn soft_break_becomes_space() {
    let (doc, _) = render("a\nb");
    assert_eq!(line_texts(&doc.lines[0]), vec!["a", " ", "b"]);
}

#[test]
fn hard_break_forces_new_line() {
    let (doc, _) = render("a  \nb");
    assert_eq!(line_texts(&doc.lines[0]), vec!["a"]);
    assert_eq!(line_texts(&doc.lines[1]), vec!["b"]);
}

#[test]
fn inline_code_is_decorated() {
    let (doc, theme) = render("`x`");
    assert_eq!(line_texts(&doc.lines[0]), vec![" x "]);
    assert_eq!(doc.lines[0].spans[0].style.bg, Some(theme.inline_code_bg));
}

#[test]
fn raw_html_is_muted_verbatim() {
    let (doc, theme) = render("x <kbd>y");
    assert_eq!(line_texts(&doc.lines[0]), vec!["x ", "<kbd>", "y"]);
    assert_eq!(doc.lines[0].spans[1].style.fg, Some(theme.comment));
}

#[test]
fn strikethrough_and_emphasis_modifiers() {
    let (doc, _) = render("*i* ~~s~~");
    assert!(doc.lines[0].spans[0].style.italic);
    assert!(doc.lines[0].spans[2].style.strikethrough);
}

#[test]
fn link_text_is_accented_and_underlined() {
    let (doc, theme) = render("[t](http://e)");
    let t = &doc.lines[0].spans[0];
    assert_eq!(text_of(t), "t");
    assert!(t.style.underline);
    assert_eq!(t.style.fg, Some(theme.link));
}

#[test]
fn rendering_twice_is_identical() {
    let theme = github_dark();
    let source = "# T\n\n| a<br>b |\n|:-:|\n| `c` |\n\n1. x\n";
    let d1 = render_markdown(source, PH, &theme);
    let d2 = render_markdown(source, PH, &theme);
    assert_eq!(d1, d2);
}

#[test]
fn empty_input_renders_empty_document() {
    let (doc, _) = render("");
    assert_eq!(doc.height(), 0);
}

#[test]
fn height_counts_lines() {
    let (doc, _) = render("a");
    assert_eq!(doc.height(), doc.lines.len());
}

#[test]
fn unmatched_close_is_ignored() {
    let theme = github_dark();
    let events = vec![
        MdEvent::End(MdTagEnd::Strong),
        MdEvent::End(MdTagEnd::Link),
        MdEvent::Text("still here".chars().collect()),
    ];
    let doc = render_events(&events, &chars_of(PH), &theme);
    assert_eq!(doc_texts(&doc), vec![vec!["still here".to_string()]]);
    assert_eq!(doc.lines[0].spans[0].style.fg, Some(theme.fg));
}

#[test]
fn three_level_list_indentation() {
    let (doc, _) = render("- a\n  - b\n    - c");
    assert_eq!(line_texts(&doc.lines[0]), vec!["", "• ", "a"]);
    assert_eq!(line_texts(&doc.lines[1]), vec!["  ", "• ", "b"]);
    assert_eq!(line_texts(&doc.lines[2]), vec!["    ", "• ", "c"]);
}

#[test]
fn item_without_open_list_gets_bullet() {
    let theme = github_dark();
    let events = vec![
        MdEvent::Start(mdrender::event::MdTag::Item),
        MdEvent::Text("x".chars().collect()),
        MdEvent::End(MdTagEnd::Item),
    ];
    let doc = render_events(&events, &chars_of(PH), &theme);
    assert_eq!(doc_texts(&doc), vec![vec!["".to_string(), "• ".to_string(), "x".to_string()]]);
}

#[test]
fn cell_holding_only_a_break_marker() {
    let (doc, _) = render("| h |\n|---|\n| <br> |");
    assert_eq!(line_texts(&doc.lines[3]), vec!["│ ", "<br>", " │ "]);
}
