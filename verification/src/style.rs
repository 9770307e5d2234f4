//! Colors, span attributes and the color theme used by the renderer.

use vstd::prelude::*;

verus! {

/// A color, given by its red, green and blue components.
#[derive(Clone, Copy, Debug, PartialEq, Eq)]
pub struct Color {
    pub red: u8,
    pub green: u8,
    pub blue: u8,
}

/// The fully resolved attributes of one span of text: optional foreground
/// and background colors and a set of modifiers.
#[derive(Clone, Copy, Debug, PartialEq, Eq)]
pub struct StyleAttr {
    pub fg: Option<Color>,
    pub bg: Option<Color>,
    pub bold: bool,
    pub italic: bool,
    pub underline: bool,
    pub strikethrough: bool,
    pub dim: bool,
}

impl StyleAttr {
    /// The style with no colors and no modifiers.
    pub open spec fn plain_spec() -> StyleAttr {
        StyleAttr {
            fg: None,
            bg: None,
            bold: false,
            italic: false,
            underline: false,
            strikethrough: false,
            dim: false,
        }
    }

    pub fn plain() -> (s: StyleAttr)
        ensures
            s == StyleAttr::plain_spec(),
    {
        StyleAttr {
            fg: None,
            bg: None,
            bold: false,
            italic: false,
            underline: false,
            strikethrough: false,
            dim: false,
        }
    }

    /// The plain style with the given foreground color.
    pub open spec fn fg_spec(c: Color) -> StyleAttr {
        StyleAttr { fg: Some(c), ..StyleAttr::plain_spec() }
    }

    pub fn with_fg(c: Color) -> (s: StyleAttr)
        ensures
            s == StyleAttr::fg_spec(c),
    {
        let mut s = StyleAttr::plain();
        s.fg = Some(c);
        s
    }
}

/// The color theme the renderer draws from.  Every color the output can
/// carry comes from here; the renderer itself holds no color constants.
#[derive(Clone, Copy, Debug, PartialEq, Eq)]
pub struct Theme {
    /// Default foreground for ordinary text; the baseline style.
    pub fg: Color,
    /// Muted color for borders, markers and raw HTML.
    pub comment: Color,
    /// Accent color for links and for the restored break marker.
    pub link: Color,
    /// Color of top-level headings.
    pub heading1: Color,
    /// Color of second-level headings.
    pub heading2: Color,
    /// Shared, dimmed color of all deeper headings.
    pub heading_rest: Color,
    /// Background of fenced code blocks.
    pub code_bg: Color,
    /// Background of inline code spans.
    pub inline_code_bg: Color,
    /// Accent color of the fence language label.
    pub code_accent: Color,
    /// Foreground of block-quote text.
    pub quote_fg: Color,
    /// Color of the block-quote border glyph.
    pub quote_border: Color,
    /// Color of thematic-break rules.
    pub hr: Color,
}

/// A dark theme in the manner of GitHub's.
pub open spec fn github_dark_spec() -> Theme {
    Theme {
        fg: Color { red: 201, green: 209, blue: 217 },
        comment: Color { red: 139, green: 148, blue: 158 },
        link: Color { red: 88, green: 166, blue: 255 },
        heading1: Color { red: 88, green: 166, blue: 255 },
        heading2: Color { red: 121, green: 192, blue: 255 },
        heading_rest: Color { red: 139, green: 148, blue: 158 },
        code_bg: Color { red: 22, green: 27, blue: 34 },
        inline_code_bg: Color { red: 40, green: 45, blue: 53 },
        code_accent: Color { red: 210, green: 153, blue: 34 },
        quote_fg: Color { red: 139, green: 148, blue: 158 },
        quote_border: Color { red: 48, green: 54, blue: 61 },
        hr: Color { red: 33, green: 38, blue: 45 },
    }
}

pub fn github_dark() -> (t: Theme)
    ensures
        t == github_dark_spec(),
{
    Theme {
        fg: Color { red: 201, green: 209, blue: 217 },
        comment: Color { red: 139, green: 148, blue: 158 },
        link: Color { red: 88, green: 166, blue: 255 },
        heading1: Color { red: 88, green: 166, blue: 255 },
        heading2: Color { red: 121, green: 192, blue: 255 },
        heading_rest: Color { red: 139, green: 148, blue: 158 },
        code_bg: Color { red: 22, green: 27, blue: 34 },
        inline_code_bg: Color { red: 40, green: 45, blue: 53 },
        code_accent: Color { red: 210, green: 153, blue: 34 },
        quote_fg: Color { red: 139, green: 148, blue: 158 },
        quote_border: Color { red: 48, green: 54, blue: 61 },
        hr: Color { red: 33, green: 38, blue: 45 },
    }
}

} // verus!
