//! Glyph sets for drawing the board.
use vstd::prelude::*;

verus! {

/// The characters a frame is drawn with.
#[derive(Debug, Clone, Copy, PartialEq, Eq, Structural)]
pub struct RenderStyle {
    pub border_horizontal: char,
    pub border_vertical: char,
    pub border_corner_tl: char,
    pub border_corner_tr: char,
    pub border_corner_bl: char,
    pub border_corner_br: char,
    pub paddle: char,
    pub ball: char,
}

impl RenderStyle {
    pub open spec fn ascii_glyphs() -> RenderStyle {
        RenderStyle {
            border_horizontal: '-',
            border_vertical: '|',
            border_corner_tl: '+',
            border_corner_tr: '+',
            border_corner_bl: '+',
            border_corner_br: '+',
            paddle: '|',
            ball: 'o',
        }
    }

    pub open spec fn unicode_glyphs() -> RenderStyle {
        RenderStyle {
            border_horizontal: '─',
            border_vertical: '│',
            border_corner_tl: '┌',
            border_corner_tr: '┐',
            border_corner_bl: '└',
            border_corner_br: '┘',
            paddle: '█',
            ball: '●',
        }
    }

    /// Plain ASCII glyphs, for terminals without Unicode.
    pub fn ascii() -> (r: Self)
        ensures
            r == RenderStyle::ascii_glyphs(),
    {
        RenderStyle {
            border_horizontal: '-',
            border_vertical: '|',
            border_corner_tl: '+',
            border_corner_tr: '+',
            border_corner_bl: '+',
            border_corner_br: '+',
            paddle: '|',
            ball: 'o',
        }
    }

    /// Box-drawing glyphs with a solid paddle and a round ball.
    pub fn unicode() -> (r: Self)
        ensures
            r == RenderStyle::unicode_glyphs(),
    {
        RenderStyle {
            border_horizontal: '─',
            border_vertical: '│',
            border_corner_tl: '┌',
            border_corner_tr: '┐',
            border_corner_bl: '└',
            border_corner_br: '┘',
            paddle: '█',
            ball: '●',
        }
    }
}

} // verus!
