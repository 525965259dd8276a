//! Colors, text attributes and screen cells.

use vstd::prelude::*;

verus! {

/// A cell color: the terminal's default, an entry of the 256-color
/// palette, or a 24-bit color.
#[derive(Clone, Copy, PartialEq, Eq, Debug, Structural)]
pub enum Color {
    Default,
    Indexed(u8),
    Rgb(u8, u8, u8),
}

impl Default for Color {
    fn default() -> (c: Self)
        ensures
            c == Color::Default,
    {
        Color::Default
    }
}

/// Attributes that SGR sequences set on newly printed cells.
#[derive(Clone, Copy, PartialEq, Eq, Debug, Structural)]
pub struct Style {
    pub fg: Color,
    pub bg: Color,
    pub bold: bool,
    pub italic: bool,
    pub underline: bool,
    pub inverse: bool,
}

/// The style with default colors and no attribute set.
pub open spec fn default_style() -> Style {
    Style {
        fg: Color::Default,
        bg: Color::Default,
        bold: false,
        italic: false,
        underline: false,
        inverse: false,
    }
}

impl Default for Style {
    fn default() -> (s: Self)
        ensures
            s == default_style(),
    {
        Style {
            fg: Color::default(),
            bg: Color::default(),
            bold: false,
            italic: false,
            underline: false,
            inverse: false,
        }
    }
}

/// One character position of the screen.
#[derive(Clone, Copy, PartialEq, Eq, Debug, Structural)]
pub struct Cell {
    pub ch: char,
    pub style: Style,
}

/// A space in the default style.
pub open spec fn default_cell() -> Cell {
    Cell { ch: ' ', style: default_style() }
}

impl Default for Cell {
    fn default() -> (c: Self)
        ensures
            c == default_cell(),
    {
        Cell { ch: ' ', style: Style::default() }
    }
}

} // verus!
