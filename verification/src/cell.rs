//! A single grid position: a character with its colours and style.

use vstd::prelude::*;

verus! {

/// Foreground or background colour of a [`Cell`].
#[derive(Debug, Clone, Copy, PartialEq, Eq, Hash, Structural)]
pub enum Color {
    /// No explicit colour: the renderer applies the configured default.
    Default,
    Black,
    Red,
    Green,
    Yellow,
    Blue,
    Magenta,
    Cyan,
    White,
    BrightBlack,
    BrightRed,
    BrightGreen,
    BrightYellow,
    BrightBlue,
    BrightMagenta,
    BrightCyan,
    BrightWhite,
    /// Index 0-255 into the 256-colour palette.
    Indexed(u8),
    /// 24-bit true colour.
    Rgb(u8, u8, u8),
}

impl Default for Color {
    fn default() -> (c: Self)
        ensures
            c == Color::Default,
    {
        Color::Default
    }
}

/// Style attributes of a cell.
#[derive(Debug, Clone, Copy, PartialEq, Eq, Structural)]
pub struct Attributes {
    pub bold: bool,
    pub italic: bool,
    pub underline: bool,
    pub strikethrough: bool,
    pub reverse: bool,
    pub dim: bool,
    /// The cell is part of a hyperlink (the URI is kept by the terminal).
    pub hyperlink: bool,
}

impl Attributes {
    /// The attribute set with every flag cleared.
    pub open spec fn none() -> Attributes {
        Attributes {
            bold: false,
            italic: false,
            underline: false,
            strikethrough: false,
            reverse: false,
            dim: false,
            hyperlink: false,
        }
    }
}

impl Default for Attributes {
    fn default() -> (a: Self)
        ensures
            a == Attributes::none(),
    {
        Attributes {
            bold: false,
            italic: false,
            underline: false,
            strikethrough: false,
            reverse: false,
            dim: false,
            hyperlink: false,
        }
    }
}

/// One grid position: a character and its style.
#[derive(Debug, Clone, Copy, PartialEq, Eq, Structural)]
pub struct Cell {
    /// The displayed character.
    pub character: char,
    /// Text colour.
    pub foreground: Color,
    /// Background colour.
    pub background: Color,
    /// Style attributes.
    pub attributes: Attributes,
}

impl Cell {
    /// The blank cell: a space in default colours with no attributes.
    pub open spec fn spec_blank() -> Cell {
        Cell {
            character: ' ',
            foreground: Color::Default,
            background: Color::Default,
            attributes: Attributes::none(),
        }
    }

    /// Creates a blank cell (space, default colours, no attributes).
    pub fn blank() -> (c: Self)
        ensures
            c == Cell::spec_blank(),
    {
        Cell {
            character: ' ',
            foreground: Color::Default,
            background: Color::Default,
            attributes: Attributes::default(),
        }
    }

    /// Returns `true` when the cell is exactly the blank cell.
    pub fn is_blank(&self) -> (b: bool)
        ensures
            b == (*self == Cell::spec_blank()),
    {
        *self == Self::blank()
    }
}

impl Default for Cell {
    fn default() -> (c: Self)
        ensures
            c == Cell::spec_blank(),
    {
        Self::blank()
    }
}

} // verus!
