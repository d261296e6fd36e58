//! Font face selection: weight, slant and width of the face to draw with.

use vstd::prelude::*;

verus! {

/// Slant of a face.
#[derive(Debug, Clone, Copy, PartialEq, Eq, Hash, Structural)]
pub enum FontSlant {
    Normal,
    Italic,
    Oblique,
}

/// Width of a face, from narrowest to widest.
#[derive(Debug, Clone, Copy, PartialEq, Eq, Hash, Structural)]
pub enum FontStretch {
    UltraCondensed,
    ExtraCondensed,
    Condensed,
    SemiCondensed,
    Normal,
    SemiExpanded,
    Expanded,
    ExtraExpanded,
    UltraExpanded,
}

/// Weight of a regular face.
pub const WEIGHT_NORMAL: u16 = 400;

/// Weight of a bold face.
pub const WEIGHT_BOLD: u16 = 700;

/// Style of a face: its weight (100 to 900 by convention), slant and width.
#[derive(Debug, Clone, Copy, PartialEq, Eq, Hash, Structural)]
pub struct FontStyle {
    pub weight: u16,
    pub style: FontSlant,
    pub stretch: FontStretch,
}

impl Default for FontStyle {
    /// The regular face: normal weight, upright, normal width.
    fn default() -> (s: Self)
        ensures
            s == (FontStyle { weight: WEIGHT_NORMAL, style: FontSlant::Normal, stretch: FontStretch::Normal }),
    {
        FontStyle { weight: WEIGHT_NORMAL, style: FontSlant::Normal, stretch: FontStretch::Normal }
    }
}

impl FontStyle {
    /// The regular face.
    pub fn normal() -> (s: Self)
        ensures
            s == (FontStyle { weight: WEIGHT_NORMAL, style: FontSlant::Normal, stretch: FontStretch::Normal }),
    {
        FontStyle { weight: WEIGHT_NORMAL, style: FontSlant::Normal, stretch: FontStretch::Normal }
    }

    /// The bold face, otherwise regular.
    pub fn bold() -> (s: Self)
        ensures
            s == (FontStyle { weight: WEIGHT_BOLD, style: FontSlant::Normal, stretch: FontStretch::Normal }),
    {
        FontStyle { weight: WEIGHT_BOLD, style: FontSlant::Normal, stretch: FontStretch::Normal }
    }

    /// The italic face, otherwise regular.
    pub fn italic() -> (s: Self)
        ensures
            s == (FontStyle { weight: WEIGHT_NORMAL, style: FontSlant::Italic, stretch: FontStretch::Normal }),
    {
        FontStyle { weight: WEIGHT_NORMAL, style: FontSlant::Italic, stretch: FontStretch::Normal }
    }

    /// The weight is exactly the bold weight.
    pub fn is_bold(&self) -> (b: bool)
        ensures
            b == (self.weight == WEIGHT_BOLD),
    {
        self.weight == WEIGHT_BOLD
    }

    /// The slant is italic (oblique is not).
    pub fn is_italic(&self) -> (b: bool)
        ensures
            b == (self.style == FontSlant::Italic),
    {
        self.style == FontSlant::Italic
    }
}

} // verus!
