//! Colours of the renderer: RGBA values, the ANSI 16-colour table, the
//! 256-colour palette and `#rrggbb` parsing.

use vstd::prelude::*;
use vstd::utf8::is_char_boundary;
use vstd::utf8::encode_utf8;
use crate::cell::Color;
use crate::text::{case_folded, str_eq, to_lowercase};

verus! {

/// RGBA colour with 8 bits per channel.
#[derive(Debug, Clone, Copy, PartialEq, Eq, Hash, Structural)]
pub struct Rgba {
    pub r: u8,
    pub g: u8,
    pub b: u8,
    pub a: u8,
}

/// The opaque colour `(r, g, b)`.
pub open spec fn opaque(r: u8, g: u8, b: u8) -> Rgba {
    Rgba { r, g, b, a: 255 }
}

/// The standard ANSI 16 colours, index 0 (black) to 15 (bright white).
pub open spec fn ansi_table() -> Seq<Rgba> {
    seq![
        opaque(0x00, 0x00, 0x00),
        opaque(0xCD, 0x00, 0x00),
        opaque(0x00, 0xCD, 0x00),
        opaque(0xCD, 0xCD, 0x00),
        opaque(0x00, 0x00, 0xEE),
        opaque(0xCD, 0x00, 0xCD),
        opaque(0x00, 0xCD, 0xCD),
        opaque(0xE5, 0xE5, 0xE5),
        opaque(0x7F, 0x7F, 0x7F),
        opaque(0xFF, 0x00, 0x00),
        opaque(0x00, 0xFF, 0x00),
        opaque(0xFF, 0xFF, 0x00),
        opaque(0x5C, 0x5C, 0xFF),
        opaque(0xFF, 0x00, 0xFF),
        opaque(0x00, 0xFF, 0xFF),
        opaque(0xFF, 0xFF, 0xFF),
    ]
}

impl Rgba {
    /// Creates a colour from its four channels.
    pub fn new(r: u8, g: u8, b: u8, a: u8) -> (c: Self)
        ensures
            c == (Rgba { r, g, b, a }),
    {
        Self { r, g, b, a }
    }

    /// Creates an opaque colour.
    pub fn rgb(r: u8, g: u8, b: u8) -> (c: Self)
        ensures
            c == opaque(r, g, b),
    {
        Self { r, g, b, a: 255 }
    }

    /// Opaque colour from `0xRRGGBB` (higher bits ignored).
    pub fn from_rgb(val: u32) -> (c: Self)
        ensures
            c == opaque(((val / 0x10000) % 256) as u8, ((val / 0x100) % 256) as u8, (val % 256) as u8),
    {
        let r = ((val >> 16) & 0xFF) as u8;
        let g = ((val >> 8) & 0xFF) as u8;
        let b = (val & 0xFF) as u8;
        assert(((val >> 16) & 0xFF) == (val / 0x10000) % 256) by (bit_vector);
        assert(((val >> 8) & 0xFF) == (val / 0x100) % 256) by (bit_vector);
        assert((val & 0xFF) == val % 256) by (bit_vector);
        Self { r, g, b, a: 255 }
    }

    /// Colour from `0xRRGGBBAA`.
    pub fn from_rgba(val: u32) -> (c: Self)
        ensures
            c == (Rgba {
                r: (val / 0x100_0000) as u8,
                g: ((val / 0x10000) % 256) as u8,
                b: ((val / 0x100) % 256) as u8,
                a: (val % 256) as u8,
            }),
    {
        let r = ((val >> 24) & 0xFF) as u8;
        let g = ((val >> 16) & 0xFF) as u8;
        let b = ((val >> 8) & 0xFF) as u8;
        let a = (val & 0xFF) as u8;
        assert(((val >> 24) & 0xFF) == val / 0x100_0000) by (bit_vector);
        assert(((val >> 16) & 0xFF) == (val / 0x10000) % 256) by (bit_vector);
        assert(((val >> 8) & 0xFF) == (val / 0x100) % 256) by (bit_vector);
        assert((val & 0xFF) == val % 256) by (bit_vector);
        Self { r, g, b, a }
    }
}

impl Default for Rgba {
    /// Transparent black.
    fn default() -> (c: Self)
        ensures
            c == (Rgba { r: 0, g: 0, b: 0, a: 0 }),
    {
        Self { r: 0, g: 0, b: 0, a: 0 }
    }
}

/// The standard ANSI 16 colours.
pub fn ansi_colors() -> (t: [Rgba; 16])
    ensures
        t@ == ansi_table(),
{
    let t = [
        Rgba::rgb(0x00, 0x00, 0x00),
        Rgba::rgb(0xCD, 0x00, 0x00),
        Rgba::rgb(0x00, 0xCD, 0x00),
        Rgba::rgb(0xCD, 0xCD, 0x00),
        Rgba::rgb(0x00, 0x00, 0xEE),
        Rgba::rgb(0xCD, 0x00, 0xCD),
        Rgba::rgb(0x00, 0xCD, 0xCD),
        Rgba::rgb(0xE5, 0xE5, 0xE5),
        Rgba::rgb(0x7F, 0x7F, 0x7F),
        Rgba::rgb(0xFF, 0x00, 0x00),
        Rgba::rgb(0x00, 0xFF, 0x00),
        Rgba::rgb(0xFF, 0xFF, 0x00),
        Rgba::rgb(0x5C, 0x5C, 0xFF),
        Rgba::rgb(0xFF, 0x00, 0xFF),
        Rgba::rgb(0x00, 0xFF, 0xFF),
        Rgba::rgb(0xFF, 0xFF, 0xFF),
    ];
    assert(t@ =~= ansi_table());
    t
}

/// Entry `index` of the 256-colour palette: the ANSI 16 colours, then a
/// 6x6x6 colour cube (steps of 51), then a 24-step grey ramp from 8.
pub open spec fn palette_256(index: u8) -> Rgba {
    if index < 16 {
        ansi_table()[index as int]
    } else if index < 232 {
        let i = index - 16;
        opaque(((i / 36) * 51) as u8, (((i % 36) / 6) * 51) as u8, ((i % 6) * 51) as u8)
    } else {
        let v = ((index - 232) * 10 + 8) as u8;
        opaque(v, v, v)
    }
}

/// Gets entry `index` of the 256-colour palette.
pub fn ansi_256_color(index: u8) -> (c: Rgba)
    ensures
        c == palette_256(index),
{
    if index < 16 {
        let t = ansi_colors();
        t[index as usize]
    } else if index < 232 {
        let idx = index - 16;
        let r = (idx / 36) * 51;
        let g = ((idx % 36) / 6) * 51;
        let b = (idx % 6) * 51;
        Rgba::rgb(r, g, b)
    } else {
        let val = (index - 232) * 10 + 8;
        Rgba::rgb(val, val, val)
    }
}

/// Colours the renderer draws with.
#[derive(Debug, Clone)]
pub struct ColorPalette {
    pub ansi: [Rgba; 16],
    pub default_fg: Rgba,
    pub default_bg: Rgba,
    pub cursor: Rgba,
    pub selection_bg: Rgba,
    pub selection_fg: Rgba,
}

/// Default foreground.
pub open spec fn default_fg() -> Rgba {
    opaque(0xE5, 0xE5, 0xE5)
}

/// Default background.
pub open spec fn default_bg() -> Rgba {
    opaque(0x1E, 0x1E, 0x1E)
}

/// Default cursor colour.
pub open spec fn default_cursor() -> Rgba {
    opaque(0xFF, 0xFF, 0xFF)
}

/// Default selection background.
pub open spec fn default_selection() -> Rgba {
    opaque(0x4A, 0x4A, 0x4A)
}

impl ColorPalette {
    /// The palette holds exactly these colours.
    pub open spec fn is(&self, ansi: Seq<Rgba>, fg: Rgba, bg: Rgba, cursor: Rgba, sel_bg: Rgba, sel_fg: Rgba) -> bool {
        &&& self.ansi@ == ansi
        &&& self.default_fg == fg
        &&& self.default_bg == bg
        &&& self.cursor == cursor
        &&& self.selection_bg == sel_bg
        &&& self.selection_fg == sel_fg
    }

    /// The default (dark) palette.
    pub open spec fn is_default(&self) -> bool {
        self.is(ansi_table(), default_fg(), default_bg(), default_cursor(), default_selection(), opaque(0xFF, 0xFF, 0xFF))
    }

    /// The "light" palette.
    pub open spec fn is_light(&self) -> bool {
        self.is(
            ansi_table(),
            opaque(0x1E, 0x1E, 0x1E),
            opaque(0xFF, 0xFF, 0xFF),
            opaque(0x00, 0x00, 0x00),
            opaque(0xBB, 0xBB, 0xBB),
            opaque(0x00, 0x00, 0x00),
        )
    }

    /// The "solarized-dark" palette.
    pub open spec fn is_solarized_dark(&self) -> bool {
        self.is(
            solarized_table(),
            opaque(0x83, 0x94, 0x96),
            opaque(0x00, 0x2B, 0x36),
            opaque(0x83, 0x94, 0x96),
            opaque(0x07, 0x36, 0x42),
            opaque(0x83, 0x94, 0x96),
        )
    }

    /// Colour `index` of the 256-colour palette, the first 16 taken from
    /// this palette.
    pub fn get(&self, index: u8) -> (c: Rgba)
        ensures
            c == (if index < 16 { self.ansi@[index as int] } else { palette_256(index) }),
    {
        if index < 16 {
            self.ansi[index as usize]
        } else {
            ansi_256_color(index)
        }
    }

    /// Replaces ANSI colour `index` (0-15); other indices are ignored.
    pub fn set_ansi(&mut self, index: u8, color: Rgba)
        ensures
            final(self).ansi@ == (if index < 16 { old(self).ansi@.update(index as int, color) } else { old(self).ansi@ }),
            final(self).default_fg == old(self).default_fg,
            final(self).default_bg == old(self).default_bg,
            final(self).cursor == old(self).cursor,
            final(self).selection_bg == old(self).selection_bg,
            final(self).selection_fg == old(self).selection_fg,
    {
        if index < 16 {
            self.ansi[index as usize] = color;
        }
    }

    /// The palette of a built-in theme: "light", "solarized-dark", or the
    /// default palette for any other name, compared without case.
    pub fn from_theme(name: &str) -> (p: Self)
        ensures
            if case_folded(name@) == "light"@ {
                p.is_light()
            } else if case_folded(name@) == "solarized-dark"@ {
                p.is_solarized_dark()
            } else {
                p.is_default()
            },
    {
        let lower = to_lowercase(name);
        Self::theme_palette(lower.as_str())
    }

    /// The palette of the built-in theme whose lower-case name is `lower`.
    pub fn theme_palette(lower: &str) -> (p: Self)
        ensures
            if lower@ == "light"@ {
                p.is_light()
            } else if lower@ == "solarized-dark"@ {
                p.is_solarized_dark()
            } else {
                p.is_default()
            },
    {
        if str_eq(lower, "light") {
            Self {
                ansi: ansi_colors(),
                default_fg: Rgba::rgb(0x1E, 0x1E, 0x1E),
                default_bg: Rgba::rgb(0xFF, 0xFF, 0xFF),
                cursor: Rgba::rgb(0x00, 0x00, 0x00),
                selection_bg: Rgba::rgb(0xBB, 0xBB, 0xBB),
                selection_fg: Rgba::rgb(0x00, 0x00, 0x00),
            }
        } else if str_eq(lower, "solarized-dark") {
            let ansi = [
                Rgba::rgb(0x00, 0x2B, 0x36),
                Rgba::rgb(0xDC, 0x32, 0x2F),
                Rgba::rgb(0x85, 0x99, 0x00),
                Rgba::rgb(0xB5, 0x89, 0x00),
                Rgba::rgb(0x26, 0x8B, 0xD2),
                Rgba::rgb(0xD3, 0x36, 0x82),
                Rgba::rgb(0x2A, 0xA1, 0x98),
                Rgba::rgb(0xEE, 0xE8, 0xD5),
                Rgba::rgb(0x07, 0x36, 0x42),
                Rgba::rgb(0xCB, 0x4B, 0x16),
                Rgba::rgb(0x58, 0x6E, 0x75),
                Rgba::rgb(0x65, 0x7B, 0x83),
                Rgba::rgb(0x83, 0x94, 0x96),
                Rgba::rgb(0x6C, 0x71, 0xC4),
                Rgba::rgb(0x93, 0xA1, 0xA1),
                Rgba::rgb(0xFD, 0xF6, 0xE3),
            ];
            assert(ansi@ =~= solarized_table());
            Self {
                ansi,
                default_fg: Rgba::rgb(0x83, 0x94, 0x96),
                default_bg: Rgba::rgb(0x00, 0x2B, 0x36),
                cursor: Rgba::rgb(0x83, 0x94, 0x96),
                selection_bg: Rgba::rgb(0x07, 0x36, 0x42),
                selection_fg: Rgba::rgb(0x83, 0x94, 0x96),
            }
        } else {
            Self::default()
        }
    }

    /// A palette from four `#rrggbb` strings; each one that does not parse
    /// falls back to its default. The selection text takes the foreground.
    pub fn from_hex(background: &str, foreground: &str, cursor: &str, selection: &str) -> (p: Self)
        ensures
            p.is(
                ansi_table(),
                hex_or(encode_utf8(foreground@), default_fg()),
                hex_or(encode_utf8(background@), default_bg()),
                hex_or(encode_utf8(cursor@), default_cursor()),
                hex_or(encode_utf8(selection@), default_selection()),
                hex_or(encode_utf8(foreground@), default_fg()),
            ),
    {
        palette_from_hex(background, foreground, cursor, selection)
    }
}

impl Default for ColorPalette {
    fn default() -> (p: Self)
        ensures
            p.is_default(),
    {
        Self {
            ansi: ansi_colors(),
            default_fg: Rgba::rgb(0xE5, 0xE5, 0xE5),
            default_bg: Rgba::rgb(0x1E, 0x1E, 0x1E),
            cursor: Rgba::rgb(0xFF, 0xFF, 0xFF),
            selection_bg: Rgba::rgb(0x4A, 0x4A, 0x4A),
            selection_fg: Rgba::rgb(0xFF, 0xFF, 0xFF),
        }
    }
}

/// The ANSI colours of the "solarized-dark" theme.
pub open spec fn solarized_table() -> Seq<Rgba> {
    seq![
        opaque(0x00, 0x2B, 0x36),
        opaque(0xDC, 0x32, 0x2F),
        opaque(0x85, 0x99, 0x00),
        opaque(0xB5, 0x89, 0x00),
        opaque(0x26, 0x8B, 0xD2),
        opaque(0xD3, 0x36, 0x82),
        opaque(0x2A, 0xA1, 0x98),
        opaque(0xEE, 0xE8, 0xD5),
        opaque(0x07, 0x36, 0x42),
        opaque(0xCB, 0x4B, 0x16),
        opaque(0x58, 0x6E, 0x75),
        opaque(0x65, 0x7B, 0x83),
        opaque(0x83, 0x94, 0x96),
        opaque(0x6C, 0x71, 0xC4),
        opaque(0x93, 0xA1, 0xA1),
        opaque(0xFD, 0xF6, 0xE3),
    ]
}

/// Value of an ASCII hexadecimal digit (either case).
pub open spec fn hex_digit_value(b: u8) -> Option<u8> {
    if 0x30 <= b <= 0x39 {
        Some((b - 0x30) as u8)
    } else if 0x61 <= b <= 0x66 {
        Some((b - 0x61 + 10) as u8)
    } else if 0x41 <= b <= 0x46 {
        Some((b - 0x41 + 10) as u8)
    } else {
        None
    }
}

/// A two-byte field read as a base-16 `u8`: both bytes must be hex digits.
pub open spec fn hex_pair(hi: u8, lo: u8) -> Option<u8> {
    match (hex_digit_value(hi), hex_digit_value(lo)) {
        (Some(h), Some(l)) => Some((h * 16 + l) as u8),
        _ => None,
    }
}

/// The colour written as `#rrggbb` in the UTF-8 bytes `b`.
pub open spec fn hex_color(b: Seq<u8>) -> Option<Rgba> {
    if b.len() != 7 || b[0] != 0x23 {
        None
    } else {
        match (hex_pair(b[1], b[2]), hex_pair(b[3], b[4]), hex_pair(b[5], b[6])) {
            (Some(r), Some(g), Some(bl)) => Some(opaque(r, g, bl)),
            _ => None,
        }
    }
}

/// The colour of `b`, or `fallback` when it does not parse.
pub open spec fn hex_or(b: Seq<u8>, fallback: Rgba) -> Rgba {
    match hex_color(b) {
        Some(c) => c,
        None => fallback,
    }
}

/// Reads one hexadecimal digit.
fn hex_digit(b: u8) -> (r: Option<u8>)
    ensures
        r == hex_digit_value(b),
{
    if 0x30 <= b && b <= 0x39 {
        Some(b - 0x30)
    } else if 0x61 <= b && b <= 0x66 {
        Some(b - 0x61 + 10)
    } else if 0x41 <= b && b <= 0x46 {
        Some(b - 0x41 + 10)
    } else {
        None
    }
}

/// Reads a two-byte base-16 field (see [`hex_pair`]).
pub(crate) fn parse_pair(hi: u8, lo: u8) -> (r: Option<u8>)
    ensures
        r == hex_pair(hi, lo),
{
    match (hex_digit(hi), hex_digit(lo)) {
        (Some(h), Some(l)) => Some(h * 16 + l),
        _ => None,
    }
}

/// Parses `#rrggbb` (six hex digits of either case) into an opaque colour;
/// `None` for anything else.
pub fn parse_hex_color(hex: &str) -> (c: Option<Rgba>)
    ensures
        c == hex_color(encode_utf8(hex@)),
{
    let b = hex.as_bytes();
    if hex.len() != 7 || b[0] != 0x23 {
        return None;
    }
    let r = match parse_pair(b[1], b[2]) {
        Some(v) => v,
        None => return None,
    };
    let g = match parse_pair(b[3], b[4]) {
        Some(v) => v,
        None => return None,
    };
    let bl = match parse_pair(b[5], b[6]) {
        Some(v) => v,
        None => return None,
    };
    Some(Rgba::rgb(r, g, bl))
}

/// A palette from four `#rrggbb` strings (see [`ColorPalette::from_hex`]).
pub fn palette_from_hex(background: &str, foreground: &str, cursor: &str, selection: &str) -> (p: ColorPalette)
    ensures
        p.is(
            ansi_table(),
            hex_or(encode_utf8(foreground@), default_fg()),
            hex_or(encode_utf8(background@), default_bg()),
            hex_or(encode_utf8(cursor@), default_cursor()),
            hex_or(encode_utf8(selection@), default_selection()),
            hex_or(encode_utf8(foreground@), default_fg()),
        ),
{
    let default_bg = match parse_hex_color(background) {
        Some(c) => c,
        None => Rgba::rgb(0x1E, 0x1E, 0x1E),
    };
    let default_fg = match parse_hex_color(foreground) {
        Some(c) => c,
        None => Rgba::rgb(0xE5, 0xE5, 0xE5),
    };
    let cursor_color = match parse_hex_color(cursor) {
        Some(c) => c,
        None => Rgba::rgb(0xFF, 0xFF, 0xFF),
    };
    let selection_bg = match parse_hex_color(selection) {
        Some(c) => c,
        None => Rgba::rgb(0x4A, 0x4A, 0x4A),
    };
    ColorPalette {
        ansi: ansi_colors(),
        default_fg,
        default_bg,
        cursor: cursor_color,
        selection_bg,
        selection_fg: default_fg,
    }
}

/// Every entry of the grey ramp (232 to 255) is an opaque grey, starting at
/// 8 and 10 levels lighter at each step; every entry of the colour cube (16
/// to 231) is opaque, with channels that are multiples of 51 whose base-6
/// digits (red, green, blue) spell the entry's offset from 16.
pub proof fn lemma_palette_greys_and_cube(index: u8)
    ensures
        232 <= index ==> {
            let c = palette_256(index);
            &&& c.r == c.g
            &&& c.g == c.b
            &&& c.b == (index - 232) * 10 + 8
            &&& c.a == 255
        },
        16 <= index < 232 ==> {
            let c = palette_256(index);
            &&& c.a == 255
            &&& c.r % 51 == 0 && c.g % 51 == 0 && c.b % 51 == 0
            &&& c.r / 51 < 6 && c.g / 51 < 6 && c.b / 51 < 6
            &&& index - 16 == 36 * (c.r / 51) + 6 * (c.g / 51) + c.b / 51
        },
{
    if 16 <= index < 232 {
        let i = (index - 16) as int;
        let q = i / 36;
        let m = (i % 36) / 6;
        let l = i % 6;
        assert(0 <= q < 6 && 0 <= m < 6 && 0 <= l < 6);
        assert(i == 36 * q + 6 * m + l);
        assert((q * 51) / 51 == q && (m * 51) / 51 == m && (l * 51) / 51 == l);
        assert((q * 51) % 51 == 0 && (m * 51) % 51 == 0 && (l * 51) % 51 == 0);
    }
}

/// The default palette gives, for every index, the colour of the standard
/// 256-colour palette.
pub proof fn lemma_default_palette_is_standard(p: ColorPalette, index: u8)
    requires
        p.is_default(),
    ensures
        (if index < 16 { p.ansi@[index as int] } else { palette_256(index) }) == palette_256(index),
{
}

/// The colour a cell colour stands for in `palette`: the default
/// foreground, one of the 16 ANSI colours, an entry of the 256-colour
/// palette, or the opaque true colour itself.
pub open spec fn resolved(color: Color, palette: ColorPalette) -> Rgba {
    match color {
        Color::Default => palette.default_fg,
        Color::Black => palette.ansi@[0],
        Color::Red => palette.ansi@[1],
        Color::Green => palette.ansi@[2],
        Color::Yellow => palette.ansi@[3],
        Color::Blue => palette.ansi@[4],
        Color::Magenta => palette.ansi@[5],
        Color::Cyan => palette.ansi@[6],
        Color::White => palette.ansi@[7],
        Color::BrightBlack => palette.ansi@[8],
        Color::BrightRed => palette.ansi@[9],
        Color::BrightGreen => palette.ansi@[10],
        Color::BrightYellow => palette.ansi@[11],
        Color::BrightBlue => palette.ansi@[12],
        Color::BrightMagenta => palette.ansi@[13],
        Color::BrightCyan => palette.ansi@[14],
        Color::BrightWhite => palette.ansi@[15],
        Color::Indexed(i) => if i < 16 { palette.ansi@[i as int] } else { palette_256(i) },
        Color::Rgb(r, g, b) => Rgba { r, g, b, a: 255 },
    }
}

/// Resolves a cell colour against `palette` (see [`resolved`]).
pub fn resolve_color(color: Color, palette: &ColorPalette) -> (c: Rgba)
    ensures
        c == resolved(color, *palette),
{
    match color {
        Color::Default => palette.default_fg,
        Color::Black => palette.ansi[0],
        Color::Red => palette.ansi[1],
        Color::Green => palette.ansi[2],
        Color::Yellow => palette.ansi[3],
        Color::Blue => palette.ansi[4],
        Color::Magenta => palette.ansi[5],
        Color::Cyan => palette.ansi[6],
        Color::White => palette.ansi[7],
        Color::BrightBlack => palette.ansi[8],
        Color::BrightRed => palette.ansi[9],
        Color::BrightGreen => palette.ansi[10],
        Color::BrightYellow => palette.ansi[11],
        Color::BrightBlue => palette.ansi[12],
        Color::BrightMagenta => palette.ansi[13],
        Color::BrightCyan => palette.ansi[14],
        Color::BrightWhite => palette.ansi[15],
        Color::Indexed(idx) => palette.get(idx),
        Color::Rgb(r, g, b) => Rgba::new(r, g, b, 255),
    }
}

/// The named colour of ANSI index `i` (0-15).
pub open spec fn ansi_named(i: int) -> Color {
    if i == 0 {
        Color::Black
    } else if i == 1 {
        Color::Red
    } else if i == 2 {
        Color::Green
    } else if i == 3 {
        Color::Yellow
    } else if i == 4 {
        Color::Blue
    } else if i == 5 {
        Color::Magenta
    } else if i == 6 {
        Color::Cyan
    } else if i == 7 {
        Color::White
    } else if i == 8 {
        Color::BrightBlack
    } else if i == 9 {
        Color::BrightRed
    } else if i == 10 {
        Color::BrightGreen
    } else if i == 11 {
        Color::BrightYellow
    } else if i == 12 {
        Color::BrightBlue
    } else if i == 13 {
        Color::BrightMagenta
    } else if i == 14 {
        Color::BrightCyan
    } else {
        Color::BrightWhite
    }
}

/// An indexed colour below 16 resolves like the named colour of that index.
pub proof fn lemma_indexed_matches_named(palette: ColorPalette, i: u8)
    requires
        i < 16,
    ensures
        resolved(Color::Indexed(i), palette) == resolved(ansi_named(i as int), palette),
{
}

} // verus!
