//! Types of the windowed front end: events sent to the application loop
//! and the colours of the window and its tab bar.

use vstd::prelude::*;
use vstd::utf8::{encode_utf8, is_char_boundary};
use crate::colors::{hex_pair, opaque, parse_pair, Rgba};

verus! {

broadcast use vstd::string::group_string_axioms;

/// Events the terminal sessions send to the application loop, each naming
/// its tab.
#[derive(Debug)]
pub enum AppEvent {
    Wakeup(usize),
    Title(usize, String),
    ResetTitle(usize),
    Exit(usize),
    Bell(()),
    ChildExit(usize),
}

/// Colours of the window and its tab bar, as `#rrggbb` strings.
#[derive(Debug, Clone)]
pub struct Colors {
    pub background: String,
    pub foreground: String,
    pub tab_bar: String,
    pub tab_active: String,
    pub tab_inactive: String,
}

fn default_background() -> (s: String)
    ensures
        s@ == "#1a1b1e"@,
{
    "#1a1b1e".to_string()
}

fn default_foreground() -> (s: String)
    ensures
        s@ == "#cdd6f4"@,
{
    "#cdd6f4".to_string()
}

fn default_tab_bar() -> (s: String)
    ensures
        s@ == "#11111b"@,
{
    "#11111b".to_string()
}

fn default_tab_active() -> (s: String)
    ensures
        s@ == "#313244"@,
{
    "#313244".to_string()
}

fn default_tab_inactive() -> (s: String)
    ensures
        s@ == "#1e1e2e"@,
{
    "#1e1e2e".to_string()
}

impl Default for Colors {
    fn default() -> (c: Self)
        ensures
            c.background@ == "#1a1b1e"@,
            c.foreground@ == "#cdd6f4"@,
            c.tab_bar@ == "#11111b"@,
            c.tab_active@ == "#313244"@,
            c.tab_inactive@ == "#1e1e2e"@,
    {
        Colors {
            background: default_background(),
            foreground: default_foreground(),
            tab_bar: default_tab_bar(),
            tab_active: default_tab_active(),
            tab_inactive: default_tab_inactive(),
        }
    }
}

/// `b` without its leading `#` bytes.
pub open spec fn trim_hashes(b: Seq<u8>) -> Seq<u8>
    decreases b.len(),
{
    if b.len() > 0 && b[0] == 0x23 {
        trim_hashes(b.drop_first())
    } else {
        b
    }
}

/// A two-byte field read as base 16, or 0 when it is not a number.
pub open spec fn hex_or_zero(hi: u8, lo: u8) -> u8 {
    match hex_pair(hi, lo) {
        Some(v) => v,
        None => 0,
    }
}

/// The first six bytes after the leading `#`s of `hex` split at character
/// boundaries into three fields.
pub open spec fn hex_fields_ok(hex: Seq<char>) -> bool {
    let t = trim_hashes(encode_utf8(hex));
    &&& t.len() >= 6
    &&& is_char_boundary(t, 2)
    &&& is_char_boundary(t, 4)
    &&& is_char_boundary(t, 6)
}

/// The opaque colour written `rrggbb` after any leading `#`s of `hex`;
/// each channel that is not a base-16 number counts as 0.
pub open spec fn hex_rgb_spec(hex: Seq<char>) -> Rgba {
    let t = trim_hashes(encode_utf8(hex));
    opaque(hex_or_zero(t[0], t[1]), hex_or_zero(t[2], t[3]), hex_or_zero(t[4], t[5]))
}

/// Reads a window colour (see [`hex_rgb_spec`]).
pub fn hex_to_rgb(hex: &str) -> (c: Rgba)
    requires
        hex_fields_ok(hex@),
    ensures
        c == hex_rgb_spec(hex@),
{
    let b = hex.as_bytes();
    let ghost full = encode_utf8(hex@);
    let mut i: usize = 0;
    proof {
        assert(full.subrange(0, full.len() as int) =~= full);
    }
    while i < b.len() && b[i] == 0x23
        invariant
            b@ == full,
            i <= b@.len(),
            trim_hashes(full) == trim_hashes(full.subrange(i as int, full.len() as int)),
        decreases b@.len() - i,
    {
        proof {
            assert(full.subrange(i as int, full.len() as int).drop_first() =~= full.subrange(i + 1, full.len() as int));
        }
        i += 1;
    }
    let ghost t = full.subrange(i as int, full.len() as int);
    proof {
        assert(trim_hashes(t) == t);
        assert(t.len() >= 6);
    }
    let r = match parse_pair(b[i], b[i + 1]) {
        Some(v) => v,
        None => 0,
    };
    let g = match parse_pair(b[i + 2], b[i + 3]) {
        Some(v) => v,
        None => 0,
    };
    let bl = match parse_pair(b[i + 4], b[i + 5]) {
        Some(v) => v,
        None => 0,
    };
    Rgba::new(r, g, bl, 255)
}

} // verus!
