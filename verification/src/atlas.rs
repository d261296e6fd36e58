//! Glyph atlas layout: shelf packing of glyph bitmaps into one texture.
//!
//! The atlas is cut into horizontal shelves; a glyph goes on the first
//! shelf of its height with room left, or on a new shelf below the last.
//! This module decides where each glyph goes and remembers it; copying the
//! bitmap into the texture at that place is the graphics code's job.

use vstd::prelude::*;
use std::collections::HashMap;
use crate::render_error::RendererError;

verus! {

broadcast use vstd::std_specs::hash::group_hash_axioms;

/// A rectangle in the glyph atlas.
#[derive(Debug, Clone, Copy, PartialEq, Eq, Structural)]
pub struct AtlasRect {
    pub x: u32,
    pub y: u32,
    pub width: u32,
    pub height: u32,
}

impl AtlasRect {
    /// Creates a rectangle.
    pub fn new(x: u32, y: u32, width: u32, height: u32) -> (r: Self)
        ensures
            r == (AtlasRect { x, y, width, height }),
    {
        Self { x, y, width, height }
    }

    /// Number of texels covered.
    pub fn area(&self) -> (a: u32)
        requires
            self.width * self.height <= u32::MAX,
        ensures
            a == self.width * self.height,
    {
        self.width * self.height
    }

    /// The rectangles share no texel.
    pub open spec fn disjoint(self, other: AtlasRect) -> bool {
        self.x + self.width <= other.x || other.x + other.width <= self.x || self.y + self.height <= other.y
            || other.y + other.height <= self.y
    }
}

/// Key of a glyph in the atlas: font, glyph, size and style.
#[derive(Debug, Clone, Copy, PartialEq, Eq, Hash, Structural)]
pub struct GlyphKey {
    pub font_id: u64,
    pub glyph_id: u32,
    pub size: u16,
    /// 0 normal, 1 bold, 2 italic, 3 bold italic.
    pub style: u8,
}

impl GlyphKey {
    /// Creates a key, encoding the style flags.
    pub fn new(font_id: u64, glyph_id: u32, size: u16, bold: bool, italic: bool) -> (k: Self)
        ensures
            k.font_id == font_id,
            k.glyph_id == glyph_id,
            k.size == size,
            k.style == (if bold { 1u8 } else { 0u8 }) + (if italic { 2u8 } else { 0u8 }),
    {
        let style: u8 = if !bold && !italic {
            0
        } else if bold && !italic {
            1
        } else if !bold && italic {
            2
        } else {
            3
        };
        Self { font_id, glyph_id, size, style }
    }
}

/// The number under which a glyph key is stored.
pub open spec fn key_code(k: GlyphKey) -> u128 {
    (k.font_id as int * 0x1_0000_0000_0000_0000 + k.glyph_id as int * 0x1_0000_0000 + k.size as int * 0x1_0000
        + k.style as int) as u128
}

proof fn lemma_key_code_injective(a: GlyphKey, b: GlyphKey)
    ensures
        key_code(a) == key_code(b) ==> a == b,
{
}

/// Computes [`key_code`].
fn code_of(k: &GlyphKey) -> (c: u128)
    ensures
        c == key_code(*k),
{
    (k.font_id as u128) * 0x1_0000_0000_0000_0000u128 + (k.glyph_id as u128) * 0x1_0000_0000u128 + (k.size as u128)
        * 0x1_0000u128 + (k.style as u128)
}

/// A shelf: a horizontal band of the atlas, filled from the left.
#[derive(Debug, Clone, Copy)]
struct Shelf {
    y: u32,
    height: u32,
    x_offset: u32,
}

/// Mathematical picture of a [`GlyphAtlas`]; each shelf is
/// `(y, height, x_offset)`, and glyphs are found by [`key_code`].
pub struct AtlasView {
    pub width: u32,
    pub height: u32,
    pub shelves: Seq<(u32, u32, u32)>,
    pub glyphs: Map<u128, AtlasRect>,
    pub next_shelf_y: u32,
}

impl AtlasView {
    /// The shelves lie one below the other, in order, inside the atlas and
    /// above `next_shelf_y` (at most one row below the atlas); each glyph
    /// sits on a shelf, left of its fill point; no two glyphs overlap.
    pub open spec fn wf(self) -> bool {
        &&& self.next_shelf_y <= self.height + 1
        &&& forall|i: int| 0 <= i < self.shelves.len() ==> (#[trigger] self.shelves[i]).0 + self.shelves[i].1 <= self.height
            && self.shelves[i].0 + self.shelves[i].1 < self.next_shelf_y && self.shelves[i].2 <= self.width + 1
        &&& forall|i: int, j: int|
            0 <= i < j < self.shelves.len() ==> (#[trigger] self.shelves[i]).0 + self.shelves[i].1 < (
            #[trigger] self.shelves[j]).0
        &&& forall|k: u128| #[trigger]
            self.glyphs.contains_key(k) ==> self.placed(self.glyphs[k])
        &&& forall|k1: u128, k2: u128|
            #![trigger self.glyphs[k1], self.glyphs[k2]]
            self.glyphs.contains_key(k1) && self.glyphs.contains_key(k2) && k1 != k2 ==> self.glyphs[k1].disjoint(
                self.glyphs[k2],
            )
    }

    /// `r` sits on a shelf, ending before the shelf's fill point, inside the
    /// atlas.
    pub open spec fn placed(self, r: AtlasRect) -> bool {
        &&& exists|i: int|
            0 <= i < self.shelves.len() && (#[trigger] self.shelves[i]).0 == r.y && self.shelves[i].1 == r.height
                && r.x + r.width + 1 <= self.shelves[i].2
        &&& r.x + r.width <= self.width
        &&& r.y + r.height <= self.height
    }
}

/// Index of the first shelf, from `i` on, of height `h` with room for a
/// glyph `w` wide (plus one texel of spacing); -1 when there is none.
pub open spec fn first_fit(shelves: Seq<(u32, u32, u32)>, w: u32, h: u32, atlas_width: u32, i: int) -> int
    decreases shelves.len() - i,
{
    if i < 0 || i >= shelves.len() {
        -1
    } else if shelves[i].1 == h && shelves[i].2 + w + 1 <= atlas_width {
        i
    } else {
        first_fit(shelves, w, h, atlas_width, i + 1)
    }
}

/// The error for a glyph with a zero dimension.
pub open spec fn is_zero_dimensions_error(r: Result<AtlasRect, RendererError>) -> bool {
    r matches Err(RendererError::InvalidDimensions(m)) && m@ == "Glyph has zero dimensions"@
}

/// The error for a glyph that does not fit.
pub open spec fn is_full_error(r: Result<AtlasRect, RendererError>) -> bool {
    r matches Err(RendererError::AtlasFull(c)) && c == ' '
}

/// Placing a `w` x `h` glyph in `t` stays within `u32` arithmetic.
pub open spec fn insert_fits(t: AtlasView, key: GlyphKey, w: u32, h: u32) -> bool {
    let k = first_fit(t.shelves, w, h, t.width, 0);
    w == 0 || h == 0 || t.glyphs.contains_key(key_code(key)) || w > t.width || {
        &&& forall|i: int|
            0 <= i < t.shelves.len() && (k < 0 || i <= k) && (#[trigger] t.shelves[i]).1 == h ==> t.shelves[i].2 + w
                + 1 <= u32::MAX
        &&& k < 0 ==> t.next_shelf_y + h <= u32::MAX && (t.next_shelf_y + h <= t.height ==> t.next_shelf_y + h + 1
            <= u32::MAX && w + 1 <= u32::MAX)
    }
}

/// `u` and `r` are `t` after inserting glyph `key` of `w` x `h`: an error
/// for a zero dimension; the known place of a glyph already there; the
/// first shelf of height `h` with room; a new shelf below the others; an
/// error when it fits nowhere.
pub open spec fn inserted(t: AtlasView, u: AtlasView, key: GlyphKey, w: u32, h: u32, r: Result<AtlasRect, RendererError>) -> bool {
    let k = first_fit(t.shelves, w, h, t.width, 0);
    if w == 0 || h == 0 {
        is_zero_dimensions_error(r) && u == t
    } else if t.glyphs.contains_key(key_code(key)) {
        r == Ok::<AtlasRect, RendererError>(t.glyphs[key_code(key)]) && u == t
    } else if w > t.width {
        is_full_error(r) && u == t
    } else if k >= 0 {
        let x = t.shelves[k].2;
        let rect = AtlasRect { x, y: t.shelves[k].0, width: w, height: h };
        &&& r == Ok::<AtlasRect, RendererError>(rect)
        &&& u == AtlasView {
            shelves: t.shelves.update(k, (t.shelves[k].0, t.shelves[k].1, (x + w + 1) as u32)),
            glyphs: t.glyphs.insert(key_code(key), rect),
            ..t
        }
    } else if t.next_shelf_y + h > t.height {
        is_full_error(r) && u == t
    } else {
        let rect = AtlasRect { x: 0, y: t.next_shelf_y, width: w, height: h };
        &&& r == Ok::<AtlasRect, RendererError>(rect)
        &&& u == AtlasView {
            shelves: t.shelves.push((t.next_shelf_y, h, (w + 1) as u32)),
            glyphs: t.glyphs.insert(key_code(key), rect),
            next_shelf_y: (t.next_shelf_y + h + 1) as u32,
            ..t
        }
    }
}

/// Where the glyphs of a texture atlas go.
pub struct GlyphAtlas {
    width: u32,
    height: u32,
    shelves: Vec<Shelf>,
    glyphs: HashMap<u128, AtlasRect>,
    next_shelf_y: u32,
}

impl View for GlyphAtlas {
    type V = AtlasView;

    closed spec fn view(&self) -> AtlasView {
        AtlasView {
            width: self.width,
            height: self.height,
            shelves: self.shelves@.map_values(|s: Shelf| (s.y, s.height, s.x_offset)),
            glyphs: self.glyphs@,
            next_shelf_y: self.next_shelf_y,
        }
    }
}

impl GlyphAtlas {
    /// An empty `width` x `height` atlas.
    pub fn new(width: u32, height: u32) -> (a: Self)
        ensures
            a@ == (AtlasView { width, height, shelves: Seq::empty(), glyphs: Map::empty(), next_shelf_y: 0 }),
            a@.wf(),
    {
        let a = GlyphAtlas { width, height, shelves: Vec::new(), glyphs: HashMap::new(), next_shelf_y: 0 };
        assert(a@.glyphs =~= Map::empty());
        assert(a@.shelves =~= Seq::empty());
        a
    }

    /// Width and height of the atlas.
    pub fn dimensions(&self) -> (d: (u32, u32))
        ensures
            d == (self@.width, self@.height),
    {
        (self.width, self.height)
    }

    /// The place of glyph `key`, if it is in the atlas.
    pub fn get_glyph(&self, key: GlyphKey) -> (r: Option<AtlasRect>)
        ensures
            r == (if self@.glyphs.contains_key(key_code(key)) { Some(self@.glyphs[key_code(key)]) } else { None }),
    {
        let code = code_of(&key);
        match self.glyphs.get(&code) {
            Some(rect) => Some(*rect),
            None => None,
        }
    }

    /// Number of glyphs placed.
    pub fn glyph_count(&self) -> (n: usize)
        ensures
            n == self@.glyphs.len(),
    {
        self.glyphs.len()
    }

    /// Size of the texture in bytes (one byte per texel).
    pub fn memory_usage(&self) -> (m: u64)
        requires
            self@.width * self@.height <= u32::MAX,
        ensures
            m == self@.width * self@.height,
    {
        (self.width * self.height) as u64
    }

    /// Forgets every glyph and shelf.
    pub fn clear(&mut self)
        ensures
            final(self)@ == (AtlasView { shelves: Seq::empty(), glyphs: Map::empty(), next_shelf_y: 0, ..old(self)@ }),
            final(self)@.wf(),
    {
        self.shelves.clear();
        self.glyphs.clear();
        self.next_shelf_y = 0;
        assert(self@.glyphs =~= Map::empty());
        assert(self@.shelves =~= Seq::empty());
    }

    /// Finds room for a `width` x `height` glyph: the first shelf of that
    /// height with space (its fill point moves past the glyph), or a new
    /// shelf below the others. Returns the shelf and the glyph's column.
    fn find_or_create_shelf(&mut self, height: u32, width: u32) -> (r: Result<(usize, u32), RendererError>)
        requires
            width > 0,
            height > 0,
            ({
                let t = old(self)@;
                let k = first_fit(t.shelves, width, height, t.width, 0);
                width <= t.width ==> {
                    &&& forall|i: int|
                        0 <= i < t.shelves.len() && (k < 0 || i <= k) && (#[trigger] t.shelves[i]).1 == height
                            ==> t.shelves[i].2 + width + 1 <= u32::MAX
                    &&& k < 0 ==> t.next_shelf_y + height <= u32::MAX && (t.next_shelf_y + height <= t.height
                        ==> t.next_shelf_y + height + 1 <= u32::MAX && width + 1 <= u32::MAX)
                }
            }),
        ensures
            ({
                let t = old(self)@;
                let u = final(self)@;
                let k = first_fit(t.shelves, width, height, t.width, 0);
                if width > t.width {
                    r matches Err(RendererError::AtlasFull(c)) && c == ' ' && u == t
                } else if k >= 0 {
                    &&& r matches Ok((idx, x0)) && idx == k && x0 == t.shelves[k].2
                    &&& u == AtlasView {
                        shelves: t.shelves.update(k, (t.shelves[k].0, t.shelves[k].1, (t.shelves[k].2 + width + 1) as u32)),
                        ..t
                    }
                } else if t.next_shelf_y + height > t.height {
                    r matches Err(RendererError::AtlasFull(c)) && c == ' ' && u == t
                } else {
                    &&& r matches Ok((idx, x0)) && idx == t.shelves.len() && x0 == 0
                    &&& u == AtlasView {
                        shelves: t.shelves.push((t.next_shelf_y, height, (width + 1) as u32)),
                        next_shelf_y: (t.next_shelf_y + height + 1) as u32,
                        ..t
                    }
                }
            }),
    {
        if width > self.width {
            return Err(RendererError::atlas_full(' '));
        }
        let ghost t = self@;
        let n = self.shelves.len();
        let mut i: usize = 0;
        while i < n
            invariant
                n == self.shelves@.len(),
                i <= n,
                self@ == t,
                t == old(self)@,
                width <= t.width,
                first_fit(t.shelves, width, height, t.width, 0) == first_fit(t.shelves, width, height, t.width, i as int),
                forall|j: int|
                    0 <= j < t.shelves.len() && (first_fit(t.shelves, width, height, t.width, 0) < 0 || j <= first_fit(
                        t.shelves,
                        width,
                        height,
                        t.width,
                        0,
                    )) && (#[trigger] t.shelves[j]).1 == height ==> t.shelves[j].2 + width + 1 <= u32::MAX,
            decreases n - i,
        {
            let shelf = self.shelves[i];
            assert(t.shelves[i as int] == (shelf.y, shelf.height, shelf.x_offset));
            proof {
                lemma_first_fit_range(t.shelves, width, height, t.width, i as int);
            }
            if shelf.height == height && shelf.x_offset + width + 1 <= self.width {
                let x = shelf.x_offset;
                self.shelves.set(i, Shelf { y: shelf.y, height: shelf.height, x_offset: shelf.x_offset + width + 1 });
                proof {
                    assert(first_fit(t.shelves, width, height, t.width, i as int) == i);
                    assert(self@.shelves =~= t.shelves.update(
                        i as int,
                        (shelf.y, shelf.height, (shelf.x_offset + width + 1) as u32),
                    ));
                }
                return Ok((i, x));
            }
            i += 1;
        }
        let y = self.next_shelf_y;
        if y + height > self.height {
            return Err(RendererError::atlas_full(' '));
        }
        self.shelves.push(Shelf { y, height, x_offset: width + 1 });
        self.next_shelf_y = self.next_shelf_y + height + 1;
        proof {
            assert(self@.shelves =~= t.shelves.push((y, height, (width + 1) as u32)));
        }
        Ok((self.shelves.len() - 1, 0))
    }

    /// Records glyph `key` at column `x` of shelf `shelf_index`, moving the
    /// shelf's fill point past it.
    fn place_glyph(&mut self, key: GlyphKey, width: u32, height: u32, shelf_index: usize, x: u32) -> (r: Result<
        AtlasRect,
        RendererError,
    >)
        requires
            shelf_index < old(self)@.shelves.len(),
            x + width + 1 <= u32::MAX,
        ensures
            ({
                let t = old(self)@;
                let s = t.shelves[shelf_index as int];
                let rect = AtlasRect { x, y: s.0, width, height };
                &&& r == Ok::<AtlasRect, RendererError>(rect)
                &&& final(self)@ == AtlasView {
                    shelves: t.shelves.update(shelf_index as int, (s.0, s.1, (x + width + 1) as u32)),
                    glyphs: t.glyphs.insert(key_code(key), rect),
                    ..t
                }
            }),
    {
        let ghost t = self@;
        let shelf = self.shelves[shelf_index];
        let y = shelf.y;
        self.shelves.set(shelf_index, Shelf { y: shelf.y, height: shelf.height, x_offset: x + width + 1 });
        let rect = AtlasRect::new(x, y, width, height);
        let code = code_of(&key);
        self.glyphs.insert(code, rect);
        proof {
            assert(self@.shelves =~= t.shelves.update(shelf_index as int, (shelf.y, shelf.height, (x + width + 1) as u32)));
            assert(self@.glyphs =~= t.glyphs.insert(key_code(key), rect));
        }
        Ok(rect)
    }

    /// Places glyph `key` of `width` x `height` (see [`inserted`]); the
    /// caller copies its bitmap to the returned place.
    pub fn insert_glyph(&mut self, key: GlyphKey, width: u32, height: u32) -> (r: Result<AtlasRect, RendererError>)
        requires
            old(self)@.wf(),
            insert_fits(old(self)@, key, width, height),
        ensures
            inserted(old(self)@, final(self)@, key, width, height, r),
            final(self)@.wf(),
    {
        if width == 0 || height == 0 {
            return Err(RendererError::invalid_dimensions("Glyph has zero dimensions"));
        }
        match self.get_glyph(key) {
            Some(rect) => {
                return Ok(rect);
            },
            None => {},
        }
        let ghost t = self@;
        let (shelf_index, x) = match self.find_or_create_shelf(height, width) {
            Ok(p) => p,
            Err(e) => {
                return Err(e);
            },
        };
        let ghost mid = self@;
        proof {
            lemma_first_fit_range(t.shelves, width, height, t.width, 0);
            let k = first_fit(t.shelves, width, height, t.width, 0);
            if k >= 0 {
                assert(shelf_index == k && x == t.shelves[k].2);
                assert(mid.shelves[k] == (t.shelves[k].0, t.shelves[k].1, (x + width + 1) as u32));
            } else {
                assert(shelf_index == t.shelves.len() && x == 0);
                assert(mid.shelves[shelf_index as int] == (t.next_shelf_y, height, (width + 1) as u32));
            }
        }
        let r = self.place_glyph(key, width, height, shelf_index, x);
        proof {
            let k = first_fit(t.shelves, width, height, t.width, 0);
            if k >= 0 {
                assert(self@.shelves =~= t.shelves.update(k, (t.shelves[k].0, t.shelves[k].1, (x + width + 1) as u32)));
            } else {
                assert(self@.shelves =~= t.shelves.push((t.next_shelf_y, height, (width + 1) as u32)));
            }
            lemma_insert_keeps_layout(t, self@, key, width, height, r);
        }
        r
    }
}

/// Glyph `key` of `w` x `h` is new to `t` and fits on no shelf, existing
/// or new: inserting it reports a full atlas.
pub open spec fn no_room(t: AtlasView, key: GlyphKey, w: u32, h: u32) -> bool {
    &&& w != 0 && h != 0
    &&& !t.glyphs.contains_key(key_code(key))
    &&& (w > t.width || (first_fit(t.shelves, w, h, t.width, 0) < 0 && t.next_shelf_y + h > t.height))
}

/// An insertion reports a full atlas exactly when there is no room.
pub proof fn lemma_full_iff_no_room(
    t: AtlasView,
    u: AtlasView,
    key: GlyphKey,
    w: u32,
    h: u32,
    r: Result<AtlasRect, RendererError>,
)
    requires
        inserted(t, u, key, w, h, r),
    ensures
        (r matches Err(RendererError::AtlasFull(_))) <==> no_room(t, key, w, h),
{
}

/// A glyph whose dimensions, added to the atlas's with a little spacing,
/// stay within `u32` can be inserted without overflow.
pub proof fn lemma_insert_fits_when_small(t: AtlasView, key: GlyphKey, w: u32, h: u32)
    requires
        t.wf(),
        t.width + w + 2 <= u32::MAX,
        t.height + h + 2 <= u32::MAX,
    ensures
        insert_fits(t, key, w, h),
{
    assert forall|i: int| 0 <= i < t.shelves.len() implies (#[trigger] t.shelves[i]).2 + w + 1 <= u32::MAX by {
        assert(t.shelves[i].2 <= t.width + 1);
    }
}

/// A non-negative result of [`first_fit`] is a fitting shelf.
proof fn lemma_first_fit_range(shelves: Seq<(u32, u32, u32)>, w: u32, h: u32, atlas_width: u32, i: int)
    ensures
        first_fit(shelves, w, h, atlas_width, i) >= 0 ==> ({
            let k = first_fit(shelves, w, h, atlas_width, i);
            &&& i <= k < shelves.len()
            &&& shelves[k].1 == h
            &&& shelves[k].2 + w + 1 <= atlas_width
        }),
    decreases shelves.len() - i,
{
    if 0 <= i < shelves.len() && !(shelves[i].1 == h && shelves[i].2 + w + 1 <= atlas_width) {
        lemma_first_fit_range(shelves, w, h, atlas_width, i + 1);
    }
}

/// Inserting a glyph keeps the layout sound: every glyph stays on a shelf
/// inside the atlas, and no two glyphs overlap.
pub proof fn lemma_insert_keeps_layout(
    t: AtlasView,
    u: AtlasView,
    key: GlyphKey,
    w: u32,
    h: u32,
    r: Result<AtlasRect, RendererError>,
)
    requires
        t.wf(),
        insert_fits(t, key, w, h),
        inserted(t, u, key, w, h, r),
    ensures
        u.wf(),
{
    let k = first_fit(t.shelves, w, h, t.width, 0);
    lemma_first_fit_range(t.shelves, w, h, t.width, 0);
    if w == 0 || h == 0 || t.glyphs.contains_key(key_code(key)) || w > t.width {
    } else if k >= 0 {
        let rect = AtlasRect { x: t.shelves[k].2, y: t.shelves[k].0, width: w, height: h };
        let c = key_code(key);
        assert forall|i: int| 0 <= i < u.shelves.len() implies (#[trigger] u.shelves[i]).0 + u.shelves[i].1 <= u.height
            && u.shelves[i].0 + u.shelves[i].1 < u.next_shelf_y && u.shelves[i].2 <= u.width + 1 by {
            assert(t.shelves[i].0 + t.shelves[i].1 <= t.height);
        }
        assert forall|i: int, j: int| 0 <= i < j < u.shelves.len() implies (#[trigger] u.shelves[i]).0
            + u.shelves[i].1 < (#[trigger] u.shelves[j]).0 by {
            assert(t.shelves[i].0 + t.shelves[i].1 < t.shelves[j].0);
        }
        assert forall|g: u128| #[trigger] u.glyphs.contains_key(g) implies u.placed(u.glyphs[g]) by {
            if g == c {
                assert(u.shelves[k].0 == rect.y && u.shelves[k].1 == rect.height && rect.x + rect.width + 1 <= u.shelves[k].2);
                assert(t.shelves[k].0 + t.shelves[k].1 <= t.height);
            } else {
                let gr = t.glyphs[g];
                assert(t.placed(gr));
                let j = choose|j: int|
                    0 <= j < t.shelves.len() && (#[trigger] t.shelves[j]).0 == gr.y && t.shelves[j].1 == gr.height
                        && gr.x + gr.width + 1 <= t.shelves[j].2;
                assert(u.shelves[j].0 == gr.y && u.shelves[j].1 == gr.height && gr.x + gr.width + 1 <= u.shelves[j].2);
            }
        }
        assert forall|g1: u128, g2: u128|
            #![trigger u.glyphs[g1], u.glyphs[g2]]
            u.glyphs.contains_key(g1) && u.glyphs.contains_key(g2) && g1 != g2 implies u.glyphs[g1].disjoint(
                u.glyphs[g2],
            ) by {
            if g1 == c || g2 == c {
                let other = if g1 == c { g2 } else { g1 };
                let gr = t.glyphs[other];
                assert(t.placed(gr));
                let j = choose|j: int|
                    0 <= j < t.shelves.len() && (#[trigger] t.shelves[j]).0 == gr.y && t.shelves[j].1 == gr.height
                        && gr.x + gr.width + 1 <= t.shelves[j].2;
                if j < k {
                    assert(t.shelves[j].0 + t.shelves[j].1 < t.shelves[k].0);
                } else if j > k {
                    assert(t.shelves[k].0 + t.shelves[k].1 < t.shelves[j].0);
                }
                assert(gr.disjoint(rect) && rect.disjoint(gr));
            } else {
                assert(t.glyphs[g1].disjoint(t.glyphs[g2]));
            }
        }
    } else if t.next_shelf_y + h > t.height {
    } else {
        let rect = AtlasRect { x: 0, y: t.next_shelf_y, width: w, height: h };
        let c = key_code(key);
        let n = t.shelves.len() as int;
        assert forall|i: int| 0 <= i < u.shelves.len() implies (#[trigger] u.shelves[i]).0 + u.shelves[i].1 <= u.height
            && u.shelves[i].0 + u.shelves[i].1 < u.next_shelf_y && u.shelves[i].2 <= u.width + 1 by {
            if i < n {
                assert(u.shelves[i] == t.shelves[i]);
            }
        }
        assert forall|i: int, j: int| 0 <= i < j < u.shelves.len() implies (#[trigger] u.shelves[i]).0
            + u.shelves[i].1 < (#[trigger] u.shelves[j]).0 by {
            assert(u.shelves[i] == t.shelves[i]);
            if j < n {
                assert(u.shelves[j] == t.shelves[j]);
            }
        }
        assert forall|g: u128| #[trigger] u.glyphs.contains_key(g) implies u.placed(u.glyphs[g]) by {
            if g == c {
                assert(u.shelves[n] == (t.next_shelf_y, h, (w + 1) as u32));
            } else {
                let gr = t.glyphs[g];
                assert(t.placed(gr));
                let j = choose|j: int|
                    0 <= j < t.shelves.len() && (#[trigger] t.shelves[j]).0 == gr.y && t.shelves[j].1 == gr.height
                        && gr.x + gr.width + 1 <= t.shelves[j].2;
                assert(u.shelves[j] == t.shelves[j]);
            }
        }
        assert forall|g1: u128, g2: u128|
            #![trigger u.glyphs[g1], u.glyphs[g2]]
            u.glyphs.contains_key(g1) && u.glyphs.contains_key(g2) && g1 != g2 implies u.glyphs[g1].disjoint(
                u.glyphs[g2],
            ) by {
            if g1 == c || g2 == c {
                let other = if g1 == c { g2 } else { g1 };
                let gr = t.glyphs[other];
                assert(t.placed(gr));
                let j = choose|j: int|
                    0 <= j < t.shelves.len() && (#[trigger] t.shelves[j]).0 == gr.y && t.shelves[j].1 == gr.height
                        && gr.x + gr.width + 1 <= t.shelves[j].2;
                assert(t.shelves[j].0 + t.shelves[j].1 < t.next_shelf_y);
                assert(gr.disjoint(rect) && rect.disjoint(gr));
            } else {
                assert(t.glyphs[g1].disjoint(t.glyphs[g2]));
            }
        }
    }
}

/// Two different glyphs in a sound layout never overlap, and both lie
/// inside the atlas.
pub proof fn lemma_glyphs_disjoint(t: AtlasView, a: GlyphKey, b: GlyphKey)
    requires
        t.wf(),
        a != b,
        t.glyphs.contains_key(key_code(a)),
        t.glyphs.contains_key(key_code(b)),
    ensures
        t.glyphs[key_code(a)].disjoint(t.glyphs[key_code(b)]),
        t.glyphs[key_code(a)].x + t.glyphs[key_code(a)].width <= t.width,
        t.glyphs[key_code(a)].y + t.glyphs[key_code(a)].height <= t.height,
{
    lemma_key_code_injective(a, b);
    assert(t.placed(t.glyphs[key_code(a)]));
}

/// A glyph just placed is found again at the place returned.
pub proof fn lemma_insert_then_get(
    t: AtlasView,
    u: AtlasView,
    key: GlyphKey,
    w: u32,
    h: u32,
    r: Result<AtlasRect, RendererError>,
)
    requires
        inserted(t, u, key, w, h, r),
        r is Ok,
    ensures
        u.glyphs.contains_key(key_code(key)),
        u.glyphs[key_code(key)] == r->Ok_0,
{
}

} // verus!
