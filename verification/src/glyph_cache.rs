//! Glyph cache: which glyphs sit in the atlas ready to draw, with their
//! metrics, evicted least recently used first.
//!
//! Rasterizing is the font engine's job. A lookup either finds the glyph
//! (and marks it most recently used) or reports a miss; the caller then
//! rasterizes the glyph and hands its size and metrics to [`GlyphCache::insert`],
//! which places it in the atlas, starting over with an empty atlas when it
//! is full.

use vstd::prelude::*;
use std::collections::{HashMap, VecDeque};
use crate::atlas::{
    inserted, insert_fits, key_code, lemma_full_iff_no_room, lemma_insert_fits_when_small, no_room, AtlasRect,
    AtlasView, GlyphAtlas, GlyphKey,
};
use crate::font::{FontStyle, FontSlant, WEIGHT_BOLD};
use crate::render::FontSize;
use crate::render_error::RendererError;

verus! {

broadcast use vstd::std_specs::hash::group_hash_axioms;

/// A cached glyph: its place in the atlas and its metrics.
#[derive(Debug, Clone, Copy)]
pub struct CachedGlyph<A> {
    pub rect: AtlasRect,
    pub advance_width: A,
}

/// Mathematical picture of a [`GlyphCache`]: the atlas, the cached glyphs
/// by key code, and their keys from least to most recently used.
pub struct GlyphCacheView<A> {
    pub atlas: AtlasView,
    pub cache: Map<u128, CachedGlyph<A>>,
    pub order: Seq<u128>,
    pub max_entries: nat,
    pub auto_resize: bool,
    pub hits: nat,
    pub misses: nat,
}

/// The most glyphs the cache keeps: its limit, or one glyph under a limit
/// of 0.
pub open spec fn capacity(max_entries: nat) -> nat {
    if max_entries == 0 {
        1
    } else {
        max_entries
    }
}

impl<A> GlyphCacheView<A> {
    /// The atlas is sound; the recency order lists each cached key once;
    /// every cached glyph is where the atlas has it; the cache holds at most
    /// its capacity; the access counts fit in `u64`.
    pub open spec fn wf(self) -> bool {
        &&& self.atlas.wf()
        &&& self.order.no_duplicates()
        &&& self.cache.dom() == self.order.to_set()
        &&& forall|k: u128| #[trigger]
            self.cache.contains_key(k) ==> self.atlas.glyphs.contains_key(k) && self.cache[k].rect
                == self.atlas.glyphs[k]
        &&& self.order.len() <= capacity(self.max_entries)
        &&& self.hits + self.misses <= u64::MAX
    }

    /// The view with the least recently used glyph evicted, if any.
    pub open spec fn evict_one(self) -> Self {
        if self.order.len() == 0 {
            self
        } else {
            GlyphCacheView { cache: self.cache.remove(self.order[0]), order: self.order.drop_first(), ..self }
        }
    }
}

/// The atlas key of character `ch` at `size` in `style` (font 1).
pub open spec fn glyph_key(ch: char, size: FontSize, style: FontStyle) -> GlyphKey {
    GlyphKey {
        font_id: 1,
        glyph_id: ch as u32,
        size: size.0,
        style: ((if style.weight == WEIGHT_BOLD { 1int } else { 0int }) + (if style.style == FontSlant::Italic {
            2int
        } else {
            0int
        })) as u8,
    }
}

/// The atlas's part of an insertion result.
pub open spec fn atlas_part<A>(r: Result<CachedGlyph<A>, RendererError>) -> Result<AtlasRect, RendererError> {
    match r {
        Ok(c) => Ok(c.rect),
        Err(e) => Err(e),
    }
}

/// The atlas `t` with every glyph and shelf removed.
pub open spec fn emptied(t: AtlasView) -> AtlasView {
    AtlasView { shelves: Seq::empty(), glyphs: Map::empty(), next_shelf_y: 0, ..t }
}

/// `u` and `r` are `t` after looking up `ch` at `size` in `style`: a hit
/// returns the cached glyph, counts a hit and moves the glyph to the most
/// recently used end; a miss counts a miss and changes nothing else.
pub open spec fn looked_up<A>(
    t: GlyphCacheView<A>,
    u: GlyphCacheView<A>,
    ch: char,
    size: FontSize,
    style: FontStyle,
    r: Option<CachedGlyph<A>>,
) -> bool {
    let code = key_code(glyph_key(ch, size, style));
    if t.cache.contains_key(code) {
        &&& r == Some(t.cache[code])
        &&& u == GlyphCacheView { hits: t.hits + 1, order: u.order, ..t }
        &&& exists|i: int| 0 <= i < t.order.len() && t.order[i] == code && u.order == t.order.remove(i).push(code)
    } else {
        r is None && u == GlyphCacheView { misses: t.misses + 1, ..t }
    }
}

/// `u` and `r` are `t` after inserting the rasterized glyph `ch` at `size`
/// in `style`, `w` x `h` with metrics `adv`: a glyph already cached is
/// returned unchanged; otherwise a full cache evicts its least recently
/// used glyph, and the glyph is placed in the atlas (an emptied one, the
/// cache emptied too, when the atlas has no room) and cached as the most
/// recently used.
pub open spec fn cache_inserted<A>(
    t: GlyphCacheView<A>,
    u: GlyphCacheView<A>,
    ch: char,
    size: FontSize,
    style: FontStyle,
    w: u32,
    h: u32,
    adv: A,
    r: Result<CachedGlyph<A>, RendererError>,
) -> bool {
    let key = glyph_key(ch, size, style);
    let code = key_code(key);
    let s = if t.order.len() >= t.max_entries { t.evict_one() } else { t };
    if t.cache.contains_key(code) {
        r == Ok::<CachedGlyph<A>, RendererError>(t.cache[code]) && u == t
    } else if !no_room(s.atlas, key, w, h) {
        &&& inserted(s.atlas, u.atlas, key, w, h, atlas_part(r))
        &&& u == GlyphCacheView { atlas: u.atlas, cache: u.cache, order: u.order, ..s }
        &&& r matches Ok(c) ==> c.advance_width == adv && u.cache == s.cache.insert(code, c) && u.order == s.order.push(
            code,
        )
        &&& r is Err ==> u.cache == s.cache && u.order == s.order
    } else {
        &&& inserted(emptied(s.atlas), u.atlas, key, w, h, atlas_part(r))
        &&& u == GlyphCacheView { atlas: u.atlas, cache: u.cache, order: u.order, ..s }
        &&& r matches Ok(c) ==> c.advance_width == adv && u.cache == Map::<u128, CachedGlyph<A>>::empty().insert(
            code,
            c,
        ) && u.order == seq![code]
        &&& r is Err ==> u.cache == Map::<u128, CachedGlyph<A>>::empty() && u.order == Seq::<u128>::empty()
    }
}

/// Caches the glyphs placed in a [`GlyphAtlas`].
pub struct GlyphCache<A> {
    atlas: GlyphAtlas,
    cache: HashMap<u128, CachedGlyph<A>>,
    access_order: VecDeque<u128>,
    max_entries: usize,
    auto_resize: bool,
    hits: u64,
    misses: u64,
}

impl<A> View for GlyphCache<A> {
    type V = GlyphCacheView<A>;

    closed spec fn view(&self) -> GlyphCacheView<A> {
        GlyphCacheView {
            atlas: self.atlas@,
            cache: self.cache@,
            order: self.access_order@,
            max_entries: self.max_entries as nat,
            auto_resize: self.auto_resize,
            hits: self.hits as nat,
            misses: self.misses as nat,
        }
    }
}

/// The key code of a glyph key, computed.
fn code_of_key(k: &GlyphKey) -> (c: u128)
    ensures
        c == key_code(*k),
{
    (k.font_id as u128) * 0x1_0000_0000_0000_0000u128 + (k.glyph_id as u128) * 0x1_0000_0000u128 + (k.size as u128)
        * 0x1_0000u128 + (k.style as u128)
}

/// Index of `x` in `s`, which holds it.
fn position_of(s: &VecDeque<u128>, x: u128) -> (i: usize)
    requires
        s@.contains(x),
    ensures
        i < s@.len(),
        s@[i as int] == x,
{
    let mut i: usize = 0;
    while i < s.len()
        invariant
            s@.contains(x),
            i <= s@.len(),
            forall|j: int| 0 <= j < i ==> s@[j] != x,
        decreases s@.len() - i,
    {
        if s[i] == x {
            return i;
        }
        i += 1;
    }
    proof {
        let j = choose|j: int| 0 <= j < s@.len() && s@[j] == x;
        assert(s@[j] == x);
    }
    0
}

impl<A: Copy> GlyphCache<A> {
    /// A cache over `atlas` holding up to 1024 glyphs.
    pub fn new(atlas: GlyphAtlas) -> (r: Result<Self, RendererError>)
        requires
            atlas@.wf(),
        ensures
            r matches Ok(c) && c@ == (GlyphCacheView::<A> {
                atlas: atlas@,
                cache: Map::empty(),
                order: Seq::empty(),
                max_entries: 1024,
                auto_resize: true,
                hits: 0,
                misses: 0,
            }),
            r matches Ok(c) && c@.wf(),
    {
        Self::with_max_entries(atlas, 1024)
    }

    /// A cache over `atlas` holding up to `max_entries` glyphs (one when
    /// `max_entries` is 0).
    pub fn with_max_entries(atlas: GlyphAtlas, max_entries: usize) -> (r: Result<Self, RendererError>)
        requires
            atlas@.wf(),
        ensures
            r matches Ok(c) && c@ == (GlyphCacheView::<A> {
                atlas: atlas@,
                cache: Map::empty(),
                order: Seq::empty(),
                max_entries: max_entries as nat,
                auto_resize: true,
                hits: 0,
                misses: 0,
            }),
            r matches Ok(c) && c@.wf(),
    {
        let c = GlyphCache {
            atlas,
            cache: HashMap::new(),
            access_order: VecDeque::new(),
            max_entries,
            auto_resize: true,
            hits: 0,
            misses: 0,
        };
        proof {
            assert(c@.cache.dom() =~= c@.order.to_set());
        }
        Ok(c)
    }

    /// Sets whether a full atlas may be enlarged before it is cleared.
    pub fn set_auto_resize(&mut self, enabled: bool)
        ensures
            final(self)@ == (GlyphCacheView { auto_resize: enabled, ..old(self)@ }),
    {
        self.auto_resize = enabled;
    }

    /// Looks up `ch` at `size` in `style`. A hit counts as one, makes the
    /// glyph the most recently used and returns it; a miss counts as one
    /// and returns `None` (the caller rasterizes the glyph and inserts it).
    pub fn lookup(&mut self, ch: char, size: FontSize, style: FontStyle) -> (r: Option<CachedGlyph<A>>)
        requires
            old(self)@.wf(),
            old(self)@.hits + old(self)@.misses < u64::MAX,
        ensures
            final(self)@.wf(),
            looked_up(old(self)@, final(self)@, ch, size, style, r),
    {
        let key = GlyphKey::new(1, ch as u32, size.0, style.is_bold(), style.is_italic());
        let code = code_of_key(&key);
        let ghost t = self@;
        match self.cache.get(&code) {
            Some(c) => {
                let cached = *c;
                self.hits = self.hits + 1;
                proof {
                    assert(t.order.to_set().contains(code));
                }
                let pos = position_of(&self.access_order, code);
                self.access_order.remove(pos);
                self.access_order.push_back(code);
                proof {
                    let o = t.order.remove(pos as int).push(code);
                    assert(self@.order == o);
                    assert(o.no_duplicates()) by {
                        assert forall|a: int, b: int| 0 <= a < b < o.len() implies o[a] != o[b] by {
                            if b == o.len() - 1 {
                                if a < pos {
                                    assert(o[a] == t.order[a]);
                                } else {
                                    assert(o[a] == t.order[a + 1]);
                                }
                            } else {
                                if a < pos {
                                    assert(o[a] == t.order[a]);
                                } else {
                                    assert(o[a] == t.order[a + 1]);
                                }
                                if b < pos {
                                    assert(o[b] == t.order[b]);
                                } else {
                                    assert(o[b] == t.order[b + 1]);
                                }
                            }
                        }
                    }
                    assert(o.to_set() =~= t.order.to_set()) by {
                        assert forall|k: u128| t.order.to_set().contains(k) implies o.to_set().contains(k) by {
                            let j = choose|j: int| 0 <= j < t.order.len() && t.order[j] == k;
                            if j < pos {
                                assert(o[j] == k);
                            } else if j == pos {
                                assert(o[o.len() - 1] == k);
                            } else {
                                assert(o[j - 1] == k);
                            }
                        }
                        assert forall|k: u128| o.to_set().contains(k) implies t.order.to_set().contains(k) by {
                            let j = choose|j: int| 0 <= j < o.len() && o[j] == k;
                            if j == o.len() - 1 {
                                assert(t.order[pos as int] == k);
                            } else if j < pos {
                                assert(t.order[j] == k);
                            } else {
                                assert(t.order[j + 1] == k);
                            }
                        }
                    }
                }
                Some(cached)
            },
            None => {
                self.misses = self.misses + 1;
                None
            },
        }
    }

    /// Evicts the `count` least recently used glyphs (fewer when the cache
    /// holds fewer); they stay in the atlas.
    fn evict_lru(&mut self, count: usize)
        requires
            old(self)@.wf(),
            count <= 1,
        ensures
            final(self)@.wf(),
            final(self)@ == (if count == 0 { old(self)@ } else { old(self)@.evict_one() }),
    {
        let mut i: usize = 0;
        while i < count
            invariant
                count <= 1,
                i <= count,
                self@.wf(),
                self@ == (if i == 0 { old(self)@ } else { old(self)@.evict_one() }),
            decreases count - i,
        {
            let ghost t = self@;
            if let Some(key) = self.access_order.pop_front() {
                self.cache.remove(&key);
                proof {
                    assert(self@.order =~= t.order.drop_first());
                    assert(self@.cache =~= t.cache.remove(key));
                    assert(self@.cache.dom() =~= self@.order.to_set()) by {
                        assert forall|k: u128| self@.order.to_set().contains(k) implies self@.cache.dom().contains(k) by {
                            let j = choose|j: int| 0 <= j < self@.order.len() && self@.order[j] == k;
                            assert(t.order[j + 1] == k);
                            assert(t.order.to_set().contains(k));
                        }
                        assert forall|k: u128| self@.cache.dom().contains(k) implies self@.order.to_set().contains(k) by {
                            assert(t.order.to_set().contains(k));
                            let j = choose|j: int| 0 <= j < t.order.len() && t.order[j] == k;
                            assert(j != 0);
                            assert(self@.order[j - 1] == k);
                        }
                    }
                }
            }
            i += 1;
        }
    }

    /// Puts the rasterized glyph `ch` at `size` in `style`, `width` x
    /// `height` with metrics `advance_width`, in the atlas and the cache as
    /// the most recently used glyph. A glyph already cached is returned as
    /// it is. A full cache first evicts its least recently used glyph. When
    /// the atlas has no room, the cache and the atlas are emptied and the
    /// glyph is placed anew.
    pub fn insert(
        &mut self,
        ch: char,
        size: FontSize,
        style: FontStyle,
        width: u32,
        height: u32,
        advance_width: A,
    ) -> (r: Result<CachedGlyph<A>, RendererError>)
        requires
            old(self)@.wf(),
            old(self)@.atlas.width + width + 2 <= u32::MAX,
            old(self)@.atlas.height + height + 2 <= u32::MAX,
        ensures
            final(self)@.wf(),
            cache_inserted(old(self)@, final(self)@, ch, size, style, width, height, advance_width, r),
    {
        let key = GlyphKey::new(1, ch as u32, size.0, style.is_bold(), style.is_italic());
        let code = code_of_key(&key);
        match self.cache.get(&code) {
            Some(c) => {
                return Ok(*c);
            },
            None => {},
        }
        proof {
            self@.order.unique_seq_to_set();
        }
        if self.cache.len() >= self.max_entries {
            self.evict_lru(1);
        }
        let ghost s = self@;
        proof {
            lemma_insert_fits_when_small(s.atlas, key, width, height);
        }
        let first = self.atlas.insert_glyph(key, width, height);
        proof {
            lemma_full_iff_no_room(s.atlas, self@.atlas, key, width, height, first);
        }
        match first {
            Ok(rect) => {
                let cached = CachedGlyph { rect, advance_width };
                self.record(code, cached);
                Ok(cached)
            },
            Err(RendererError::AtlasFull(_)) => {
                self.cache.clear();
                self.access_order.clear();
                self.atlas.clear();
                proof {
                    assert(self@.cache.dom() =~= self@.order.to_set());
                    lemma_insert_fits_when_small(self@.atlas, key, width, height);
                }
                let second = self.atlas.insert_glyph(key, width, height);
                match second {
                    Ok(rect) => {
                        let cached = CachedGlyph { rect, advance_width };
                        self.record(code, cached);
                        proof {
                            assert(self@.order =~= seq![code]);
                        }
                        Ok(cached)
                    },
                    Err(e) => Err(e),
                }
            },
            Err(e) => Err(e),
        }
    }

    /// Enters glyph `code`, just placed in the atlas at `cached.rect`, as
    /// the most recently used.
    fn record(&mut self, code: u128, cached: CachedGlyph<A>)
        requires
            old(self)@.atlas.wf(),
            old(self)@.order.no_duplicates(),
            old(self)@.cache.dom() == old(self)@.order.to_set(),
            forall|k: u128| #[trigger]
                old(self)@.cache.contains_key(k) && k != code ==> old(self)@.atlas.glyphs.contains_key(k)
                    && old(self)@.cache[k].rect == old(self)@.atlas.glyphs[k],
            !old(self)@.cache.contains_key(code),
            old(self)@.atlas.glyphs.contains_key(code),
            old(self)@.atlas.glyphs[code] == cached.rect,
            old(self)@.order.len() < capacity(old(self)@.max_entries),
            old(self)@.hits + old(self)@.misses <= u64::MAX,
        ensures
            final(self)@.wf(),
            final(self)@ == (GlyphCacheView {
                cache: old(self)@.cache.insert(code, cached),
                order: old(self)@.order.push(code),
                ..old(self)@
            }),
    {
        let ghost t = self@;
        self.cache.insert(code, cached);
        self.access_order.push_back(code);
        proof {
            assert(self@.order.no_duplicates()) by {
                assert(!t.order.to_set().contains(code));
                assert forall|a: int, b: int| 0 <= a < b < self@.order.len() implies self@.order[a]
                    != self@.order[b] by {
                    if b == t.order.len() {
                        assert(t.order.to_set().contains(t.order[a]));
                    }
                }
            }
            assert(self@.cache.dom() =~= self@.order.to_set()) by {
                assert forall|k: u128| self@.order.to_set().contains(k) implies self@.cache.dom().contains(k) by {
                    let j = choose|j: int| 0 <= j < self@.order.len() && self@.order[j] == k;
                    if j < t.order.len() {
                        assert(t.order.to_set().contains(k));
                    }
                }
                assert forall|k: u128| self@.cache.dom().contains(k) implies self@.order.to_set().contains(k) by {
                    if k != code {
                        assert(t.order.to_set().contains(k));
                        let j = choose|j: int| 0 <= j < t.order.len() && t.order[j] == k;
                        assert(self@.order[j] == k);
                    } else {
                        assert(self@.order[t.order.len() as int] == k);
                    }
                }
            }
        }
    }

    /// Empties the cache and the atlas.
    pub fn clear(&mut self)
        requires
            old(self)@.wf(),
        ensures
            final(self)@.wf(),
            final(self)@ == (GlyphCacheView {
                atlas: emptied(old(self)@.atlas),
                cache: Map::empty(),
                order: Seq::empty(),
                ..old(self)@
            }),
    {
        self.cache.clear();
        self.access_order.clear();
        self.atlas.clear();
        proof {
            assert(self@.cache.dom() =~= self@.order.to_set());
        }
    }

    /// Number of cached glyphs.
    pub fn len(&self) -> (n: usize)
        requires
            self@.wf(),
        ensures
            n == self@.cache.len(),
            n == self@.order.len(),
    {
        proof {
            self@.order.unique_seq_to_set();
        }
        self.cache.len()
    }

    /// No glyph is cached.
    pub fn is_empty(&self) -> (b: bool)
        requires
            self@.wf(),
        ensures
            b == (self@.cache.len() == 0),
    {
        self.len() == 0
    }

    /// The limit on cached glyphs.
    pub fn max_entries(&self) -> (m: usize)
        ensures
            m == self@.max_entries,
    {
        self.max_entries
    }

    /// The atlas the glyphs are placed in.
    pub fn atlas(&self) -> (a: &GlyphAtlas)
        ensures
            a@ == self@.atlas,
    {
        &self.atlas
    }

    /// Numbers of hits and misses so far.
    pub fn access_counts(&self) -> (c: (u64, u64))
        ensures
            c.0 == self@.hits,
            c.1 == self@.misses,
    {
        (self.hits, self.misses)
    }

    /// Number of lookups so far (hits and misses).
    pub fn total_accesses(&self) -> (n: u64)
        requires
            self@.wf(),
        ensures
            n == self@.hits + self@.misses,
    {
        self.hits + self.misses
    }
}


/// The cache never holds more glyphs than its capacity.
pub proof fn lemma_cache_within_capacity<A>(v: GlyphCacheView<A>)
    requires
        v.wf(),
    ensures
        v.cache.len() <= capacity(v.max_entries),
{
    v.order.unique_seq_to_set();
}

/// Glyphs are cached under keys that tell apart every character, size and
/// style: two lookups share a cache entry only when they ask for the same
/// character at the same size, both bold or both not, and both italic or
/// both upright.
pub proof fn lemma_glyph_keys_distinct(
    c1: char,
    s1: FontSize,
    st1: FontStyle,
    c2: char,
    s2: FontSize,
    st2: FontStyle,
)
    ensures
        key_code(glyph_key(c1, s1, st1)) == key_code(glyph_key(c2, s2, st2)) ==> {
            &&& c1 == c2
            &&& s1 == s2
            &&& (st1.weight == WEIGHT_BOLD <==> st2.weight == WEIGHT_BOLD)
            &&& (st1.style == FontSlant::Italic <==> st2.style == FontSlant::Italic)
        },
{
    let a = glyph_key(c1, s1, st1);
    let b = glyph_key(c2, s2, st2);
    if key_code(a) == key_code(b) {
        assert(key_code(a) == a.font_id * 0x1_0000_0000_0000_0000 + a.glyph_id * 0x1_0000_0000 + a.size * 0x1_0000
            + a.style);
        assert(key_code(b) == b.font_id * 0x1_0000_0000_0000_0000 + b.glyph_id * 0x1_0000_0000 + b.size * 0x1_0000
            + b.style);
        assert(a.glyph_id == b.glyph_id && a.size == b.size && a.style == b.style);
        assert((c1 as u32) == (c2 as u32));
    }
}

/// A lookup never finds a glyph that was inserted for another character,
/// size or style: after inserting `ch` at `size` in `style`, a glyph the
/// cache did not hold before and that differs in character, size, boldness
/// or slant is still a miss.
pub proof fn lemma_insert_keeps_other_styles_apart<A>(
    t: GlyphCacheView<A>,
    u: GlyphCacheView<A>,
    v: GlyphCacheView<A>,
    ch: char,
    size: FontSize,
    style: FontStyle,
    w: u32,
    h: u32,
    adv: A,
    r1: Result<CachedGlyph<A>, RendererError>,
    ch2: char,
    size2: FontSize,
    style2: FontStyle,
    r2: Option<CachedGlyph<A>>,
)
    requires
        cache_inserted(t, u, ch, size, style, w, h, adv, r1),
        !t.cache.contains_key(key_code(glyph_key(ch2, size2, style2))),
        ch != ch2 || size != size2 || (style.weight == WEIGHT_BOLD) != (style2.weight == WEIGHT_BOLD) || (style.style
            == FontSlant::Italic) != (style2.style == FontSlant::Italic),
        looked_up(u, v, ch2, size2, style2, r2),
    ensures
        r2 is None,
{
    lemma_glyph_keys_distinct(ch, size, style, ch2, size2, style2);
    let code2 = key_code(glyph_key(ch2, size2, style2));
    let s = if t.order.len() >= t.max_entries { t.evict_one() } else { t };
    assert(!s.cache.contains_key(code2));
    assert(!u.cache.contains_key(code2));
}

/// Getting a glyph counts exactly one access: a lookup counts one, hit or
/// miss, and leaves the cached glyphs as they were; inserting the glyph
/// after a miss counts none.
pub proof fn lemma_one_access_per_glyph<A>(
    t: GlyphCacheView<A>,
    u: GlyphCacheView<A>,
    v: GlyphCacheView<A>,
    ch: char,
    size: FontSize,
    style: FontStyle,
    w: u32,
    h: u32,
    adv: A,
    r1: Option<CachedGlyph<A>>,
    r2: Result<CachedGlyph<A>, RendererError>,
)
    requires
        looked_up(t, u, ch, size, style, r1),
        cache_inserted(u, v, ch, size, style, w, h, adv, r2),
    ensures
        u.hits + u.misses == t.hits + t.misses + 1,
        u.cache == t.cache,
        v.hits == u.hits,
        v.misses == u.misses,
{
    let s = if u.order.len() >= u.max_entries { u.evict_one() } else { u };
    assert(s.hits == u.hits && s.misses == u.misses);
}

/// A glyph just inserted is found by the next lookup of the same character,
/// size and style, as it was inserted.
pub proof fn lemma_insert_then_lookup<A>(
    t: GlyphCacheView<A>,
    u: GlyphCacheView<A>,
    v: GlyphCacheView<A>,
    ch: char,
    size: FontSize,
    style: FontStyle,
    w: u32,
    h: u32,
    adv: A,
    r1: Result<CachedGlyph<A>, RendererError>,
    r2: Option<CachedGlyph<A>>,
)
    requires
        cache_inserted(t, u, ch, size, style, w, h, adv, r1),
        r1 is Ok,
        looked_up(u, v, ch, size, style, r2),
    ensures
        r2 == Some(r1->Ok_0),
{
}

/// A glyph found by a lookup becomes the most recently used, so it is not
/// the next one evicted unless it is the only one cached.
pub proof fn lemma_hit_is_most_recent<A>(
    t: GlyphCacheView<A>,
    u: GlyphCacheView<A>,
    ch: char,
    size: FontSize,
    style: FontStyle,
    r: Option<CachedGlyph<A>>,
)
    requires
        t.wf(),
        looked_up(t, u, ch, size, style, r),
        r is Some,
    ensures
        u.order.last() == key_code(glyph_key(ch, size, style)),
        u.order.len() > 1 ==> u.evict_one().order.contains(key_code(glyph_key(ch, size, style))),
{
    let code = key_code(glyph_key(ch, size, style));
    let i = choose|i: int| 0 <= i < t.order.len() && t.order[i] == code && u.order == t.order.remove(i).push(code);
    if u.order.len() > 1 {
        assert(u.evict_one().order[u.order.len() - 2] == code);
    }
}

} // verus!
