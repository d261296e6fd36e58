//! Damage tracking for incremental rendering: which screen regions changed
//! and must be redrawn.

use vstd::prelude::*;
use smallvec::SmallVec;

verus! {

/// A rectangular region, in cells: `width` x `height` starting at `(x, y)`.
#[derive(Debug, Clone, Copy, PartialEq, Eq, Structural)]
pub struct DamageRect {
    pub x: u32,
    pub y: u32,
    pub width: u32,
    pub height: u32,
}

impl DamageRect {
    /// One past the last column.
    pub open spec fn right(self) -> int {
        self.x + self.width
    }

    /// One past the last row.
    pub open spec fn bottom(self) -> int {
        self.y + self.height
    }

    /// The far edges fit in `u32`.
    pub open spec fn fits(self) -> bool {
        self.right() <= u32::MAX && self.bottom() <= u32::MAX
    }

    /// The rect covers no cell.
    pub open spec fn spec_is_empty(self) -> bool {
        self.width == 0 || self.height == 0
    }

    /// The two rects share at least one cell.
    pub open spec fn spec_intersects(self, other: DamageRect) -> bool {
        self.x < other.right() && self.right() > other.x && self.y < other.bottom() && self.bottom() > other.y
    }

    /// `other` lies inside `self`.
    pub open spec fn spec_contains(self, other: DamageRect) -> bool {
        other.x >= self.x && other.y >= self.y && other.right() <= self.right() && other.bottom() <= self.bottom()
    }

    /// The smallest rect holding both.
    pub open spec fn spec_union(self, other: DamageRect) -> DamageRect {
        let x = if self.x <= other.x { self.x } else { other.x };
        let y = if self.y <= other.y { self.y } else { other.y };
        let r = if self.right() >= other.right() { self.right() } else { other.right() };
        let b = if self.bottom() >= other.bottom() { self.bottom() } else { other.bottom() };
        DamageRect { x, y, width: (r - x) as u32, height: (b - y) as u32 }
    }

    /// The part of `self` inside `bounds`, or the empty rect at the origin
    /// when they do not overlap.
    pub open spec fn spec_clip(self, bounds: DamageRect) -> DamageRect {
        let x = if self.x >= bounds.x { self.x } else { bounds.x };
        let y = if self.y >= bounds.y { self.y } else { bounds.y };
        let r = if self.right() <= bounds.right() { self.right() } else { bounds.right() };
        let b = if self.bottom() <= bounds.bottom() { self.bottom() } else { bounds.bottom() };
        if r <= x || b <= y {
            DamageRect { x: 0, y: 0, width: 0, height: 0 }
        } else {
            DamageRect { x, y, width: (r - x) as u32, height: (b - y) as u32 }
        }
    }

    /// The single cell `(x, y)`.
    pub open spec fn cell_spec(x: u32, y: u32) -> DamageRect {
        DamageRect { x, y, width: 1, height: 1 }
    }

    /// Row `y`, `width` cells from column 0.
    pub open spec fn row_spec(y: u32, width: u32) -> DamageRect {
        DamageRect { x: 0, y, width, height: 1 }
    }

    /// Columns `x_start..x_end` of row `y`.
    pub open spec fn span_spec(y: u32, x_start: u32, x_end: u32) -> DamageRect {
        DamageRect { x: x_start, y, width: (x_end - x_start) as u32, height: 1 }
    }

    /// Creates a rect.
    pub fn new(x: u32, y: u32, width: u32, height: u32) -> (r: Self)
        ensures
            r == (DamageRect { x, y, width, height }),
    {
        Self { x, y, width, height }
    }

    /// The rect spanned by two opposite corners.
    pub fn from_corners(x1: u32, y1: u32, x2: u32, y2: u32) -> (r: Self)
        ensures
            r.x == (if x1 <= x2 { x1 } else { x2 }),
            r.y == (if y1 <= y2 { y1 } else { y2 }),
            r.width == (if x1 <= x2 { x2 - x1 } else { x1 - x2 }),
            r.height == (if y1 <= y2 { y2 - y1 } else { y1 - y2 }),
    {
        let x = if x1 <= x2 { x1 } else { x2 };
        let y = if y1 <= y2 { y1 } else { y2 };
        let width = (if x1 >= x2 { x1 } else { x2 }) - x;
        let height = (if y1 >= y2 { y1 } else { y2 }) - y;
        Self { x, y, width, height }
    }

    /// The rect of the single cell `(x, y)`.
    pub fn cell(x: u32, y: u32) -> (r: Self)
        ensures
            r == (DamageRect { x, y, width: 1, height: 1 }),
    {
        Self { x, y, width: 1, height: 1 }
    }

    /// Row `y`, `width` cells wide from column 0.
    pub fn row(y: u32, width: u32) -> (r: Self)
        ensures
            r == (DamageRect { x: 0, y, width, height: 1 }),
    {
        Self { x: 0, y, width, height: 1 }
    }

    /// Column `x`, `height` cells tall from row 0.
    pub fn column(x: u32, height: u32) -> (r: Self)
        ensures
            r == (DamageRect { x, y: 0, width: 1, height }),
    {
        Self { x, y: 0, width: 1, height }
    }

    /// Returns `true` when the rect covers no cell.
    pub fn is_empty(&self) -> (b: bool)
        ensures
            b == self.spec_is_empty(),
    {
        self.width == 0 || self.height == 0
    }

    /// Number of cells covered.
    pub fn area(&self) -> (a: u32)
        requires
            self.width * self.height <= u32::MAX,
        ensures
            a == self.width * self.height,
    {
        self.width * self.height
    }

    /// Returns `true` when the rects share a cell.
    pub fn intersects(&self, other: &DamageRect) -> (b: bool)
        requires
            self.fits(),
            other.fits(),
        ensures
            b == self.spec_intersects(*other),
    {
        self.x < other.x + other.width && self.x + self.width > other.x && self.y < other.y + other.height
            && self.y + self.height > other.y
    }

    /// Returns `true` when `other` lies inside this rect.
    pub fn contains(&self, other: &DamageRect) -> (b: bool)
        requires
            self.fits(),
            other.fits(),
        ensures
            b == self.spec_contains(*other),
    {
        other.x >= self.x && other.y >= self.y && other.x + other.width <= self.x + self.width && other.y
            + other.height <= self.y + self.height
    }

    /// The smallest rect holding both.
    pub fn union(&self, other: &DamageRect) -> (r: DamageRect)
        requires
            self.fits(),
            other.fits(),
        ensures
            r == self.spec_union(*other),
            r.fits(),
            r.spec_contains(*self),
            r.spec_contains(*other),
    {
        let x = if self.x <= other.x { self.x } else { other.x };
        let y = if self.y <= other.y { self.y } else { other.y };
        let sr = self.x + self.width;
        let or = other.x + other.width;
        let sb = self.y + self.height;
        let ob = other.y + other.height;
        let max_x = if sr >= or { sr } else { or };
        let max_y = if sb >= ob { sb } else { ob };
        DamageRect::new(x, y, max_x - x, max_y - y)
    }

    /// The part of this rect inside `bounds`; the empty rect at the origin
    /// when they do not overlap.
    pub fn clip(&self, bounds: &DamageRect) -> (r: DamageRect)
        requires
            self.fits(),
            bounds.fits(),
        ensures
            r == self.spec_clip(*bounds),
    {
        let x = if self.x >= bounds.x { self.x } else { bounds.x };
        let y = if self.y >= bounds.y { self.y } else { bounds.y };
        let sr = self.x + self.width;
        let br = bounds.x + bounds.width;
        let sb = self.y + self.height;
        let bb = bounds.y + bounds.height;
        let max_x = if sr <= br { sr } else { br };
        let max_y = if sb <= bb { sb } else { bb };
        if max_x <= x || max_y <= y {
            return DamageRect::default();
        }
        DamageRect::new(x, y, max_x - x, max_y - y)
    }
}

impl Default for DamageRect {
    fn default() -> (r: Self)
        ensures
            r == (DamageRect { x: 0, y: 0, width: 0, height: 0 }),
    {
        Self { x: 0, y: 0, width: 0, height: 0 }
    }
}

/// Containment is transitive.
pub proof fn lemma_contains_transitive(a: DamageRect, b: DamageRect, c: DamageRect)
    requires
        a.spec_contains(b),
        b.spec_contains(c),
    ensures
        a.spec_contains(c),
{
}

/// The union of two rects holds both, and clipping keeps a rect inside its
/// bounds and inside itself.
pub proof fn lemma_union_clip_bounds(a: DamageRect, b: DamageRect)
    requires
        a.fits(),
        b.fits(),
    ensures
        a.spec_union(b).spec_contains(a),
        a.spec_union(b).spec_contains(b),
        a.spec_union(b) == b.spec_union(a),
        !a.spec_clip(b).spec_is_empty() ==> b.spec_contains(a.spec_clip(b)) && a.spec_contains(a.spec_clip(b)),
{
}

/// The damage rects of a tracker, kept in a `SmallVec` with inline room for
/// eight. Its contents are known to proofs through [`damage_list`] and the
/// functions below, one per `SmallVec` operation used.
#[verifier::external_body]
pub struct DamageList {
    rects: SmallVec<[DamageRect; 8]>,
}

/// The rects held by a damage list, in order.
pub uninterp spec fn damage_list(v: DamageList) -> Seq<DamageRect>;

/// `SmallVec::new`: an empty list.
#[verifier::external_body]
fn list_new() -> (v: DamageList)
    ensures
        damage_list(v) == Seq::<DamageRect>::empty(),
{
    DamageList { rects: SmallVec::new() }
}

/// `SmallVec::len`: the number of rects held.
#[verifier::external_body]
fn list_len(v: &DamageList) -> (n: usize)
    ensures
        n == damage_list(*v).len(),
{
    v.rects.len()
}

/// Indexing a `SmallVec` (through its slice): the rect at `i`.
#[verifier::external_body]
fn list_get(v: &DamageList, i: usize) -> (r: DamageRect)
    requires
        i < damage_list(*v).len(),
    ensures
        r == damage_list(*v)[i as int],
{
    v.rects[i]
}

/// Assigning through `SmallVec`'s `IndexMut`: replaces the rect at `i`.
#[verifier::external_body]
fn list_set(v: &mut DamageList, i: usize, r: DamageRect)
    requires
        i < damage_list(*old(v)).len(),
    ensures
        damage_list(*final(v)) == damage_list(*old(v)).update(i as int, r),
{
    v.rects[i] = r;
}

/// `SmallVec::push`: appends a rect (the list is far below the length at
/// which growing its buffer would overflow).
#[verifier::external_body]
fn list_push(v: &mut DamageList, r: DamageRect)
    requires
        damage_list(*old(v)).len() < 0x1000_0000,
    ensures
        damage_list(*final(v)) == damage_list(*old(v)).push(r),
{
    v.rects.push(r);
}

/// `SmallVec::remove`: takes out the rect at `i`, shifting the rest left.
#[verifier::external_body]
fn list_remove(v: &mut DamageList, i: usize) -> (r: DamageRect)
    requires
        i < damage_list(*old(v)).len(),
    ensures
        r == damage_list(*old(v))[i as int],
        damage_list(*final(v)) == damage_list(*old(v)).remove(i as int),
{
    v.rects.remove(i)
}

/// `SmallVec::clear`: removes every rect.
#[verifier::external_body]
fn list_clear(v: &mut DamageList)
    ensures
        damage_list(*final(v)) == Seq::<DamageRect>::empty(),
{
    v.rects.clear();
}

/// `SmallVec::to_vec`: a copy of the rects, in order.
#[verifier::external_body]
fn list_to_vec(v: &DamageList) -> (c: Vec<DamageRect>)
    ensures
        c@ == damage_list(*v),
{
    v.rects.to_vec()
}

/// `SmallVec::drain(..)`, collected: moves every rect out, in order, and
/// leaves the list empty.
#[verifier::external_body]
fn list_take(v: &mut DamageList) -> (taken: Vec<DamageRect>)
    ensures
        taken@ == damage_list(*old(v)),
        damage_list(*final(v)) == Seq::<DamageRect>::empty(),
{
    v.rects.drain(..).collect()
}

/// The rects touch along an edge (without overlapping), sharing part of it.
pub open spec fn spec_adjacent(a: DamageRect, b: DamageRect) -> bool {
    ||| (a.right() == b.x || b.right() == a.x) && a.y < b.bottom() && b.y < a.bottom()
    ||| (a.bottom() == b.y || b.bottom() == a.y) && a.x < b.right() && b.x < a.right()
}

/// Rects that the tracker joins into one: overlapping or adjacent.
pub open spec fn touching(a: DamageRect, b: DamageRect) -> bool {
    a.spec_intersects(b) || spec_adjacent(a, b)
}

/// Gap between the spans `[a0, a1)` and `[b0, b1)`, 0 when they meet.
pub open spec fn gap(a0: int, a1: int, b0: int, b1: int) -> int {
    if a1 < b0 {
        b0 - a1
    } else if b1 < a0 {
        a0 - b1
    } else {
        0
    }
}

/// Horizontal plus vertical gap between two rects.
pub open spec fn spec_distance(a: DamageRect, b: DamageRect) -> int {
    gap(a.x as int, a.right(), b.x as int, b.right()) + gap(a.y as int, a.bottom(), b.y as int, b.bottom())
}

/// Some rect of `s` contains `r`.
pub open spec fn covered_by(s: Seq<DamageRect>, r: DamageRect) -> bool {
    exists|j: int| 0 <= j < s.len() && #[trigger] s[j].spec_contains(r)
}

/// Every rect of `t` is contained in some rect of `s`.
pub open spec fn covers_all(s: Seq<DamageRect>, t: Seq<DamageRect>) -> bool {
    forall|i: int| 0 <= i < t.len() ==> covered_by(s, #[trigger] t[i])
}

/// Every rect of `s` lies inside `bound` and covers at least one cell.
pub open spec fn all_within(s: Seq<DamageRect>, bound: DamageRect) -> bool {
    forall|i: int| 0 <= i < s.len() ==> bound.spec_contains(#[trigger] s[i]) && !s[i].spec_is_empty()
}

/// Index of the first rect of `s`, from `i` on, that touches `c`; -1 when
/// there is none.
pub open spec fn first_touching_from(s: Seq<DamageRect>, c: DamageRect, i: int) -> int
    decreases s.len() - i,
{
    if i < 0 || i >= s.len() {
        -1
    } else if touching(s[i], c) {
        i
    } else {
        first_touching_from(s, c, i + 1)
    }
}

/// Being covered carries over through a covering list.
pub proof fn lemma_covers_transitive(a: Seq<DamageRect>, b: Seq<DamageRect>, c: Seq<DamageRect>)
    requires
        covers_all(a, b),
        covers_all(b, c),
    ensures
        covers_all(a, c),
{
    assert forall|i: int| 0 <= i < c.len() implies covered_by(a, #[trigger] c[i]) by {
        assert(covered_by(b, c[i]));
        let j = choose|j: int| 0 <= j < b.len() && #[trigger] b[j].spec_contains(c[i]);
        assert(covered_by(a, b[j]));
        let k = choose|k: int| 0 <= k < a.len() && #[trigger] a[k].spec_contains(b[j]);
        lemma_contains_transitive(a[k], b[j], c[i]);
    }
}

/// Every list covers itself.
pub proof fn lemma_covers_self(s: Seq<DamageRect>)
    ensures
        covers_all(s, s),
{
    assert forall|i: int| 0 <= i < s.len() implies covered_by(s, #[trigger] s[i]) by {
        assert(s[i].spec_contains(s[i]));
    }
}

/// A rect inside the screen has an area no larger than the screen's.
proof fn lemma_area_within(screen: DamageRect, r: DamageRect)
    requires
        screen.x == 0,
        screen.y == 0,
        screen.spec_contains(r),
    ensures
        r.width * r.height <= screen.width * screen.height,
{
    assert(r.width <= screen.width);
    assert(r.height <= screen.height);
    assert(r.width * r.height <= screen.width * screen.height) by (nonlinear_arith)
        requires
            r.width <= screen.width,
            r.height <= screen.height,
    ;
}

/// Two non-empty rects inside the screen are less than a screen area apart.
proof fn lemma_distance_within(screen: DamageRect, a: DamageRect, b: DamageRect)
    requires
        screen.x == 0,
        screen.y == 0,
        screen.spec_contains(a),
        screen.spec_contains(b),
        !a.spec_is_empty(),
        !b.spec_is_empty(),
    ensures
        0 <= spec_distance(a, b) < screen.width * screen.height,
{
    let w = screen.width as int;
    let h = screen.height as int;
    let dx = gap(a.x as int, a.right(), b.x as int, b.right());
    let dy = gap(a.y as int, a.bottom(), b.y as int, b.bottom());
    assert(0 <= dx <= w - 1);
    assert(0 <= dy <= h - 1);
    assert(dx + dy < w * h) by (nonlinear_arith)
        requires
            0 <= dx <= w - 1,
            0 <= dy <= h - 1,
            w >= 1,
            h >= 1,
    ;
}

/// Joining rect `j` into rect `i` keeps everything covered and inside the
/// screen.
proof fn lemma_merge_pair(s: Seq<DamageRect>, i: int, j: int, screen: DamageRect)
    requires
        0 <= i < j < s.len(),
        all_within(s, screen),
    ensures
        ({
            let t = s.update(i, s[i].spec_union(s[j])).remove(j);
            &&& t.len() + 1 == s.len()
            &&& covers_all(t, s)
            &&& all_within(t, screen)
        }),
{
    let u = s[i].spec_union(s[j]);
    let t = s.update(i, u).remove(j);
    assert(screen.spec_contains(s[i]) && screen.spec_contains(s[j]));
    assert(u.spec_contains(s[i]) && u.spec_contains(s[j]));
    assert forall|k: int| 0 <= k < s.len() implies covered_by(t, #[trigger] s[k]) by {
        if k == i || k == j {
            assert(t[i] == u);
            assert(t[i].spec_contains(s[k]));
        } else if k < j {
            assert(t[k] == s[k]);
            assert(t[k].spec_contains(s[k]));
        } else {
            assert(t[k - 1] == s[k]);
            assert(t[k - 1].spec_contains(s[k]));
        }
    }
    assert forall|k: int| 0 <= k < t.len() implies screen.spec_contains(#[trigger] t[k]) && !t[k].spec_is_empty() by {
        if k == i {
            assert(t[k] == u);
        } else if k < j {
            assert(t[k] == s[k]);
        } else {
            assert(t[k] == s[k + 1]);
        }
    }
}

/// Taking out the first rect and joining it into rect `b` of the rest keeps
/// everything covered and inside the screen.
proof fn lemma_merge_first(s: Seq<DamageRect>, b: int, screen: DamageRect)
    requires
        s.len() >= 2,
        0 <= b < s.len() - 1,
        all_within(s, screen),
    ensures
        ({
            let s1 = s.remove(0);
            let t = s1.update(b, s1[b].spec_union(s[0]));
            &&& t.len() + 1 == s.len()
            &&& covers_all(t, s)
            &&& all_within(t, screen)
        }),
{
    let s1 = s.remove(0);
    let u = s1[b].spec_union(s[0]);
    let t = s1.update(b, u);
    assert(s1[b] == s[b + 1]);
    assert(screen.spec_contains(s[0]) && screen.spec_contains(s[b + 1]));
    assert forall|k: int| 0 <= k < s.len() implies covered_by(t, #[trigger] s[k]) by {
        if k == 0 || k == b + 1 {
            assert(t[b] == u);
            assert(t[b].spec_contains(s[k]));
        } else {
            assert(t[k - 1] == s[k]);
            assert(t[k - 1].spec_contains(s[k]));
        }
    }
    assert forall|k: int| 0 <= k < t.len() implies screen.spec_contains(#[trigger] t[k]) && !t[k].spec_is_empty() by {
        if k == b {
            assert(t[k] == u);
        } else {
            assert(t[k] == s[k + 1]);
        }
    }
}

/// Swapping two neighbours keeps everything covered and inside the screen.
proof fn lemma_swap_neighbours(s: Seq<DamageRect>, j: int, screen: DamageRect)
    requires
        0 < j < s.len(),
        all_within(s, screen),
    ensures
        ({
            let t = s.update(j - 1, s[j]).update(j, s[j - 1]);
            &&& t.len() == s.len()
            &&& covers_all(t, s)
            &&& all_within(t, screen)
        }),
{
    let t = s.update(j - 1, s[j]).update(j, s[j - 1]);
    assert forall|k: int| 0 <= k < s.len() implies covered_by(t, #[trigger] s[k]) by {
        if k == j {
            assert(t[j - 1].spec_contains(s[k]));
        } else if k == j - 1 {
            assert(t[j].spec_contains(s[k]));
        } else {
            assert(t[k].spec_contains(s[k]));
        }
    }
    assert forall|k: int| 0 <= k < t.len() implies screen.spec_contains(#[trigger] t[k]) && !t[k].spec_is_empty() by {
        if k == j {
            assert(t[k] == s[j - 1]);
        } else if k == j - 1 {
            assert(t[k] == s[j]);
        } else {
            assert(t[k] == s[k]);
        }
    }
}

/// Areas in `s` never decrease from left to right.
pub open spec fn sorted_by_area(s: Seq<DamageRect>) -> bool {
    forall|a: int, b: int| 0 <= a < b < s.len() ==> s[a].width * s[a].height <= s[b].width * s[b].height
}

/// Number of cells of `r`.
pub open spec fn area_of(r: DamageRect) -> int {
    r.width * r.height
}

/// Index of the first rect of `s`, from `j` on, touching rect `i`; -1 when
/// there is none.
pub open spec fn touching_partner(s: Seq<DamageRect>, i: int, j: int) -> int
    decreases s.len() - j,
{
    if j < 0 || j >= s.len() {
        -1
    } else if touching(s[i], s[j]) {
        j
    } else {
        touching_partner(s, i, j + 1)
    }
}

/// The first pair `(i, j)`, `i < j`, of touching rects of `s` with `i`
/// from `i0` on (by `i`, then `j`); `(-1, -1)` when there is none.
pub open spec fn touching_pair(s: Seq<DamageRect>, i0: int) -> (int, int)
    decreases s.len() - i0,
{
    if i0 < 0 || i0 >= s.len() {
        (-1, -1)
    } else {
        let j = touching_partner(s, i0, i0 + 1);
        if j >= 0 {
            (i0, j)
        } else {
            touching_pair(s, i0 + 1)
        }
    }
}

/// `s` with rect `j` joined into rect `i`.
pub open spec fn join_pair(s: Seq<DamageRect>, i: int, j: int) -> Seq<DamageRect> {
    s.update(i, s[i].spec_union(s[j])).remove(j)
}

/// Joins the first touching pair of `s`, again and again, while more than
/// `half` rects remain and some pair touches.
pub open spec fn join_touching(s: Seq<DamageRect>, half: nat) -> Seq<DamageRect>
    decreases s.len(),
{
    if s.len() > half {
        let p = touching_pair(s, 0);
        if 0 <= p.0 < p.1 < s.len() {
            join_touching(join_pair(s, p.0, p.1), half)
        } else {
            s
        }
    } else {
        s
    }
}

/// Index of the first rect of `t`, from `m` on, larger than `x`; the length
/// of `t` when there is none.
pub open spec fn first_larger(t: Seq<DamageRect>, x: DamageRect, m: int) -> int
    decreases t.len() - m,
{
    if m < 0 || m >= t.len() {
        t.len() as int
    } else if area_of(t[m]) > area_of(x) {
        m
    } else {
        first_larger(t, x, m + 1)
    }
}

/// `x` inserted into `t` before the first rect larger than it.
pub open spec fn insert_by_area(t: Seq<DamageRect>, x: DamageRect) -> Seq<DamageRect> {
    let k = first_larger(t, x, 0);
    t.take(k).push(x) + t.skip(k)
}

/// `s` sorted by area, smallest first, rects of equal area keeping their
/// order.
pub open spec fn by_area(s: Seq<DamageRect>) -> Seq<DamageRect>
    decreases s.len(),
{
    if s.len() == 0 {
        s
    } else {
        insert_by_area(by_area(s.drop_last()), s.last())
    }
}

/// Index of the rect nearest to `x` among the first `n` of `rest` (the
/// first one at that distance).
pub open spec fn nearest_upto(rest: Seq<DamageRect>, x: DamageRect, n: int) -> int
    decreases n,
{
    if n <= 1 {
        0
    } else {
        let b = nearest_upto(rest, x, n - 1);
        if spec_distance(x, rest[n - 1]) < spec_distance(x, rest[b]) {
            n - 1
        } else {
            b
        }
    }
}

/// While more than `max` rects remain, joins the first rect into the rect
/// nearest to it among the others.
pub open spec fn join_smallest(s: Seq<DamageRect>, max: nat) -> Seq<DamageRect>
    decreases s.len(),
{
    if s.len() > max && s.len() >= 2 {
        let rest = s.remove(0);
        let b = nearest_upto(rest, s[0], rest.len() as int);
        proof {
            lemma_nearest_upto(rest, s[0], rest.len() as int);
        }
        join_smallest(rest.update(b, rest[b].spec_union(s[0])), max)
    } else {
        s
    }
}

/// The rects `s` merged down for a limit of `max`: touching rects joined
/// while more than half the limit remain; then, if still over the limit,
/// the rects sorted by area and the smallest joined into its nearest until
/// the limit is met.
pub open spec fn merged(s: Seq<DamageRect>, max: nat) -> Seq<DamageRect> {
    let p = join_touching(s, max / 2);
    if p.len() > max {
        join_smallest(by_area(p), max)
    } else {
        p
    }
}

/// A result of [`touching_partner`] other than -1 is a touching rect.
proof fn lemma_touching_partner(s: Seq<DamageRect>, i: int, j: int)
    ensures
        touching_partner(s, i, j) != -1 ==> j <= touching_partner(s, i, j) < s.len() && touching(
            s[i],
            s[touching_partner(s, i, j)],
        ),
        touching_partner(s, i, j) == -1 || touching_partner(s, i, j) >= 0,
    decreases s.len() - j,
{
    if 0 <= j < s.len() && !touching(s[i], s[j]) {
        lemma_touching_partner(s, i, j + 1);
    }
}

/// A result of [`touching_pair`] other than `(-1, -1)` is a pair of
/// touching rects.
proof fn lemma_touching_pair(s: Seq<DamageRect>, i0: int)
    ensures
        touching_pair(s, i0).0 >= 0 ==> i0 <= touching_pair(s, i0).0 < touching_pair(s, i0).1 < s.len(),
        touching_pair(s, i0).0 < 0 ==> touching_pair(s, i0) == (-1int, -1int),
    decreases s.len() - i0,
{
    if 0 <= i0 < s.len() {
        lemma_touching_partner(s, i0, i0 + 1);
        if touching_partner(s, i0, i0 + 1) < 0 {
            lemma_touching_pair(s, i0 + 1);
        }
    }
}

/// [`first_larger`] is `j` when the rects before `j` are no larger than
/// `x` and the one at `j`, if any, is larger.
proof fn lemma_first_larger_at(t: Seq<DamageRect>, x: DamageRect, m: int, j: int)
    requires
        0 <= m <= j <= t.len(),
        forall|k: int| m <= k < j ==> area_of(#[trigger] t[k]) <= area_of(x),
        j < t.len() ==> area_of(t[j]) > area_of(x),
    ensures
        first_larger(t, x, m) == j,
    decreases j - m,
{
    if m < j {
        lemma_first_larger_at(t, x, m + 1, j);
    }
}

/// The rects before [`first_larger`] are no larger than `x`; the one at it,
/// if any, is larger.
proof fn lemma_first_larger(t: Seq<DamageRect>, x: DamageRect, m: int)
    requires
        0 <= m <= t.len(),
    ensures
        m <= first_larger(t, x, m) <= t.len(),
        forall|k: int| m <= k < first_larger(t, x, m) ==> area_of(#[trigger] t[k]) <= area_of(x),
        first_larger(t, x, m) < t.len() ==> area_of(t[first_larger(t, x, m)]) > area_of(x),
    decreases t.len() - m,
{
    if m < t.len() && area_of(t[m]) <= area_of(x) {
        lemma_first_larger(t, x, m + 1);
    }
}

/// Inserting by area into a sorted list keeps it sorted.
proof fn lemma_insert_by_area(t: Seq<DamageRect>, x: DamageRect)
    requires
        sorted_by_area(t),
    ensures
        sorted_by_area(insert_by_area(t, x)),
        insert_by_area(t, x).len() == t.len() + 1,
{
    let k = first_larger(t, x, 0);
    lemma_first_larger(t, x, 0);
    let u = insert_by_area(t, x);
    assert forall|a: int, b: int| 0 <= a < b < u.len() implies u[a].width * u[a].height <= u[b].width
        * u[b].height by {
        let ua = if a < k { t[a] } else if a == k { x } else { t[a - 1] };
        let ub = if b < k { t[b] } else if b == k { x } else { t[b - 1] };
        assert(u[a] == ua);
        assert(u[b] == ub);
        if a < k && b == k {
            assert(area_of(t[a]) <= area_of(x));
        } else if a == k && b > k {
            assert(area_of(t[k]) > area_of(x));
            assert(area_of(t[k]) <= area_of(t[b - 1]));
        }
    }
}

/// Sorting by area gives a sorted list of the same length.
proof fn lemma_by_area(s: Seq<DamageRect>)
    ensures
        sorted_by_area(by_area(s)),
        by_area(s).len() == s.len(),
    decreases s.len(),
{
    if s.len() > 0 {
        lemma_by_area(s.drop_last());
        lemma_insert_by_area(by_area(s.drop_last()), s.last());
    }
}

/// The nearest rect among the first `n` is one of them.
pub proof fn lemma_nearest_upto(rest: Seq<DamageRect>, x: DamageRect, n: int)
    requires
        n >= 1,
    ensures
        0 <= nearest_upto(rest, x, n) < n,
    decreases n,
{
    if n > 1 {
        lemma_nearest_upto(rest, x, n - 1);
    }
}

/// Before inserting the rect at `i`: it sits right after the sorted
/// prefix, and the rest is untouched.
proof fn lemma_insertion_start(rects: Seq<DamageRect>, start: Seq<DamageRect>, i: int)
    requires
        0 <= i < rects.len(),
        rects.len() == start.len(),
        rects.take(i) == by_area(start.take(i)),
        rects.skip(i) == start.skip(i),
    ensures
        ({
            let t = by_area(start.take(i));
            &&& t.len() == i
            &&& sorted_by_area(t)
            &&& rects.take(i) == t.take(i)
            &&& rects[i] == start[i]
            &&& rects.subrange(i + 1, i + 1) == t.subrange(i, i)
            &&& rects.skip(i + 1) == start.skip(i + 1)
        }),
{
    let t = by_area(start.take(i));
    lemma_by_area(start.take(i));
    assert(rects[i] == rects.skip(i)[0]);
    assert(start.skip(i)[0] == start[i]);
    assert(rects.subrange(i + 1, i + 1) =~= t.subrange(i, i));
    assert(t.take(i) =~= t);
    assert(rects.skip(i + 1) =~= rects.skip(i).skip(1));
    assert(start.skip(i + 1) =~= start.skip(i).skip(1));
}

/// One step of inserting `x` into the sorted prefix `t`: swapping `x`
/// (at `j`) with the larger rect before it moves it one place left.
proof fn lemma_insertion_swap(
    before: Seq<DamageRect>,
    after: Seq<DamageRect>,
    t: Seq<DamageRect>,
    x: DamageRect,
    start: Seq<DamageRect>,
    i: int,
    j: int,
)
    requires
        0 < j <= i < before.len(),
        t.len() == i,
        before.take(j) == t.take(j),
        before[j] == x,
        before.subrange(j + 1, i + 1) == t.subrange(j, i),
        before.skip(i + 1) == start.skip(i + 1),
        after == before.update(j - 1, before[j]).update(j, before[j - 1]),
    ensures
        after.take(j - 1) == t.take(j - 1),
        after[j - 1] == x,
        after.subrange(j, i + 1) == t.subrange(j - 1, i),
        after.skip(i + 1) == start.skip(i + 1),
        before[j - 1] == t[j - 1],
{
    let jm: int = j - 1;
    let ip: int = i + 1;
    let bt = before.take(j);
    let tt = t.take(j);
    assert(bt[jm] == before[jm]);
    assert(tt[jm] == t[jm]);
    assert(bt[jm] == tt[jm]);
    let lhs1 = after.take(jm);
    let rhs1 = t.take(jm);
    assert(lhs1 =~= rhs1) by {
        assert forall|k: int| 0 <= k < jm implies #[trigger] lhs1[k] == rhs1[k] by {
            assert(bt[k] == tt[k]);
        }
    }
    let lhs2 = after.subrange(j, ip);
    let rhs2 = t.subrange(jm, i);
    let bs = before.subrange(j + 1, ip);
    let ts = t.subrange(j, i);
    assert(lhs2 =~= rhs2) by {
        assert forall|k: int| 0 <= k < ip - j implies #[trigger] lhs2[k] == rhs2[k] by {
            if k > 0 {
                assert(lhs2[k] == after[j + k]);
                assert(after[j + k] == before[j + k]);
                assert(bs[k - 1] == before[j + k]);
                assert(bs[k - 1] == ts[k - 1]);
                assert(ts[k - 1] == t[j + k - 1]);
                assert(rhs2[k] == t[jm + k]);
            } else {
                assert(lhs2[0] == after[j]);
                assert(rhs2[0] == t[jm]);
            }
        }
    }
    assert(after.skip(ip) =~= before.skip(ip));
}

/// When `x` stops at `j` (the rect before it, if any, no larger), the
/// prefix through `i` is the sorted insertion of `x` into `t`.
proof fn lemma_insertion_done(
    rects: Seq<DamageRect>,
    t: Seq<DamageRect>,
    x: DamageRect,
    start: Seq<DamageRect>,
    i: int,
    j: int,
)
    requires
        0 <= j <= i < rects.len(),
        i < start.len(),
        t == by_area(start.take(i)),
        t.len() == i,
        sorted_by_area(t),
        x == start[i],
        rects.take(j) == t.take(j),
        rects[j] == x,
        rects.subrange(j + 1, i + 1) == t.subrange(j, i),
        forall|k: int| j <= k < i ==> area_of(#[trigger] t[k]) > area_of(x),
        j > 0 ==> area_of(t[j - 1]) <= area_of(x),
    ensures
        rects.take(i + 1) == by_area(start.take(i + 1)),
{
    assert forall|k: int| 0 <= k < j implies area_of(#[trigger] t[k]) <= area_of(x) by {
        if k < j - 1 {
            assert(t[k].width * t[k].height <= t[j - 1].width * t[j - 1].height);
        }
    }
    lemma_first_larger_at(t, x, 0, j);
    let next = start.take(i + 1);
    assert(next.drop_last() =~= start.take(i));
    assert(next.last() == x);
    let ip: int = i + 1;
    let lhs = rects.take(ip);
    let rhs = t.take(j).push(x) + t.skip(j);
    let st = rects.take(j);
    let tt = t.take(j);
    let ss = rects.subrange(j + 1, ip);
    let ts = t.subrange(j, i);
    assert(lhs =~= rhs) by {
        assert forall|k: int| 0 <= k < ip implies #[trigger] lhs[k] == rhs[k] by {
            if k < j {
                assert(st[k] == tt[k]);
            } else if k > j {
                assert(ss[k - j - 1] == ts[k - j - 1]);
            }
        }
    }
}

/// Mathematical picture of a [`DamageTracker`].
pub struct TrackerView {
    pub rects: Seq<DamageRect>,
    pub max_rects: nat,
    pub screen_width: u32,
    pub screen_height: u32,
    pub full: bool,
}

impl TrackerView {
    /// The whole screen as a rect.
    pub open spec fn screen(self) -> DamageRect {
        DamageRect { x: 0, y: 0, width: self.screen_width, height: self.screen_height }
    }

    /// At most `max_rects` (64) rects, each non-empty and inside the screen.
    pub open spec fn wf(self) -> bool {
        &&& self.max_rects == 64
        &&& self.rects.len() <= self.max_rects
        &&& all_within(self.rects, self.screen())
    }

    /// The rects added when the list is full enough to be merged have areas
    /// that fit in `u32`.
    pub open spec fn merge_fits(self) -> bool {
        self.screen_width * self.screen_height <= u32::MAX
    }
}

/// `out` results from merging the rects of `input` down to at most `max`
/// rects: every input rect is still covered, and every rect stays non-empty
/// and inside `screen`.
pub open spec fn merge_result(input: Seq<DamageRect>, out: Seq<DamageRect>, screen: DamageRect, max: nat) -> bool {
    &&& out.len() <= max
    &&& covers_all(out, input)
    &&& all_within(out, screen)
}

/// The tracker `t` after adding `rect`: unchanged under full damage or
/// when the rect lies off screen; otherwise the rect's on-screen part is
/// joined into the first rect it touches, or appended, the list being
/// [`merged`] when it grows past the limit.
pub open spec fn after_add(t: TrackerView, rect: DamageRect) -> TrackerView {
    let c = rect.spec_clip(t.screen());
    let k = first_touching_from(t.rects, c, 0);
    if t.full || c.spec_is_empty() {
        t
    } else if k >= 0 {
        TrackerView { rects: t.rects.update(k, t.rects[k].spec_union(c)), ..t }
    } else if t.rects.len() + 1 <= t.max_rects {
        TrackerView { rects: t.rects.push(c), ..t }
    } else {
        TrackerView { rects: merged(t.rects.push(c), t.max_rects), ..t }
    }
}

/// `u` is `t` after adding `rect` (see [`after_add`]); a merged list keeps
/// every rect covered, inside the screen and within the limit.
pub open spec fn added(t: TrackerView, u: TrackerView, rect: DamageRect) -> bool {
    &&& u == after_add(t, rect)
    &&& add_needs_merge(t, rect) ==> merge_result(
        t.rects.push(rect.spec_clip(t.screen())),
        u.rects,
        t.screen(),
        t.max_rects,
    )
}

/// Adding `rect` to `t` makes the list grow past its limit, so that it is
/// merged (and rect areas get computed).
pub open spec fn add_needs_merge(t: TrackerView, rect: DamageRect) -> bool {
    let c = rect.spec_clip(t.screen());
    &&& !t.full
    &&& !c.spec_is_empty()
    &&& first_touching_from(t.rects, c, 0) < 0
    &&& t.rects.len() + 1 > t.max_rects
}

/// Tracks the damaged regions of a screen.
///
/// Up to `max_rects` rects are kept as they come (each joined with the
/// first rect it overlaps or touches); past that the list is merged down.
/// Full damage stands for the whole screen.
pub struct DamageTracker {
    rects: DamageList,
    max_rects: usize,
    screen_width: u32,
    screen_height: u32,
    full_damage: bool,
}

impl View for DamageTracker {
    type V = TrackerView;

    closed spec fn view(&self) -> TrackerView {
        TrackerView {
            rects: damage_list(self.rects),
            max_rects: self.max_rects as nat,
            screen_width: self.screen_width,
            screen_height: self.screen_height,
            full: self.full_damage,
        }
    }
}

impl DamageTracker {
    /// Creates a tracker for a `screen_width` x `screen_height` screen with
    /// no damage and a limit of 64 rects.
    pub fn new(screen_width: u32, screen_height: u32) -> (t: Self)
        ensures
            t@ == (TrackerView {
                rects: Seq::empty(),
                max_rects: 64,
                screen_width,
                screen_height,
                full: false,
            }),
            t@.wf(),
    {
        Self { rects: list_new(), max_rects: 64, screen_width, screen_height, full_damage: false }
    }

    /// Marks the whole screen as damaged (dropping the individual rects).
    pub fn mark_full(&mut self)
        requires
            old(self)@.wf(),
        ensures
            final(self)@ == (TrackerView { full: true, rects: Seq::empty(), ..old(self)@ }),
            final(self)@.wf(),
    {
        self.full_damage = true;
        list_clear(&mut self.rects);
    }

    /// Returns `true` under full damage.
    pub fn is_full(&self) -> (b: bool)
        ensures
            b == self@.full,
    {
        self.full_damage
    }

    /// Whether `a` and `b` touch along an edge.
    fn are_adjacent(&self, a: &DamageRect, b: &DamageRect) -> (r: bool)
        requires
            a.fits(),
            b.fits(),
        ensures
            r == spec_adjacent(*a, *b),
    {
        (a.x + a.width == b.x || b.x + b.width == a.x) && a.y < b.y + b.height && b.y < a.y + a.height || (a.y
            + a.height == b.y || b.y + b.height == a.y) && a.x < b.x + b.width && b.x < a.x + a.width
    }

    /// Horizontal plus vertical gap between `a` and `b`.
    fn rect_distance(&self, a: &DamageRect, b: &DamageRect) -> (d: u32)
        requires
            a.fits(),
            b.fits(),
            spec_distance(*a, *b) <= u32::MAX,
        ensures
            d == spec_distance(*a, *b),
    {
        let dx = if a.x + a.width < b.x {
            b.x - (a.x + a.width)
        } else if b.x + b.width < a.x {
            a.x - (b.x + b.width)
        } else {
            0
        };
        let dy = if a.y + a.height < b.y {
            b.y - (a.y + a.height)
        } else if b.y + b.height < a.y {
            a.y - (b.y + b.height)
        } else {
            0
        };
        dx + dy
    }

    /// Removes all damage, including full damage.
    pub fn clear(&mut self)
        requires
            old(self)@.wf(),
        ensures
            final(self)@ == (TrackerView { full: false, rects: Seq::empty(), ..old(self)@ }),
            final(self)@.wf(),
    {
        list_clear(&mut self.rects);
        self.full_damage = false;
    }

    /// Number of tracked rects.
    pub fn len(&self) -> (n: usize)
        ensures
            n == self@.rects.len(),
    {
        list_len(&self.rects)
    }

    /// Returns `true` when nothing is damaged.
    pub fn is_empty(&self) -> (b: bool)
        ensures
            b == (!self@.full && self@.rects.len() == 0),
    {
        !self.is_full() && list_len(&self.rects) == 0
    }

    /// The tracked rects, in order, leaving the tracker without damage.
    pub fn take_damage(&mut self) -> (damage: Vec<DamageRect>)
        requires
            old(self)@.wf(),
        ensures
            damage@ == old(self)@.rects,
            final(self)@ == (TrackerView { full: false, rects: Seq::empty(), ..old(self)@ }),
            final(self)@.wf(),
    {
        let damage = list_take(&mut self.rects);
        self.full_damage = false;
        damage
    }

    /// The tracked rects, in order.
    pub fn get_damage(&self) -> (damage: Vec<DamageRect>)
        ensures
            damage@ == self@.rects,
    {
        list_to_vec(&self.rects)
    }

    /// Changes the screen size; the whole new screen is damaged.
    pub fn resize(&mut self, width: u32, height: u32)
        requires
            old(self)@.wf(),
        ensures
            final(self)@ == (TrackerView {
                screen_width: width,
                screen_height: height,
                full: true,
                rects: Seq::empty(),
                ..old(self)@
            }),
            final(self)@.wf(),
    {
        self.screen_width = width;
        self.screen_height = height;
        self.full_damage = true;
        list_clear(&mut self.rects);
    }

    /// Area of the rect at `i`.
    fn area_at(&self, i: usize) -> (a: u32)
        requires
            i < self@.rects.len(),
            all_within(self@.rects, self@.screen()),
            self@.merge_fits(),
        ensures
            a == self@.rects[i as int].width * self@.rects[i as int].height,
    {
        let r = list_get(&self.rects, i);
        proof {
            lemma_area_within(self@.screen(), r);
        }
        r.area()
    }

    /// Moves the rect at `i` left past the larger rects of the sorted prefix
    /// `t` before it; returns where it stops.
    fn sift_left(
        &mut self,
        i: usize,
        Ghost(t): Ghost<Seq<DamageRect>>,
        Ghost(x): Ghost<DamageRect>,
        Ghost(start): Ghost<Seq<DamageRect>>,
    ) -> (j: usize)
        requires
            0 < i < old(self)@.rects.len(),
            all_within(old(self)@.rects, old(self)@.screen()),
            old(self)@.merge_fits(),
            covers_all(old(self)@.rects, start),
            t.len() == i,
            sorted_by_area(t),
            old(self)@.rects.take(i as int) == t.take(i as int),
            old(self)@.rects[i as int] == x,
            old(self)@.rects.subrange(i + 1, i + 1) == t.subrange(i as int, i as int),
            old(self)@.rects.skip(i + 1) == start.skip(i + 1),
        ensures
            j <= i,
            final(self)@ == (TrackerView { rects: final(self)@.rects, ..old(self)@ }),
            final(self)@.rects.len() == old(self)@.rects.len(),
            covers_all(final(self)@.rects, start),
            all_within(final(self)@.rects, old(self)@.screen()),
            final(self)@.rects.take(j as int) == t.take(j as int),
            final(self)@.rects[j as int] == x,
            final(self)@.rects.subrange(j + 1, i + 1) == t.subrange(j as int, i as int),
            final(self)@.rects.skip(i + 1) == start.skip(i + 1),
            forall|k: int| j <= k < i ==> area_of(#[trigger] t[k]) > area_of(x),
            j > 0 ==> area_of(t[j - 1]) <= area_of(x),
    {
        let ghost screen = self@.screen();
        let n = list_len(&self.rects);
        let mut j: usize = i;
        while j > 0 && self.area_at(j - 1) > self.area_at(j)
            invariant
                0 <= j <= i < n,
                n == self@.rects.len(),
                self@ == (TrackerView { rects: self@.rects, ..old(self)@ }),
                screen == self@.screen(),
                self@.merge_fits(),
                covers_all(self@.rects, start),
                all_within(self@.rects, screen),
                t.len() == i,
                sorted_by_area(t),
                self@.rects.take(j as int) == t.take(j as int),
                self@.rects[j as int] == x,
                self@.rects.subrange(j + 1, i + 1) == t.subrange(j as int, i as int),
                self@.rects.skip(i + 1) == start.skip(i + 1),
                forall|k: int| j <= k < i ==> area_of(#[trigger] t[k]) > area_of(x),
            decreases j,
        {
            let ghost before = self@.rects;
            let left = list_get(&self.rects, j - 1);
            let right = list_get(&self.rects, j);
            list_set(&mut self.rects, j - 1, right);
            list_set(&mut self.rects, j, left);
            proof {
                lemma_swap_neighbours(before, j as int, screen);
                lemma_covers_transitive(self@.rects, before, start);
                lemma_insertion_swap(before, self@.rects, t, x, start, i as int, j as int);
            }
            j -= 1;
        }
        proof {
            if j > 0 {
                assert(self@.rects.take(j as int)[j - 1] == t[j - 1]);
            }
        }
        j
    }

    /// Stable sort of the rects by area, smallest first (see [`by_area`]).
    #[verifier::spinoff_prover]
    #[verifier::rlimit(50)]
    fn sort_by_area(&mut self)
        requires
            all_within(old(self)@.rects, old(self)@.screen()),
            old(self)@.merge_fits(),
        ensures
            final(self)@ == (TrackerView { rects: final(self)@.rects, ..old(self)@ }),
            final(self)@.rects == by_area(old(self)@.rects),
            final(self)@.rects.len() == old(self)@.rects.len(),
            covers_all(final(self)@.rects, old(self)@.rects),
            all_within(final(self)@.rects, old(self)@.screen()),
            sorted_by_area(final(self)@.rects),
    {
        let ghost start = self@.rects;
        let ghost screen = self@.screen();
        proof {
            lemma_covers_self(start);
            lemma_by_area(start);
        }
        let n = list_len(&self.rects);
        if n == 0 {
            proof {
                assert(by_area(start) == start);
            }
            return;
        }
        proof {
            let one = start.take(1);
            assert(one.drop_last() =~= Seq::<DamageRect>::empty());
            assert(by_area(one.drop_last()) == Seq::<DamageRect>::empty());
            assert(first_larger(Seq::<DamageRect>::empty(), one.last(), 0) == 0);
            assert(insert_by_area(Seq::<DamageRect>::empty(), one.last()) =~= one);
            assert(self@.rects.take(1) =~= one);
        }
        let mut i: usize = 1;
        while i < n
            invariant
                1 <= i <= n,
                n == self@.rects.len(),
                n == start.len(),
                self@ == (TrackerView { rects: self@.rects, ..old(self)@ }),
                start == old(self)@.rects,
                screen == self@.screen(),
                self@.merge_fits(),
                covers_all(self@.rects, start),
                all_within(self@.rects, screen),
                self@.rects.take(i as int) == by_area(start.take(i as int)),
                self@.rects.skip(i as int) == start.skip(i as int),
            decreases n - i,
        {
            let ghost t = by_area(start.take(i as int));
            let ghost x = start[i as int];
            proof {
                lemma_insertion_start(self@.rects, start, i as int);
            }
            let j = self.sift_left(i, Ghost(t), Ghost(x), Ghost(start));
            proof {
                if j > 0 {
                    assert(self@.rects.take(j as int)[j - 1] == t[j - 1]);
                }
                lemma_insertion_done(self@.rects, t, x, start, i as int, j as int);
            }
            i += 1;
        }
        proof {
            assert(self@.rects.take(n as int) =~= self@.rects);
            assert(start.take(n as int) =~= start);
            lemma_by_area(start);
        }
    }

    /// Joins overlapping or adjacent rects until at most half the limit
    /// remain or no pair touches; then, while still over the limit, joins
    /// the smallest rect into the one nearest to it.
    fn merge_rects(&mut self)
        requires
            old(self)@.max_rects == 64,
            all_within(old(self)@.rects, old(self)@.screen()),
            old(self)@.rects.len() > old(self)@.max_rects ==> old(self)@.merge_fits(),
        ensures
            final(self)@ == (TrackerView { rects: final(self)@.rects, ..old(self)@ }),
            merge_result(old(self)@.rects, final(self)@.rects, old(self)@.screen(), old(self)@.max_rects),
            final(self)@.rects.len() <= old(self)@.rects.len(),
            final(self)@.rects == merged(old(self)@.rects, old(self)@.max_rects),
    {
        let ghost start = self@.rects;
        let ghost screen = self@.screen();
        let ghost half: nat = 32;
        proof {
            lemma_covers_self(start);
        }
        let mut merged = true;
        while merged && list_len(&self.rects) > self.max_rects / 2
            invariant
                self@ == (TrackerView { rects: self@.rects, ..old(self)@ }),
                screen == self@.screen(),
                self@.max_rects == 64,
                half == 32,
                covers_all(self@.rects, start),
                all_within(self@.rects, screen),
                self@.rects.len() <= start.len(),
                start.len() > self@.max_rects ==> self@.merge_fits(),
                merged ==> join_touching(self@.rects, half) == join_touching(start, half),
                !merged ==> self@.rects == join_touching(start, half),
            decreases self@.rects.len() + (if merged { 1int } else { 0int }),
        {
            let ghost pass_start = self@.rects;
            let ghost goal = join_touching(start, half);
            merged = false;
            let n = list_len(&self.rects);
            let mut i: usize = 0;
            while i < n && !merged
                invariant
                    n == pass_start.len(),
                    self@ == (TrackerView { rects: self@.rects, ..old(self)@ }),
                    screen == self@.screen(),
                    all_within(pass_start, screen),
                    !merged ==> self@.rects == pass_start,
                    !merged ==> touching_pair(pass_start, 0) == touching_pair(pass_start, i as int),
                    merged ==> self@.rects.len() + 1 == n && covers_all(self@.rects, pass_start) && all_within(
                        self@.rects,
                        screen,
                    ),
                    merged ==> ({
                        let p = touching_pair(pass_start, 0);
                        0 <= p.0 < p.1 < n && self@.rects == join_pair(pass_start, p.0, p.1)
                    }),
                decreases n - i,
            {
                let mut j: usize = i + 1;
                while j < n && !merged
                    invariant
                        i < j,
                        i < n,
                        n == pass_start.len(),
                        self@ == (TrackerView { rects: self@.rects, ..old(self)@ }),
                        screen == self@.screen(),
                        all_within(pass_start, screen),
                        !merged ==> self@.rects == pass_start,
                        !merged ==> touching_pair(pass_start, 0) == touching_pair(pass_start, i as int),
                        !merged ==> touching_partner(pass_start, i as int, i + 1) == touching_partner(
                            pass_start,
                            i as int,
                            j as int,
                        ),
                        merged ==> self@.rects.len() + 1 == n && covers_all(self@.rects, pass_start) && all_within(
                            self@.rects,
                            screen,
                        ),
                        merged ==> ({
                            let p = touching_pair(pass_start, 0);
                            0 <= p.0 < p.1 < n && self@.rects == join_pair(pass_start, p.0, p.1)
                        }),
                    decreases n - j,
                {
                    let a = list_get(&self.rects, i);
                    let b = list_get(&self.rects, j);
                    if a.intersects(&b) || self.are_adjacent(&a, &b) {
                        list_set(&mut self.rects, i, a.union(&b));
                        list_remove(&mut self.rects, j);
                        merged = true;
                        proof {
                            lemma_merge_pair(pass_start, i as int, j as int, screen);
                            assert(touching(pass_start[i as int], pass_start[j as int]));
                            assert(touching_partner(pass_start, i as int, j as int) == j);
                            assert(touching_pair(pass_start, i as int) == (i as int, j as int));
                            assert(self@.rects =~= join_pair(pass_start, i as int, j as int));
                        }
                    }
                    j += 1;
                }
                proof {
                    if !merged {
                        assert(touching_partner(pass_start, i as int, n as int) == -1);
                        assert(touching_pair(pass_start, i as int) == touching_pair(pass_start, i + 1));
                    }
                }
                i += 1;
            }
            proof {
                if merged {
                    lemma_covers_transitive(self@.rects, pass_start, start);
                    lemma_touching_pair(pass_start, 0);
                } else {
                    assert(touching_pair(pass_start, n as int) == (-1int, -1int));
                }
            }
        }
        proof {
            if merged {
                assert(join_touching(self@.rects, half) == self@.rects);
            }
        }
        if list_len(&self.rects) > self.max_rects {
            let ghost unsorted = self@.rects;
            self.sort_by_area();
            proof {
                lemma_covers_transitive(self@.rects, unsorted, start);
            }
            let ghost sorted = self@.rects;
            while list_len(&self.rects) > self.max_rects
                invariant
                    self@ == (TrackerView { rects: self@.rects, ..old(self)@ }),
                    screen == self@.screen(),
                    self@.max_rects == 64,
                    self@.merge_fits(),
                    covers_all(self@.rects, start),
                    all_within(self@.rects, screen),
                    self@.rects.len() <= start.len(),
                    join_smallest(self@.rects, 64) == join_smallest(sorted, 64),
                decreases self@.rects.len(),
            {
                let ghost before = self@.rects;
                let smallest = list_remove(&mut self.rects, 0);
                let n = list_len(&self.rects);
                let mut best_idx: usize = 0;
                let mut best_dist: u32 = u32::MAX;
                let mut i: usize = 0;
                while i < n
                    invariant
                        n == self@.rects.len(),
                        n >= 1,
                        i <= n,
                        before.len() == n + 1,
                        best_idx < n,
                        self@.rects == before.remove(0),
                        smallest == before[0],
                        all_within(before, screen),
                        screen == self@.screen(),
                        self@.merge_fits(),
                        i == 0 ==> best_dist == u32::MAX && best_idx == 0,
                        i >= 1 ==> best_idx == nearest_upto(self@.rects, smallest, i as int) && best_dist
                            == spec_distance(smallest, self@.rects[best_idx as int]),
                    decreases n - i,
                {
                    let r = list_get(&self.rects, i);
                    proof {
                        assert(r == before[i + 1]);
                        assert(screen.spec_contains(before[0]) && !before[0].spec_is_empty());
                        assert(screen.spec_contains(before[i + 1]) && !before[i + 1].spec_is_empty());
                        lemma_distance_within(screen, smallest, r);
                    }
                    let dist = self.rect_distance(&smallest, &r);
                    if dist < best_dist {
                        best_dist = dist;
                        best_idx = i;
                    }
                    i += 1;
                }
                let target = list_get(&self.rects, best_idx);
                proof {
                    assert(target == before[best_idx + 1]);
                }
                list_set(&mut self.rects, best_idx, target.union(&smallest));
                proof {
                    lemma_merge_first(before, best_idx as int, screen);
                    lemma_covers_transitive(self@.rects, before, start);
                    assert(before.len() > 64 && before.len() >= 2);
                }
            }
        }
    }

    /// Adds a damaged rect (see [`added`]).
    pub fn add(&mut self, rect: DamageRect)
        requires
            old(self)@.wf(),
            rect.fits(),
            add_needs_merge(old(self)@, rect) ==> old(self)@.merge_fits(),
        ensures
            added(old(self)@, final(self)@, rect),
            final(self)@.wf(),
    {
        if self.is_full() {
            return;
        }
        let screen = DamageRect::new(0, 0, self.screen_width, self.screen_height);
        let clipped = rect.clip(&screen);
        if clipped.is_empty() {
            return;
        }
        let ghost start = self@.rects;
        let n = list_len(&self.rects);
        let mut i: usize = 0;
        while i < n
            invariant
                n == start.len(),
                self@ == old(self)@,
                start == old(self)@.rects,
                old(self)@.wf(),
                !old(self)@.full,
                !clipped.spec_is_empty(),
                screen == old(self)@.screen(),
                all_within(start, screen),
                clipped == rect.spec_clip(screen),
                first_touching_from(start, clipped, 0) == first_touching_from(start, clipped, i as int),
            decreases n - i,
        {
            let existing = list_get(&self.rects, i);
            proof {
                assert(existing == start[i as int]);
                assert(screen.spec_contains(start[i as int]));
            }
            if existing.intersects(&clipped) || self.are_adjacent(&existing, &clipped) {
                list_set(&mut self.rects, i, existing.union(&clipped));
                proof {
                    assert(touching(start[i as int], clipped));
                    assert(first_touching_from(start, clipped, i as int) == i);
                    let u = existing.spec_union(clipped);
                    assert(self@.rects == start.update(i as int, u));
                    assert(screen.spec_contains(u));
                    assert forall|k: int| 0 <= k < self@.rects.len() implies screen.spec_contains(
                        #[trigger] self@.rects[k],
                    ) && !self@.rects[k].spec_is_empty() by {
                        if k != i {
                            assert(self@.rects[k] == start[k]);
                        }
                    }
                }
                return;
            }
            i += 1;
        }
        list_push(&mut self.rects, clipped);
        proof {
            assert forall|k: int| 0 <= k < self@.rects.len() implies screen.spec_contains(
                #[trigger] self@.rects[k],
            ) && !self@.rects[k].spec_is_empty() by {
                if k < start.len() {
                    assert(self@.rects[k] == start[k]);
                }
            }
        }
        if list_len(&self.rects) > self.max_rects {
            self.merge_rects();
        }
    }

    /// Adds the damage of cell `(x, y)`.
    pub fn add_cell(&mut self, x: u32, y: u32)
        requires
            old(self)@.wf(),
            DamageRect::cell_spec(x, y).fits(),
            add_needs_merge(old(self)@, DamageRect::cell_spec(x, y)) ==> old(self)@.merge_fits(),
        ensures
            added(old(self)@, final(self)@, DamageRect::cell_spec(x, y)),
            final(self)@.wf(),
    {
        self.add(DamageRect::cell(x, y));
    }

    /// Adds the damage of the whole row `y`.
    pub fn add_row(&mut self, y: u32)
        requires
            old(self)@.wf(),
            DamageRect::row_spec(y, old(self)@.screen_width).fits(),
            add_needs_merge(old(self)@, DamageRect::row_spec(y, old(self)@.screen_width)) ==> old(
                self,
            )@.merge_fits(),
        ensures
            added(old(self)@, final(self)@, DamageRect::row_spec(y, old(self)@.screen_width)),
            final(self)@.wf(),
    {
        let width = self.screen_width;
        self.add(DamageRect::row(y, width));
    }

    /// Adds the damage of columns `x_start..x_end` of row `y`; nothing when
    /// the range is empty.
    pub fn add_row_range(&mut self, y: u32, x_start: u32, x_end: u32)
        requires
            old(self)@.wf(),
            x_start < x_end ==> DamageRect::span_spec(y, x_start, x_end).fits(),
            x_start < x_end && add_needs_merge(old(self)@, DamageRect::span_spec(y, x_start, x_end)) ==> old(
                self,
            )@.merge_fits(),
        ensures
            x_start >= x_end ==> final(self)@ == old(self)@,
            x_start < x_end ==> added(old(self)@, final(self)@, DamageRect::span_spec(y, x_start, x_end)),
            final(self)@.wf(),
    {
        if x_start >= x_end {
            return;
        }
        self.add(DamageRect::new(x_start, y, x_end - x_start, 1));
    }

    /// Adds several damaged rects, in order.
    pub fn add_all(&mut self, rects: &[DamageRect])
        requires
            old(self)@.wf(),
            old(self)@.merge_fits(),
            forall|i: int| 0 <= i < rects@.len() ==> (#[trigger] rects@[i]).fits(),
        ensures
            final(self)@.wf(),
            final(self)@.full == old(self)@.full,
            final(self)@.screen() == old(self)@.screen(),
            old(self)@.full ==> final(self)@ == old(self)@,
            final(self)@ == add_each(old(self)@, rects@),
            covers_all(final(self)@.rects, old(self)@.rects),
            forall|i: int|
                0 <= i < rects@.len() && !old(self)@.full && !(#[trigger] rects@[i]).spec_clip(
                    old(self)@.screen(),
                ).spec_is_empty() ==> covered_by(final(self)@.rects, rects@[i].spec_clip(old(self)@.screen())),
    {
        let ghost start = self@;
        proof {
            lemma_covers_self(start.rects);
            assert(rects@.take(0) =~= Seq::<DamageRect>::empty());
        }
        let mut i: usize = 0;
        while i < rects.len()
            invariant
                i <= rects@.len(),
                self@.wf(),
                self@.full == start.full,
                self@.screen() == start.screen(),
                self@.merge_fits(),
                start.full ==> self@ == start,
                start == old(self)@,
                forall|k: int| 0 <= k < rects@.len() ==> (#[trigger] rects@[k]).fits(),
                covers_all(self@.rects, start.rects),
                forall|k: int|
                    0 <= k < i && !start.full && !(#[trigger] rects@[k]).spec_clip(start.screen()).spec_is_empty()
                        ==> covered_by(self@.rects, rects@[k].spec_clip(start.screen())),
                self@ == add_each(start, rects@.take(i as int)),
            decreases rects@.len() - i,
        {
            let ghost before = self@;
            let r = rects[i];
            self.add(r);
            proof {
                assert(rects@.take(i + 1).drop_last() =~= rects@.take(i as int));
                assert(rects@.take(i + 1).last() == r);
                lemma_add_keeps_damage(before, self@, r);
                lemma_covers_transitive(self@.rects, before.rects, start.rects);
                assert forall|k: int|
                    0 <= k < i + 1 && !start.full && !(#[trigger] rects@[k]).spec_clip(
                        start.screen(),
                    ).spec_is_empty() implies covered_by(self@.rects, rects@[k].spec_clip(start.screen())) by {
                    if k < i {
                        let c = rects@[k].spec_clip(start.screen());
                        assert(covered_by(before.rects, c));
                        let j = choose|j: int| 0 <= j < before.rects.len() && #[trigger] before.rects[j].spec_contains(c);
                        assert(covered_by(self@.rects, before.rects[j]));
                        let m = choose|m: int| 0 <= m < self@.rects.len() && #[trigger] self@.rects[m].spec_contains(before.rects[j]);
                        lemma_contains_transitive(self@.rects[m], before.rects[j], c);
                    }
                }
            }
            i += 1;
        }
        proof {
            assert(rects@.take(i as int) =~= rects@);
        }
    }
}

/// The tracker `t` after adding the rects `rs`, in order.
pub open spec fn add_each(t: TrackerView, rs: Seq<DamageRect>) -> TrackerView
    decreases rs.len(),
{
    if rs.len() == 0 {
        t
    } else {
        after_add(add_each(t, rs.drop_last()), rs.last())
    }
}

/// Adding damage never loses any: every rect tracked before stays covered,
/// and the on-screen part of the added rect is covered too (unless the
/// whole screen is already damaged).
pub proof fn lemma_add_keeps_damage(t: TrackerView, u: TrackerView, rect: DamageRect)
    requires
        t.wf(),
        rect.fits(),
        added(t, u, rect),
    ensures
        u.full == t.full,
        u.screen() == t.screen(),
        covers_all(u.rects, t.rects),
        !t.full && !rect.spec_clip(t.screen()).spec_is_empty() ==> covered_by(
            u.rects,
            rect.spec_clip(t.screen()),
        ),
{
    let c = rect.spec_clip(t.screen());
    let k = first_touching_from(t.rects, c, 0);
    lemma_covers_self(t.rects);
    if t.full || c.spec_is_empty() {
    } else if k >= 0 {
        lemma_first_touching_range(t.rects, c, 0);
        let v = t.rects[k].spec_union(c);
        assert(v.spec_contains(t.rects[k]) && v.spec_contains(c));
        assert forall|i: int| 0 <= i < t.rects.len() implies covered_by(u.rects, #[trigger] t.rects[i]) by {
            assert(u.rects[i].spec_contains(t.rects[i]));
        }
        assert(u.rects[k].spec_contains(c));
    } else if t.rects.len() + 1 <= t.max_rects {
        assert forall|i: int| 0 <= i < t.rects.len() implies covered_by(u.rects, #[trigger] t.rects[i]) by {
            assert(u.rects[i] == t.rects[i]);
            assert(u.rects[i].spec_contains(t.rects[i]));
        }
        assert(u.rects[t.rects.len() as int] == c);
        assert(u.rects[t.rects.len() as int].spec_contains(c));
    } else {
        let p = t.rects.push(c);
        assert forall|i: int| 0 <= i < t.rects.len() implies covered_by(u.rects, #[trigger] t.rects[i]) by {
            assert(p[i] == t.rects[i]);
            assert(covered_by(u.rects, p[i]));
        }
        assert(p[t.rects.len() as int] == c);
        assert(covered_by(u.rects, p[t.rects.len() as int]));
    }
}

/// A non-negative result of [`first_touching_from`] is an index of `s`.
pub(crate) proof fn lemma_first_touching_range(s: Seq<DamageRect>, c: DamageRect, i: int)
    ensures
        first_touching_from(s, c, i) >= 0 ==> 0 <= first_touching_from(s, c, i) < s.len() && i
            <= first_touching_from(s, c, i),
    decreases s.len() - i,
{
    if 0 <= i < s.len() && !touching(s[i], c) {
        lemma_first_touching_range(s, c, i + 1);
    }
}

} // verus!
