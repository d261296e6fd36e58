//! Screen buffer: a rectangular grid of cells stored row after row.

use vstd::prelude::*;
use crate::cell::Cell;

verus! {

/// Mathematical picture of a grid: its dimensions and its cells, row after row.
pub struct GridView {
    pub width: nat,
    pub height: nat,
    pub cells: Seq<Cell>,
}

/// Linear position of `(x, y)` in a row-major buffer of the given width.
pub open spec fn flat_index(width: nat, x: int, y: int) -> int {
    y * width + x
}

/// A sequence of `n` blank cells.
pub open spec fn blank_row(n: nat) -> Seq<Cell> {
    Seq::new(n, |i: int| Cell::spec_blank())
}

pub proof fn lemma_flat_index(width: nat, height: nat, x: int, y: int)
    requires
        0 <= x < width,
        0 <= y < height,
    ensures
        0 <= flat_index(width, x, y) < width * height,
        flat_index(width, 0, y) + width <= width * height,
        0 <= flat_index(width, 0, y),
{
    assert(0 <= y * width) by (nonlinear_arith)
        requires
            0 <= y,
    ;
    assert(y * width + width <= width * height) by (nonlinear_arith)
        requires
            0 <= y < height,
    ;
}

pub proof fn lemma_flat_index_injective(width: nat, x1: int, y1: int, x2: int, y2: int)
    requires
        0 <= x1 < width,
        0 <= x2 < width,
        0 <= y1,
        0 <= y2,
        flat_index(width, x1, y1) == flat_index(width, x2, y2),
    ensures
        x1 == x2,
        y1 == y2,
{
    assert(y1 == y2) by (nonlinear_arith)
        requires
            0 <= x1 < width,
            0 <= x2 < width,
            y1 * width + x1 == y2 * width + x2,
    ;
}

pub proof fn lemma_flat_index_next_row(width: nat, x: int, y: int)
    ensures
        flat_index(width, x, y + 1) == flat_index(width, x, y) + width,
{
    assert((y + 1) * width == y * width + width) by (nonlinear_arith);
}

impl GridView {
    /// The grid with the given dimensions and cells.
    pub open spec fn of(width: nat, height: nat, cells: Seq<Cell>) -> GridView {
        GridView { width, height, cells }
    }

    /// Buffer length matches the dimensions.
    pub open spec fn wf(self) -> bool {
        self.cells.len() == self.width * self.height
    }

    pub open spec fn in_bounds(self, x: int, y: int) -> bool {
        0 <= x < self.width && 0 <= y < self.height
    }

    /// The cell at column `x`, row `y`.
    pub open spec fn cell(self, x: int, y: int) -> Cell {
        self.cells[flat_index(self.width, x, y)]
    }

    /// The cells of row `y`, left to right.
    pub open spec fn row(self, y: int) -> Seq<Cell> {
        self.cells.subrange(flat_index(self.width, 0, y), flat_index(self.width, 0, y) + self.width)
    }

    /// A grid of the given size filled with blank cells.
    pub open spec fn blank(width: nat, height: nat) -> GridView {
        GridView { width, height, cells: blank_row(width * height) }
    }

    /// The grid after writing `c` at `(x, y)`; unchanged when out of bounds.
    pub open spec fn set(self, x: int, y: int, c: Cell) -> GridView {
        if self.in_bounds(x, y) {
            GridView { cells: self.cells.update(flat_index(self.width, x, y), c), ..self }
        } else {
            self
        }
    }

    /// The grid after dropping its top row and appending a blank one.
    pub open spec fn scrolled_up(self) -> GridView {
        if self.height == 0 || self.width == 0 {
            self
        } else {
            GridView {
                cells: self.cells.subrange(self.width as int, self.cells.len() as int) + blank_row(self.width),
                ..self
            }
        }
    }
}

/// Screen buffer of the terminal: a rectangular grid of [`Cell`].
///
/// The cells live in one flat vector, row after row, so that a cell's index
/// is `y * width + x`.
#[derive(Debug, Clone)]
pub struct Grid {
    width: usize,
    height: usize,
    cells: Vec<Cell>,
}

impl View for Grid {
    type V = GridView;

    closed spec fn view(&self) -> GridView {
        GridView { width: self.width as nat, height: self.height as nat, cells: self.cells@ }
    }
}

/// A vector of `n` blank cells.
pub fn blank_cells(n: usize) -> (v: Vec<Cell>)
    ensures
        v@ == blank_row(n as nat),
{
    let mut v: Vec<Cell> = Vec::with_capacity(n);
    let mut i: usize = 0;
    while i < n
        invariant
            i <= n,
            v@ == blank_row(i as nat),
        decreases n - i,
    {
        v.push(Cell::blank());
        i += 1;
    }
    v
}

impl Grid {
    /// Creates a `width` x `height` grid of blank cells.
    pub fn new(width: usize, height: usize) -> (g: Self)
        requires
            width * height <= usize::MAX,
        ensures
            g@ == GridView::blank(width as nat, height as nat),
            g@.wf(),
    {
        let n = width * height;
        Grid { width, height, cells: blank_cells(n) }
    }

    /// Width in columns.
    pub fn width(&self) -> (w: usize)
        ensures
            w == self@.width,
    {
        self.width
    }

    /// Height in rows.
    pub fn height(&self) -> (h: usize)
        ensures
            h == self@.height,
    {
        self.height
    }

    /// Linear index of `(x, y)` in the buffer.
    fn index(&self, x: usize, y: usize) -> (i: usize)
        requires
            self@.wf(),
            self@.in_bounds(x as int, y as int),
        ensures
            i == flat_index(self@.width, x as int, y as int),
            i < self@.cells.len(),
    {
        let _n = self.cells.len();
        proof {
            lemma_flat_index(self@.width, self@.height, x as int, y as int);
        }
        y * self.width + x
    }

    /// The cell at `(x, y)`, or `None` outside the grid.
    pub fn get(&self, x: usize, y: usize) -> (r: Option<&Cell>)
        requires
            self@.wf(),
        ensures
            r == (if self@.in_bounds(x as int, y as int) { Some(&self@.cell(x as int, y as int)) } else { None }),
    {
        if x >= self.width || y >= self.height {
            return None;
        }
        let i = self.index(x, y);
        Some(&self.cells[i])
    }

    /// Mutable access to the cell at `(x, y)`, or `None` outside the grid.
    pub fn get_mut(&mut self, x: usize, y: usize) -> (r: Option<&mut Cell>)
        requires
            old(self)@.wf(),
        ensures
            old(self)@.in_bounds(x as int, y as int) <==> r is Some,
            r is None ==> final(self)@ == old(self)@,
            r matches Some(c) ==> {
                &&& *c == old(self)@.cell(x as int, y as int)
                &&& final(self)@ == old(self)@.set(x as int, y as int, *final(c))
            },
    {
        if x >= self.width || y >= self.height {
            return None;
        }
        let i = self.index(x, y);
        Some(&mut self.cells[i])
    }

    /// Replaces the cell at `(x, y)`; returns `false` (and changes nothing)
    /// outside the grid.
    pub fn set(&mut self, x: usize, y: usize, cell: Cell) -> (ok: bool)
        requires
            old(self)@.wf(),
        ensures
            ok == old(self)@.in_bounds(x as int, y as int),
            final(self)@ == old(self)@.set(x as int, y as int, cell),
            final(self)@.wf(),
    {
        if x >= self.width || y >= self.height {
            return false;
        }
        let i = self.index(x, y);
        self.cells.set(i, cell);
        true
    }

    /// The cells of row `y`, or `None` past the last row.
    pub fn row(&self, y: usize) -> (r: Option<&[Cell]>)
        requires
            self@.wf(),
        ensures
            (y < self@.height) <==> r is Some,
            r matches Some(s) ==> s@ == self@.row(y as int),
    {
        if y >= self.height {
            return None;
        }
        let _n = self.cells.len();
        proof {
            if self.width > 0 {
                lemma_flat_index(self@.width, self@.height, 0, y as int);
            } else {
                assert(y * self.width == 0) by (nonlinear_arith)
                    requires
                        self.width == 0,
                ;
            }
        }
        let start = y * self.width;
        Some(vstd::slice::slice_subrange(self.cells.as_slice(), start, start + self.width))
    }

    /// Resets every cell to blank, keeping the dimensions.
    pub fn clear(&mut self)
        requires
            old(self)@.wf(),
        ensures
            final(self)@ == GridView::blank(old(self)@.width, old(self)@.height),
            final(self)@.wf(),
    {
        let n = self.cells.len();
        let mut i: usize = 0;
        while i < n
            invariant
                n == self.cells@.len(),
                self.width == old(self).width,
                self.height == old(self).height,
                self@.wf(),
                i <= n,
                forall|j: int| 0 <= j < i ==> self.cells@[j] == Cell::spec_blank(),
            decreases n - i,
        {
            self.cells.set(i, Cell::blank());
            i += 1;
        }
        assert(self.cells@ =~= blank_row(n as nat));
    }

    /// Resizes the grid, keeping the top-left region both sizes share;
    /// new cells are blank and cells outside the new area are dropped.
    pub fn resize(&mut self, new_width: usize, new_height: usize)
        requires
            old(self)@.wf(),
            new_width * new_height <= usize::MAX,
        ensures
            final(self)@.wf(),
            final(self)@.width == new_width,
            final(self)@.height == new_height,
            forall|x: int, y: int|
                0 <= x < new_width && 0 <= y < new_height ==> #[trigger] final(self)@.cell(x, y) == (if old(
                    self,
                )@.in_bounds(x, y) {
                    old(self)@.cell(x, y)
                } else {
                    Cell::spec_blank()
                }),
    {
        let ghost old_view = self@;
        let mut new_cells = blank_cells(new_width * new_height);
        let copy_width = if self.width < new_width { self.width } else { new_width };
        let copy_height = if self.height < new_height { self.height } else { new_height };
        let n0 = self.cells.len();
        proof {
            assert forall|xx: int, yy: int|
                0 <= xx < new_width && 0 <= yy < new_height implies #[trigger] GridView::of(new_width as nat, new_height as nat, new_cells@).cell(xx, yy)
                    == Cell::spec_blank() by {
                lemma_flat_index(new_width as nat, new_height as nat, xx, yy);
            }
        }

        let mut y: usize = 0;
        while y < copy_height
            invariant
                self@ == old_view,
                old_view.wf(),
                copy_width <= self.width,
                copy_width <= new_width,
                n0 == self.cells@.len(),
                copy_width == (if old_view.width < new_width { old_view.width } else { new_width as nat }),
                copy_height == (if old_view.height < new_height { old_view.height } else { new_height as nat }),
                copy_height <= self.height,
                copy_height <= new_height,
                new_width * new_height <= usize::MAX,
                y <= copy_height,
                new_cells@.len() == new_width * new_height,
                forall|xx: int, yy: int|
                    0 <= xx < new_width && 0 <= yy < new_height ==> #[trigger] GridView::of(new_width as nat, new_height as nat, new_cells@).cell(xx, yy) == (if old_view.in_bounds(xx, yy) && yy < y {
                        old_view.cell(xx, yy)
                    } else {
                        Cell::spec_blank()
                    }),
            decreases copy_height - y,
        {
            let mut x: usize = 0;
            while x < copy_width
                invariant
                    self@ == old_view,
                    old_view.wf(),
                    copy_width <= self.width,
                    copy_width <= new_width,
                    n0 == self.cells@.len(),
                    copy_width == (if old_view.width < new_width { old_view.width } else { new_width as nat }),
                    copy_height == (if old_view.height < new_height { old_view.height } else { new_height as nat }),
                    copy_height <= self.height,
                    copy_height <= new_height,
                    new_width * new_height <= usize::MAX,
                    y < copy_height,
                    x <= copy_width,
                    new_cells@.len() == new_width * new_height,
                    forall|xx: int, yy: int|
                        0 <= xx < new_width && 0 <= yy < new_height ==> #[trigger] GridView::of(new_width as nat, new_height as nat, new_cells@).cell(xx, yy) == (if old_view.in_bounds(xx, yy) && (yy < y || (yy == y && xx < x)) {
                            old_view.cell(xx, yy)
                        } else {
                            Cell::spec_blank()
                        }),
                decreases copy_width - x,
            {
                proof {
                    lemma_flat_index(new_width as nat, new_height as nat, x as int, y as int);
                    lemma_flat_index(self.width as nat, self.height as nat, x as int, y as int);
                }
                let old_i = y * self.width + x;
                let new_i = y * new_width + x;
                let c = self.cells[old_i];
                let ghost before = new_cells@;
                new_cells.set(new_i, c);
                proof {
                    assert forall|xx: int, yy: int|
                        0 <= xx < new_width && 0 <= yy < new_height implies #[trigger] GridView::of(new_width as nat, new_height as nat, new_cells@).cell(xx, yy) == (if old_view.in_bounds(xx, yy) && (yy < y || (yy == y && xx < x
                            + 1)) {
                            old_view.cell(xx, yy)
                        } else {
                            Cell::spec_blank()
                        }) by {
                        lemma_flat_index(new_width as nat, new_height as nat, xx, yy);
                        if flat_index(new_width as nat, xx, yy) == new_i as int {
                            lemma_flat_index_injective(new_width as nat, xx, yy, x as int, y as int);
                        } else {
                            assert(GridView::of(new_width as nat, new_height as nat, before).cell(xx, yy)
                                == GridView::of(new_width as nat, new_height as nat, new_cells@).cell(xx, yy));
                        }
                    }
                }
                x += 1;
            }
            proof {
                assert forall|xx: int, yy: int|
                    0 <= xx < new_width && 0 <= yy < new_height implies #[trigger] GridView::of(new_width as nat, new_height as nat, new_cells@).cell(xx, yy)
                        == (if old_view.in_bounds(xx, yy) && yy < y + 1 {
                        old_view.cell(xx, yy)
                    } else {
                        Cell::spec_blank()
                    }) by {
                    if old_view.in_bounds(xx, yy) && yy == y {
                        assert(xx < copy_width);
                    }
                }
            }
            y += 1;
        }
        proof {
            assert forall|xx: int, yy: int|
                0 <= xx < new_width && 0 <= yy < new_height implies #[trigger] GridView::of(new_width as nat, new_height as nat, new_cells@).cell(xx, yy)
                    == (if old_view.in_bounds(xx, yy) {
                    old_view.cell(xx, yy)
                } else {
                    Cell::spec_blank()
                }) by {
                if old_view.in_bounds(xx, yy) {
                    assert(yy < copy_height);
                }
            }
        }
        self.width = new_width;
        self.height = new_height;
        self.cells = new_cells;
    }

    /// Scrolls one row up: drops the top row and appends a blank row.
    pub fn scroll_up(&mut self)
        requires
            old(self)@.wf(),
        ensures
            final(self)@ == old(self)@.scrolled_up(),
            final(self)@.wf(),
    {
        if self.height == 0 || self.width == 0 {
            return;
        }
        let w = self.width;
        let n = self.cells.len();
        proof {
            lemma_flat_index(self@.width, self@.height, 0, 0);
        }
        let mut new_cells: Vec<Cell> = Vec::with_capacity(n);
        let mut i: usize = w;
        while i < n
            invariant
                w <= i <= n,
                n == self.cells@.len(),
                new_cells@ == self.cells@.subrange(w as int, i as int),
            decreases n - i,
        {
            new_cells.push(self.cells[i]);
            i += 1;
        }
        let mut k: usize = 0;
        while k < w
            invariant
                k <= w,
                new_cells@ == self.cells@.subrange(w as int, n as int) + blank_row(k as nat),
            decreases w - k,
        {
            new_cells.push(Cell::blank());
            k += 1;
            assert(blank_row(k as nat) =~= blank_row((k - 1) as nat).push(Cell::spec_blank()));
        }
        self.cells = new_cells;
    }
}

} // verus!

verus! {

impl Grid {
    /// Dimensions fit in `usize`.
    pub proof fn lemma_dims(&self)
        ensures
            self@.width <= usize::MAX,
            self@.height <= usize::MAX,
    {
    }
}

} // verus!

verus! {

/// Writing a cell and reading it back gives that cell; every other cell is
/// unchanged.
pub proof fn lemma_set_then_get(g: GridView, x: int, y: int, c: Cell, x2: int, y2: int)
    requires
        g.wf(),
        g.in_bounds(x, y),
        g.in_bounds(x2, y2),
    ensures
        g.set(x, y, c).wf(),
        g.set(x, y, c).cell(x2, y2) == (if x2 == x && y2 == y { c } else { g.cell(x2, y2) }),
{
    lemma_flat_index(g.width, g.height, x, y);
    lemma_flat_index(g.width, g.height, x2, y2);
    if flat_index(g.width, x, y) == flat_index(g.width, x2, y2) {
        lemma_flat_index_injective(g.width, x, y, x2, y2);
    }
}

/// Scrolling up moves every row one up and leaves a blank last row.
pub proof fn lemma_scroll_up_shifts_rows(g: GridView, x: int, y: int)
    requires
        g.wf(),
        g.in_bounds(x, y),
    ensures
        g.scrolled_up().wf(),
        g.scrolled_up().cell(x, y) == (if y + 1 < g.height { g.cell(x, y + 1) } else { Cell::spec_blank() }),
{
    lemma_flat_index(g.width, g.height, x, y);
    lemma_flat_index_next_row(g.width, x, y);
    assert(g.width * g.height >= g.width) by (nonlinear_arith)
        requires
            g.height >= 1,
    ;
    if y + 1 < g.height {
        lemma_flat_index(g.width, g.height, x, y + 1);
    } else {
        assert(flat_index(g.width, x, y) >= g.width * g.height - g.width) by (nonlinear_arith)
            requires
                y + 1 >= g.height,
                y < g.height,
                flat_index(g.width, x, y) == y * g.width + x,
                x >= 0,
        ;
    }
}

/// A row read from the grid holds exactly the cells of that row.
pub proof fn lemma_row_cells(g: GridView, x: int, y: int)
    requires
        g.wf(),
        g.in_bounds(x, y),
    ensures
        g.row(y).len() == g.width,
        g.row(y)[x] == g.cell(x, y),
{
    lemma_flat_index(g.width, g.height, x, y);
}

} // verus!

verus! {

impl Grid {
    /// Blanks the cells of row `y` with `x0 <= x < x1` (clipped to the grid).
    pub(crate) fn blank_span(&mut self, y: usize, x0: usize, x1: usize)
        requires
            old(self)@.wf(),
        ensures
            final(self)@.wf(),
            final(self)@.width == old(self)@.width,
            final(self)@.height == old(self)@.height,
            forall|x: int, yy: int|
                old(self)@.in_bounds(x, yy) ==> #[trigger] final(self)@.cell(x, yy) == (if yy == y && x0 <= x
                    < x1 {
                    Cell::spec_blank()
                } else {
                    old(self)@.cell(x, yy)
                }),
    {
        let end = if x1 < self.width { x1 } else { self.width };
        let mut x = x0;
        while x < end
            invariant
                self@.wf(),
                self@.width == old(self)@.width,
                self@.height == old(self)@.height,
                end == (if x1 < old(self)@.width { x1 as int } else { old(self)@.width as int }),
                x0 <= x,
                x <= end || x == x0,
                forall|xx: int, yy: int|
                    old(self)@.in_bounds(xx, yy) ==> #[trigger] self@.cell(xx, yy) == (if yy == y && x0 <= xx
                        < x {
                        Cell::spec_blank()
                    } else {
                        old(self)@.cell(xx, yy)
                    }),
            decreases end - x,
        {
            let ghost before = self@;
            self.set(x, y, Cell::blank());
            proof {
                assert forall|xx: int, yy: int| old(self)@.in_bounds(xx, yy) implies #[trigger] self@.cell(xx, yy)
                    == (if yy == y && x0 <= xx < x + 1 {
                    Cell::spec_blank()
                } else {
                    old(self)@.cell(xx, yy)
                }) by {
                    if before.in_bounds(x as int, y as int) {
                        lemma_set_then_get(before, x as int, y as int, Cell::spec_blank(), xx, yy);
                    }
                }
            }
            x += 1;
        }
    }
}

} // verus!
