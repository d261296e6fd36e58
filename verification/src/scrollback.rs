//! Scrollback history: the lines that scrolled off the top of the screen.

use vstd::prelude::*;
use std::collections::{HashMap, VecDeque};
use crate::cell::Cell;
use crate::grid::{blank_cells, blank_row};

verus! {

broadcast use vstd::std_specs::vecdeque::group_vec_dequeue_axioms;

/// Mathematical picture of a [`Row`].
pub struct RowView {
    pub cells: Seq<Cell>,
    pub hyperlinks: Map<usize, String>,
}

/// A row of cells kept in the scrollback.
#[derive(Debug)]
pub struct Row {
    pub cells: Vec<Cell>,
    /// Hyperlink URIs per column (key = column, value = URI).
    pub hyperlinks: HashMap<usize, String>,
}

impl View for Row {
    type V = RowView;

    open spec fn view(&self) -> RowView {
        RowView { cells: self.cells@, hyperlinks: self.hyperlinks@ }
    }
}

impl Clone for Row {
    fn clone(&self) -> (r: Self)
        ensures
            r@ == self@,
    {
        let mut cells: Vec<Cell> = Vec::with_capacity(self.cells.len());
        let mut i: usize = 0;
        while i < self.cells.len()
            invariant
                i <= self.cells@.len(),
                cells@ == self.cells@.subrange(0, i as int),
            decreases self.cells@.len() - i,
        {
            cells.push(self.cells[i]);
            i += 1;
        }
        assert(cells@ =~= self.cells@);
        Row { cells, hyperlinks: self.hyperlinks.clone() }
    }
}

impl Row {
    /// A row of `width` blank cells without hyperlinks.
    pub open spec fn spec_new(width: nat) -> RowView {
        RowView { cells: blank_row(width), hyperlinks: Map::empty() }
    }

    /// Creates a row of `width` blank cells.
    pub fn new(width: usize) -> (r: Self)
        ensures
            r@ == Row::spec_new(width as nat),
    {
        Row { cells: blank_cells(width), hyperlinks: HashMap::new() }
    }

    /// Creates a row holding a copy of `cells`.
    pub fn from_cells(cells: &[Cell]) -> (r: Self)
        ensures
            r@ == (RowView { cells: cells@, hyperlinks: Map::empty() }),
    {
        let mut v: Vec<Cell> = Vec::with_capacity(cells.len());
        let mut i: usize = 0;
        while i < cells.len()
            invariant
                i <= cells@.len(),
                v@ == cells@.subrange(0, i as int),
            decreases cells@.len() - i,
        {
            v.push(cells[i]);
            i += 1;
        }
        assert(v@ =~= cells@);
        Row { cells: v, hyperlinks: HashMap::new() }
    }

    /// Number of cells in the row.
    pub fn width(&self) -> (w: usize)
        ensures
            w == self@.cells.len(),
    {
        self.cells.len()
    }
}

/// The row resized to `width` cells: truncated, or padded with blank cells.
pub open spec fn resized_row(r: RowView, width: nat) -> RowView {
    if r.cells.len() < width {
        RowView { cells: r.cells + blank_row((width - r.cells.len()) as nat), ..r }
    } else {
        RowView { cells: r.cells.subrange(0, width as int), ..r }
    }
}

/// Mathematical picture of a [`ScrollbackBuffer`].
pub struct ScrollbackView {
    /// Stored lines, most recent first.
    pub lines: Seq<RowView>,
    pub max_size: nat,
    /// Lines the viewport is scrolled up from the bottom (0 = live output).
    pub viewport_offset: nat,
}

impl ScrollbackView {
    /// The history after `row` scrolled off the screen: it becomes line 0;
    /// the oldest line is dropped when the history is full; a scrolled-up
    /// viewport moves with the content.
    pub open spec fn push_line(self, row: RowView) -> ScrollbackView {
        let kept = if self.lines.len() >= self.max_size && self.lines.len() > 0 {
            self.lines.drop_last()
        } else {
            self.lines
        };
        ScrollbackView {
            lines: seq![row] + kept,
            viewport_offset: if self.viewport_offset > 0 { self.viewport_offset + 1 } else { 0 },
            ..self
        }
    }

    /// How far `scroll_up(amount)` moves: at most to the oldest line.
    pub open spec fn scroll_up_amount(self, amount: nat) -> nat {
        let available: int = if self.lines.len() >= self.viewport_offset {
            self.lines.len() - self.viewport_offset
        } else {
            0
        };
        if amount <= available { amount } else { available as nat }
    }

    /// How far `scroll_down(amount)` moves: at most to the bottom.
    pub open spec fn scroll_down_amount(self, amount: nat) -> nat {
        if amount <= self.viewport_offset { amount } else { self.viewport_offset }
    }
}

/// History of lines that scrolled off the top of the screen, most recent
/// first, together with how far the viewport is scrolled back into it.
#[derive(Debug)]
pub struct ScrollbackBuffer {
    lines: VecDeque<Row>,
    max_size: usize,
    viewport_offset: usize,
}

impl View for ScrollbackBuffer {
    type V = ScrollbackView;

    closed spec fn view(&self) -> ScrollbackView {
        ScrollbackView {
            lines: self.lines@.map_values(|r: Row| r@),
            max_size: self.max_size as nat,
            viewport_offset: self.viewport_offset as nat,
        }
    }
}

impl ScrollbackBuffer {
    /// Creates an empty history that keeps at most `max_size` lines.
    pub fn new(max_size: usize, _width: usize) -> (s: Self)
        ensures
            s@ == (ScrollbackView { lines: Seq::empty(), max_size: max_size as nat, viewport_offset: 0 }),
    {
        let s = ScrollbackBuffer { lines: VecDeque::with_capacity(max_size), max_size, viewport_offset: 0 };
        assert(s@.lines =~= Seq::empty());
        s
    }

    /// The line limit.
    pub fn max_size(&self) -> (m: usize)
        ensures
            m == self@.max_size,
    {
        self.max_size
    }

    /// Number of stored lines.
    pub fn len(&self) -> (n: usize)
        ensures
            n == self@.lines.len(),
    {
        self.lines.len()
    }

    /// Whether no line is stored.
    pub fn is_empty(&self) -> (b: bool)
        ensures
            b == (self@.lines.len() == 0),
    {
        self.lines.len() == 0
    }

    /// Adds the line that just scrolled off the top of the screen.
    pub fn push_line(&mut self, line: Row)
        requires
            old(self)@.viewport_offset < usize::MAX,
        ensures
            final(self)@ == old(self)@.push_line(line@),
    {
        let ghost old_lines = self.lines@;
        if self.lines.len() >= self.max_size {
            self.lines.pop_back();
        }
        let ghost mid = self.lines@;
        self.lines.push_front(line);
        if self.viewport_offset > 0 {
            self.viewport_offset += 1;
        }
        proof {
            let kept = if old_lines.len() >= self.max_size && old_lines.len() > 0 {
                old_lines.drop_last()
            } else {
                old_lines
            };
            assert(mid == kept);
            assert(self@.lines =~= seq![line@] + kept.map_values(|r: Row| r@));
            if old_lines.len() > 0 {
                assert(old(self)@.lines.drop_last() =~= old_lines.drop_last().map_values(|r: Row| r@));
            }
        }
    }

    /// Scrolls the viewport up by at most `amount` lines; returns how far it moved.
    pub fn scroll_up(&mut self, amount: usize) -> (actual: usize)
        ensures
            actual == old(self)@.scroll_up_amount(amount as nat),
            final(self)@ == (ScrollbackView {
                viewport_offset: old(self)@.viewport_offset + actual as nat,
                ..old(self)@
            }),
    {
        let available = self.lines.len().saturating_sub(self.viewport_offset);
        let actual = if amount < available { amount } else { available };
        self.viewport_offset += actual;
        actual
    }

    /// Scrolls the viewport down by at most `amount` lines; returns how far it moved.
    pub fn scroll_down(&mut self, amount: usize) -> (actual: usize)
        ensures
            actual == old(self)@.scroll_down_amount(amount as nat),
            final(self)@ == (ScrollbackView {
                viewport_offset: (old(self)@.viewport_offset - actual) as nat,
                ..old(self)@
            }),
    {
        let actual = if amount < self.viewport_offset { amount } else { self.viewport_offset };
        self.viewport_offset -= actual;
        actual
    }

    /// Scrolls to the oldest line.
    pub fn scroll_to_top(&mut self)
        ensures
            final(self)@ == (ScrollbackView { viewport_offset: old(self)@.lines.len(), ..old(self)@ }),
    {
        self.viewport_offset = self.lines.len();
    }

    /// Scrolls back to the live output.
    pub fn scroll_to_bottom(&mut self)
        ensures
            final(self)@ == (ScrollbackView { viewport_offset: 0, ..old(self)@ }),
    {
        self.viewport_offset = 0;
    }

    /// The viewport offset (0 = at the bottom).
    pub fn viewport_offset(&self) -> (o: usize)
        ensures
            o == self@.viewport_offset,
    {
        self.viewport_offset
    }

    /// Whether the viewport shows the live output.
    pub fn is_at_bottom(&self) -> (b: bool)
        ensures
            b == (self@.viewport_offset == 0),
    {
        self.viewport_offset == 0
    }

    /// Number of stored lines.
    pub fn total_lines(&self) -> (n: usize)
        ensures
            n == self@.lines.len(),
    {
        self.lines.len()
    }

    /// The stored line at `index` (0 = most recent), if any.
    pub fn get_line(&self, index: usize) -> (r: Option<&Row>)
        ensures
            r is Some <==> index < self@.lines.len(),
            r matches Some(row) ==> row@ == self@.lines[index as int],
    {
        if index < self.lines.len() {
            Some(&self.lines[index])
        } else {
            None
        }
    }

    /// The stored line `viewport_row` lines past the viewport offset, if any.
    pub fn get_viewport_line(&self, viewport_row: usize) -> (r: Option<&Row>)
        requires
            self@.viewport_offset + viewport_row <= usize::MAX,
        ensures
            r is Some <==> self@.viewport_offset + viewport_row < self@.lines.len(),
            r matches Some(row) ==> row@ == self@.lines[self@.viewport_offset + viewport_row],
    {
        let absolute = self.viewport_offset + viewport_row;
        self.get_line(absolute)
    }

    /// Drops every line and returns to the bottom.
    pub fn clear(&mut self)
        ensures
            final(self)@ == (ScrollbackView { lines: Seq::empty(), viewport_offset: 0, ..old(self)@ }),
    {
        self.lines.clear();
        self.viewport_offset = 0;
        assert(self@.lines =~= Seq::empty());
    }

    /// Resizes every stored line to `new_width` cells.
    pub fn resize(&mut self, new_width: usize)
        ensures
            final(self)@ == (ScrollbackView {
                lines: old(self)@.lines.map_values(|r: RowView| resized_row(r, new_width as nat)),
                ..old(self)@
            }),
    {
        let n = self.lines.len();
        let ghost orig = self@.lines;
        let mut k: usize = 0;
        while k < n
            invariant
                k <= n,
                n == orig.len(),
                self.max_size == old(self).max_size,
                self.viewport_offset == old(self).viewport_offset,
                self@.lines =~= orig.subrange(k as int, n as int) + orig.subrange(0, k as int).map_values(
                    |r: RowView| resized_row(r, new_width as nat),
                ),
            decreases n - k,
        {
            let ghost before = self@.lines;
            let ghost raw = self.lines@;
            let row = self.lines.pop_front();
            match row {
                Some(mut row) => {
                    assert(raw.map_values(|r: Row| r@)[0] == orig[k as int]);
                    assert(self@.lines =~= before.subrange(1, before.len() as int));
                    let len = row.cells.len();
                    let ghost old_cells = row.cells@;
                    if len < new_width {
                        let mut extra = blank_cells(new_width - len);
                        row.cells.append(&mut extra);
                        assert(row.cells@ =~= old_cells + blank_row((new_width - len) as nat));
                    } else {
                        row.cells.truncate(new_width);
                        assert(row.cells@ =~= old_cells.subrange(0, new_width as int));
                    }
                    assert(row@ == resized_row(orig[k as int], new_width as nat));
                    let ghost mid = self@.lines;
                    self.lines.push_back(row);
                    assert(self@.lines =~= mid.push(resized_row(orig[k as int], new_width as nat)));
                    assert(orig.subrange(0, k + 1).map_values(|r: RowView| resized_row(r, new_width as nat))
                        =~= orig.subrange(0, k as int).map_values(|r: RowView| resized_row(r, new_width as nat)).push(
                        resized_row(orig[k as int], new_width as nat)));
                },
                None => {},
            }
            k += 1;
        }
        assert(orig.subrange(0, n as int) =~= orig);
    }
}

} // verus!

verus! {

impl ScrollbackBuffer {
    /// Every stored line, and the line count, fit in `usize`.
    pub proof fn lemma_lengths(&self)
        ensures
            self@.lines.len() <= usize::MAX,
            self@.viewport_offset <= usize::MAX,
            self@.max_size <= usize::MAX,
            forall|i: int| 0 <= i < self@.lines.len() ==> #[trigger] self@.lines[i].cells.len() <= usize::MAX,
    {
        broadcast use vstd::std_specs::vec::axiom_spec_len;
        assert(self.lines.len() == self.lines@.len());
        assert forall|i: int| 0 <= i < self@.lines.len() implies #[trigger] self@.lines[i].cells.len() <= usize::MAX by {
            assert(self.lines@[i].cells.len() == self.lines@[i].cells@.len());
        }
    }
}

} // verus!

verus! {

/// Pushing a line puts it first and keeps the history within its limit
/// (one line when the limit is 0).
pub proof fn lemma_push_line_bounded(s: ScrollbackView, row: RowView)
    requires
        s.lines.len() <= (if s.max_size == 0 { 1 } else { s.max_size }),
    ensures
        s.push_line(row).lines.len() <= (if s.max_size == 0 { 1 } else { s.max_size }),
        s.push_line(row).lines[0] == row,
        forall|i: int|
            0 < i < s.push_line(row).lines.len() ==> #[trigger] s.push_line(row).lines[i] == s.lines[i - 1],
{
}

} // verus!
