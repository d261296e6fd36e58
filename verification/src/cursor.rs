//! Text-cursor position and visibility.

use vstd::prelude::*;

verus! {

/// Position and visibility of the text cursor.
///
/// The cursor knows nothing about the grid: moving right or down is not
/// clamped here; the terminal keeps it inside the screen where that matters.
/// Coordinates are zero-based, `(0, 0)` being the top-left corner.
#[derive(Debug, Clone, Copy, PartialEq, Eq, Structural)]
pub struct Cursor {
    pub x: usize,
    pub y: usize,
    visible: bool,
}

impl Cursor {
    /// Whether the cursor is shown.
    pub closed spec fn shown(&self) -> bool {
        self.visible
    }

    /// Column of the cursor.
    pub closed spec fn cx(&self) -> usize {
        self.x
    }

    /// Row of the cursor.
    pub closed spec fn cy(&self) -> usize {
        self.y
    }

    /// Creates a visible cursor at the origin.
    pub fn new() -> (c: Self)
        ensures
            c.cx() == 0,
            c.cy() == 0,
            c.shown(),
    {
        Self { x: 0, y: 0, visible: true }
    }

    /// The current position as `(x, y)`.
    pub fn position(&self) -> (p: (usize, usize))
        ensures
            p == (self.cx(), self.cy()),
    {
        (self.x, self.y)
    }

    /// Moves to an absolute position, without clamping.
    pub fn move_to(&mut self, x: usize, y: usize)
        ensures
            final(self).cx() == x,
            final(self).cy() == y,
            final(self).shown() == old(self).shown(),
    {
        self.x = x;
        self.y = y;
    }

    /// Moves `n` columns left, stopping at column 0.
    pub fn move_left(&mut self, n: usize)
        ensures
            final(self).cx() == (if old(self).cx() >= n { old(self).cx() - n } else { 0 }),
            final(self).cy() == old(self).cy(),
            final(self).shown() == old(self).shown(),
    {
        self.x = self.x.saturating_sub(n);
    }

    /// Moves `n` columns right, stopping at `usize::MAX`.
    pub fn move_right(&mut self, n: usize)
        ensures
            final(self).cx() == (if old(self).cx() + n <= usize::MAX { (old(self).cx() + n) as usize } else { usize::MAX }),
            final(self).cy() == old(self).cy(),
            final(self).shown() == old(self).shown(),
    {
        self.x = self.x.saturating_add(n);
    }

    /// Moves `n` rows up, stopping at row 0.
    pub fn move_up(&mut self, n: usize)
        ensures
            final(self).cy() == (if old(self).cy() >= n { old(self).cy() - n } else { 0 }),
            final(self).cx() == old(self).cx(),
            final(self).shown() == old(self).shown(),
    {
        self.y = self.y.saturating_sub(n);
    }

    /// Moves `n` rows down, stopping at `usize::MAX`.
    pub fn move_down(&mut self, n: usize)
        ensures
            final(self).cy() == (if old(self).cy() + n <= usize::MAX { (old(self).cy() + n) as usize } else { usize::MAX }),
            final(self).cx() == old(self).cx(),
            final(self).shown() == old(self).shown(),
    {
        self.y = self.y.saturating_add(n);
    }

    /// Makes the cursor visible.
    pub fn show(&mut self)
        ensures
            final(self).shown(),
            final(self).cx() == old(self).cx(),
            final(self).cy() == old(self).cy(),
    {
        self.visible = true;
    }

    /// Hides the cursor.
    pub fn hide_cursor(&mut self)
        ensures
            !final(self).shown(),
            final(self).cx() == old(self).cx(),
            final(self).cy() == old(self).cy(),
    {
        self.visible = false;
    }

    /// Returns `true` if the cursor is visible.
    pub fn is_visible(&self) -> (b: bool)
        ensures
            b == self.shown(),
    {
        self.visible
    }
}

impl Default for Cursor {
    fn default() -> (c: Self)
        ensures
            c.cx() == 0,
            c.cy() == 0,
            c.shown(),
    {
        Self::new()
    }
}

} // verus!
