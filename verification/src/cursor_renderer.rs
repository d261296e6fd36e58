//! State of the on-screen cursor: where it stands, its shape, whether it is
//! shown and its blink phase, with the damage each change causes.
//!
//! The clock and the pixel geometry belong to the caller: `update_blink` is
//! told whether the blink interval has passed, and says when to restart the
//! timer.

use vstd::prelude::*;
use crate::damage::{added, DamageRect, DamageTracker, TrackerView};
use crate::render::{BlinkState, CursorShape};

verus! {

/// Mathematical picture of a [`CursorRenderer`].
pub struct CursorRendererView {
    pub shape: CursorShape,
    pub blink: bool,
    pub state: BlinkState,
    pub col: u32,
    pub row: u32,
    pub visible: bool,
}

/// Cursor state; every visible change marks the cursor's cell as damaged.
pub struct CursorRenderer {
    shape: CursorShape,
    blink: bool,
    state: BlinkState,
    position: (u32, u32),
    visible: bool,
}

impl View for CursorRenderer {
    type V = CursorRendererView;

    closed spec fn view(&self) -> CursorRendererView {
        CursorRendererView {
            shape: self.shape,
            blink: self.blink,
            state: self.state,
            col: self.position.0,
            row: self.position.1,
            visible: self.visible,
        }
    }
}

/// The cursor's cell, as a damage rect.
pub open spec fn cursor_cell(v: CursorRendererView) -> DamageRect {
    DamageRect::cell_spec(v.col, v.row)
}

/// Adding the damage of `cell` to `t` cannot overflow the area computation
/// of a merge.
pub open spec fn cell_add_ok(t: TrackerView, cell: DamageRect) -> bool {
    crate::damage::add_needs_merge(t, cell) ==> t.merge_fits()
}

impl CursorRenderer {
    #[verifier::type_invariant]
    spec fn position_fits(self) -> bool {
        self.position.0 < u32::MAX && self.position.1 < u32::MAX
    }

    /// A visible block cursor at the origin, blinking, in its on phase.
    pub fn new() -> (c: Self)
        ensures
            c@ == (CursorRendererView {
                shape: CursorShape::Block,
                blink: true,
                state: BlinkState::On,
                col: 0,
                row: 0,
                visible: true,
            }),
    {
        CursorRenderer { shape: CursorShape::Block, blink: true, state: BlinkState::On, position: (0, 0), visible: true }
    }

    /// The cell `(col, row)` is inside the cursor's range.
    pub fn position(&self) -> (p: (u32, u32))
        ensures
            p == (self@.col, self@.row),
            p.0 < u32::MAX,
            p.1 < u32::MAX,
    {
        proof {
            use_type_invariant(self);
        }
        self.position
    }

    /// Moves the cursor to `(col, row)`; when it moves, its old and its new
    /// cell are damaged, in that order. Staying put damages nothing.
    pub fn set_position(&mut self, tracker: &mut DamageTracker, col: u32, row: u32)
        requires
            old(tracker)@.wf(),
            col < u32::MAX,
            row < u32::MAX,
            old(tracker)@.merge_fits() || old(tracker)@.rects.len() + 2 <= old(tracker)@.max_rects,
        ensures
            final(self)@ == (CursorRendererView { col, row, ..old(self)@ }),
            final(tracker)@.wf(),
            (old(self)@.col == col && old(self)@.row == row) ==> final(tracker)@ == old(tracker)@,
            !(old(self)@.col == col && old(self)@.row == row) ==> exists|mid: TrackerView|
                added(old(tracker)@, mid, cursor_cell(old(self)@)) && #[trigger] added(
                    mid,
                    final(tracker)@,
                    DamageRect::cell_spec(col, row),
                ),
    {
        proof {
            use_type_invariant(&*self);
        }
        let (old_col, old_row) = self.position;
        if old_col != col || old_row != row {
            self.position = (col, row);
            tracker.add_cell(old_col, old_row);
            let ghost mid = tracker@;
            proof {
                let t = old(tracker)@;
                crate::damage::lemma_first_touching_range(
                    t.rects,
                    DamageRect::cell_spec(old_col, old_row).spec_clip(t.screen()),
                    0,
                );
                assert(mid.screen() == t.screen());
            }
            tracker.add_cell(col, row);
            proof {
                assert(added(old(tracker)@, mid, cursor_cell(old(self)@)));
                assert(added(mid, tracker@, DamageRect::cell_spec(col, row)));
            }
        }
    }

    /// Shows or hides the cursor; a change damages the cursor's cell.
    pub fn set_visible(&mut self, tracker: &mut DamageTracker, visible: bool)
        requires
            old(tracker)@.wf(),
            cell_add_ok(old(tracker)@, cursor_cell(old(self)@)),
        ensures
            final(self)@ == (CursorRendererView { visible, ..old(self)@ }),
            final(tracker)@.wf(),
            old(self)@.visible == visible ==> final(tracker)@ == old(tracker)@,
            old(self)@.visible != visible ==> added(old(tracker)@, final(tracker)@, cursor_cell(old(self)@)),
    {
        proof {
            use_type_invariant(&*self);
        }
        if self.visible != visible {
            self.visible = visible;
            tracker.add_cell(self.position.0, self.position.1);
        }
    }

    /// Changes the cursor's shape; a change damages the cursor's cell.
    pub fn set_shape(&mut self, tracker: &mut DamageTracker, shape: CursorShape)
        requires
            old(tracker)@.wf(),
            cell_add_ok(old(tracker)@, cursor_cell(old(self)@)),
        ensures
            final(self)@ == (CursorRendererView { shape, ..old(self)@ }),
            final(tracker)@.wf(),
            old(self)@.shape == shape ==> final(tracker)@ == old(tracker)@,
            old(self)@.shape != shape ==> added(old(tracker)@, final(tracker)@, cursor_cell(old(self)@)),
    {
        proof {
            use_type_invariant(&*self);
        }
        if self.shape != shape {
            self.shape = shape;
            tracker.add_cell(self.position.0, self.position.1);
        }
    }

    /// Turns blinking on or off (the phase changes at the next
    /// [`update_blink`](Self::update_blink)).
    pub fn set_blink(&mut self, blink: bool)
        ensures
            final(self)@ == (CursorRendererView { blink, ..old(self)@ }),
    {
        proof {
            use_type_invariant(&*self);
        }
        self.blink = blink;
    }

    /// Advances the blink phase. With blinking off the cursor returns to its
    /// on phase; with blinking on and `interval_elapsed` the phase flips and
    /// the result asks the caller to restart its blink timer. A phase change
    /// damages the cursor's cell.
    pub fn update_blink(&mut self, tracker: &mut DamageTracker, interval_elapsed: bool) -> (restart: bool)
        requires
            old(tracker)@.wf(),
            cell_add_ok(old(tracker)@, cursor_cell(old(self)@)),
        ensures
            restart == (old(self)@.blink && interval_elapsed),
            final(self)@ == (CursorRendererView {
                state: if !old(self)@.blink {
                    BlinkState::On
                } else if interval_elapsed {
                    if old(self)@.state == BlinkState::On { BlinkState::Off } else { BlinkState::On }
                } else {
                    old(self)@.state
                },
                ..old(self)@
            }),
            final(tracker)@.wf(),
            final(self)@.state == old(self)@.state ==> final(tracker)@ == old(tracker)@,
            final(self)@.state != old(self)@.state ==> added(old(tracker)@, final(tracker)@, cursor_cell(old(self)@)),
    {
        proof {
            use_type_invariant(&*self);
        }
        if !self.blink {
            if self.state != BlinkState::On {
                self.state = BlinkState::On;
                tracker.add_cell(self.position.0, self.position.1);
            }
            return false;
        }
        if interval_elapsed {
            self.state = match self.state {
                BlinkState::On => BlinkState::Off,
                BlinkState::Off => BlinkState::On,
            };
            tracker.add_cell(self.position.0, self.position.1);
            return true;
        }
        false
    }

    /// Records user activity: the cursor returns to its on phase (the caller
    /// restarts its blink timer); a phase change damages the cursor's cell.
    pub fn activity(&mut self, tracker: &mut DamageTracker)
        requires
            old(tracker)@.wf(),
            cell_add_ok(old(tracker)@, cursor_cell(old(self)@)),
        ensures
            final(self)@ == (CursorRendererView { state: BlinkState::On, ..old(self)@ }),
            final(tracker)@.wf(),
            old(self)@.state == BlinkState::On ==> final(tracker)@ == old(tracker)@,
            old(self)@.state != BlinkState::On ==> added(old(tracker)@, final(tracker)@, cursor_cell(old(self)@)),
    {
        proof {
            use_type_invariant(&*self);
        }
        if self.state != BlinkState::On {
            self.state = BlinkState::On;
            tracker.add_cell(self.position.0, self.position.1);
        }
    }

    /// The cursor is drawn: visible and in its on phase.
    pub fn should_render(&self) -> (b: bool)
        ensures
            b == (self@.visible && self@.state == BlinkState::On),
    {
        self.visible && self.state == BlinkState::On
    }

    /// The cursor's shape.
    pub fn shape(&self) -> (s: CursorShape)
        ensures
            s == self@.shape,
    {
        self.shape
    }
}

} // verus!
