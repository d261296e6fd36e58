//! Damage between two frames: which rows and cells of the screen must be
//! redrawn, found by comparing the rows shown now with those shown last
//! time, and by watching the viewport, the cursor and the selection.

use vstd::prelude::*;
use crate::cell::Cell;
use crate::damage::{added, DamageRect, DamageTracker, TrackerView};
use crate::scrollback::{Row, RowView};
use crate::terminal::{Terminal, TerminalView};

verus! {

/// One step of marking damage.
pub enum DamageOp {
    /// A rect is added.
    Rect(DamageRect),
    /// The whole screen is marked.
    Full,
}

/// `u` is `t` after step `op`.
pub open spec fn stepped(t: TrackerView, u: TrackerView, op: DamageOp) -> bool {
    match op {
        DamageOp::Rect(r) => added(t, u, r),
        DamageOp::Full => u == (TrackerView { full: true, rects: Seq::empty(), ..t }),
    }
}

/// `states` runs through the steps `ops`: each state is the one before it
/// after the step between them.
pub open spec fn chain(states: Seq<TrackerView>, ops: Seq<DamageOp>) -> bool {
    &&& states.len() == ops.len() + 1
    &&& forall|i: int| 0 <= i < ops.len() ==> stepped(states[i], states[i + 1], #[trigger] ops[i])
}

/// `u` is `t` after the steps `ops`, in order.
pub open spec fn applied(t: TrackerView, u: TrackerView, ops: Seq<DamageOp>) -> bool {
    exists|states: Seq<TrackerView>| #[trigger] chain(states, ops) && states[0] == t && states.last() == u
}

/// No step leaves the tracker as it is.
proof fn lemma_applied_none(t: TrackerView)
    ensures
        applied(t, t, Seq::empty()),
{
    let states = seq![t];
    assert(chain(states, Seq::empty()));
}

/// Applying one more step extends the steps applied.
proof fn lemma_applied_step(t: TrackerView, mid: TrackerView, u: TrackerView, ops: Seq<DamageOp>, op: DamageOp)
    requires
        applied(t, mid, ops),
        stepped(mid, u, op),
    ensures
        applied(t, u, ops.push(op)),
{
    let states = choose|states: Seq<TrackerView>| #[trigger] chain(states, ops) && states[0] == t && states.last() == mid;
    let more = states.push(u);
    let all = ops.push(op);
    assert forall|i: int| 0 <= i < all.len() implies stepped(more[i], more[i + 1], #[trigger] all[i]) by {
        if i < ops.len() {
            assert(all[i] == ops[i]);
            assert(stepped(states[i], states[i + 1], ops[i]));
        }
    }
    assert(chain(more, all));
}

/// Damage of row `row`, `cols` cells wide.
pub open spec fn row_op(row: int, cols: nat) -> DamageOp {
    DamageOp::Rect(DamageRect::row_spec(row as u32, cols as u32))
}

/// Damage of rows `lo` up to (not including) `hi`, in order.
pub open spec fn row_range_ops(lo: int, hi: int, cols: nat) -> Seq<DamageOp> {
    Seq::new(if hi > lo { (hi - lo) as nat } else { 0 }, |k: int| row_op(lo + k, cols))
}

/// The damage of a viewport move from `prev` to `cur` with `view_rows`
/// rows shown: the rows scrolled into view (at the bottom when scrolled
/// back, at the top when scrolled forward), or the whole screen when the
/// move is a screen or more.
pub open spec fn viewport_ops(prev: nat, cur: nat, view_rows: nat, cols: nat) -> Seq<DamageOp> {
    if prev == cur {
        Seq::empty()
    } else {
        let dist: int = if cur > prev { cur - prev } else { prev - cur };
        if dist < view_rows {
            if cur > prev {
                row_range_ops(view_rows - dist, view_rows as int, cols)
            } else {
                row_range_ops(0, dist, cols)
            }
        } else {
            seq![DamageOp::Full]
        }
    }
}

/// The two rows differ: in length, or in a cell they both have.
pub open spec fn row_changed(a: Seq<Cell>, b: Seq<Cell>) -> bool {
    a.len() != b.len() || exists|c: int| 0 <= c < a.len() && c < b.len() && a[c] != b[c]
}

/// Damage of the rows among the first `n` that changed between `prev` and
/// `cur`, in order.
pub open spec fn diff_ops(cur: Seq<RowView>, prev: Seq<RowView>, n: nat, cols: nat) -> Seq<DamageOp>
    decreases n,
{
    if n == 0 {
        Seq::empty()
    } else {
        let before = diff_ops(cur, prev, (n - 1) as nat, cols);
        if row_changed(cur[n - 1].cells, prev[n - 1].cells) {
            before.push(row_op(n - 1, cols))
        } else {
            before
        }
    }
}

/// The damage of the rows: every changed row, and the rows the previous
/// frame did not have; the whole screen when there was no previous frame.
pub open spec fn rows_ops(cur: Seq<RowView>, prev: Option<Seq<RowView>>, cols: nat) -> Seq<DamageOp> {
    match prev {
        None => seq![DamageOp::Full],
        Some(p) => diff_ops(cur, p, if cur.len() <= p.len() { cur.len() } else { p.len() }, cols) + row_range_ops(
            p.len() as int,
            cur.len() as int,
            cols,
        ),
    }
}

/// The damage of a cursor move: the old cell, then the new one.
pub open spec fn cursor_ops(prev: (u32, u32), cur: (u32, u32)) -> Seq<DamageOp> {
    if prev == cur {
        Seq::empty()
    } else {
        seq![DamageOp::Rect(DamageRect::cell_spec(prev.0, prev.1)), DamageOp::Rect(DamageRect::cell_spec(cur.0, cur.1))]
    }
}

/// Damage of the shown rows among absolute rows `sr` to `er`, in order.
pub open spec fn selection_rows_ops(t: TerminalView, sr: int, er: int, cols: nat) -> Seq<DamageOp>
    decreases er - sr + 1,
{
    if sr > er {
        Seq::empty()
    } else {
        let before = selection_rows_ops(t, sr, er - 1, cols);
        match t.absolute_to_visible(er) {
            Some(v) => before.push(row_op(v, cols)),
            None => before,
        }
    }
}

/// The damage of the rows a selection covers.
pub open spec fn bounds_ops(t: TerminalView, b: Option<(usize, usize, usize, usize)>, cols: nat) -> Seq<DamageOp> {
    match b {
        Some((_sc, sr, _ec, er)) => selection_rows_ops(t, sr as int, er as int, cols),
        None => Seq::empty(),
    }
}

/// The damage of a selection change: the rows of the old selection, then
/// those of the new one.
pub open spec fn selection_ops(
    t: TerminalView,
    prev: Option<(usize, usize, usize, usize)>,
    cur: Option<(usize, usize, usize, usize)>,
    cols: nat,
) -> Seq<DamageOp> {
    if prev == cur {
        Seq::empty()
    } else {
        bounds_ops(t, prev, cols) + bounds_ops(t, cur, cols)
    }
}

/// All the damage between two frames, in the order it is marked.
pub open spec fn frame_ops(
    t: TerminalView,
    cur: Seq<RowView>,
    prev: Option<Seq<RowView>>,
    prev_viewport: nat,
    prev_cursor: (u32, u32),
    prev_selection: Option<(usize, usize, usize, usize)>,
    cur_selection: Option<(usize, usize, usize, usize)>,
) -> Seq<DamageOp> {
    viewport_ops(prev_viewport, t.viewport_offset, cur.len(), t.width) + rows_ops(cur, prev, t.width) + cursor_ops(
        prev_cursor,
        (t.cursor_x as u32, t.cursor_y as u32),
    ) + selection_ops(t, prev_selection, cur_selection, t.width)
}

/// The views of some rows.
pub open spec fn row_views(rows: Seq<Row>) -> Seq<RowView> {
    rows.map_values(|r: Row| r@)
}

/// The views of the previous frame's rows, if any.
pub open spec fn prev_views(p: Option<Vec<Row>>) -> Option<Seq<RowView>> {
    match p {
        Some(v) => Some(row_views(v@)),
        None => None,
    }
}

/// Adds `rect`, tracking the steps applied so far.
fn add_step(tracker: &mut DamageTracker, rect: DamageRect, Ghost(start): Ghost<TrackerView>, Ghost(ops): Ghost<Seq<DamageOp>>)
    requires
        old(tracker)@.wf(),
        old(tracker)@.merge_fits(),
        rect.fits(),
        applied(start, old(tracker)@, ops),
    ensures
        final(tracker)@.wf(),
        final(tracker)@.merge_fits(),
        final(tracker)@.screen() == old(tracker)@.screen(),
        applied(start, final(tracker)@, ops.push(DamageOp::Rect(rect))),
{
    let ghost mid = tracker@;
    tracker.add(rect);
    proof {
        lemma_applied_step(start, mid, tracker@, ops, DamageOp::Rect(rect));
    }
}

/// Marks the whole screen, tracking the steps applied so far.
fn full_step(tracker: &mut DamageTracker, Ghost(start): Ghost<TrackerView>, Ghost(ops): Ghost<Seq<DamageOp>>)
    requires
        old(tracker)@.wf(),
        old(tracker)@.merge_fits(),
        applied(start, old(tracker)@, ops),
    ensures
        final(tracker)@.wf(),
        final(tracker)@.merge_fits(),
        final(tracker)@.screen() == old(tracker)@.screen(),
        applied(start, final(tracker)@, ops.push(DamageOp::Full)),
{
    let ghost mid = tracker@;
    tracker.mark_full();
    proof {
        lemma_applied_step(start, mid, tracker@, ops, DamageOp::Full);
    }
}

/// Adds the damage of rows `lo` up to `hi`, tracking the steps.
fn add_row_range(
    tracker: &mut DamageTracker,
    lo: usize,
    hi: usize,
    cols: usize,
    Ghost(start): Ghost<TrackerView>,
    Ghost(ops): Ghost<Seq<DamageOp>>,
)
    requires
        old(tracker)@.wf(),
        old(tracker)@.merge_fits(),
        applied(start, old(tracker)@, ops),
        hi < u32::MAX,
        cols <= u32::MAX,
    ensures
        final(tracker)@.wf(),
        final(tracker)@.merge_fits(),
        final(tracker)@.screen() == old(tracker)@.screen(),
        applied(start, final(tracker)@, ops + row_range_ops(lo as int, hi as int, cols as nat)),
{
    if hi <= lo {
        proof {
            assert(row_range_ops(lo as int, hi as int, cols as nat) =~= Seq::empty());
            assert(ops + Seq::<DamageOp>::empty() =~= ops);
        }
        return;
    }
    proof {
        assert(row_range_ops(lo as int, lo as int, cols as nat) =~= Seq::empty());
        assert(ops + Seq::<DamageOp>::empty() =~= ops);
    }
    let mut r = lo;
    while r < hi
        invariant
            lo <= r <= hi,
            hi < u32::MAX,
            cols <= u32::MAX,
            tracker@.wf(),
            tracker@.merge_fits(),
            tracker@.screen() == old(tracker)@.screen(),
            applied(start, tracker@, ops + row_range_ops(lo as int, r as int, cols as nat)),
        decreases hi - r,
    {
        let ghost done = ops + row_range_ops(lo as int, r as int, cols as nat);
        add_step(tracker, DamageRect::row(r as u32, cols as u32), Ghost(start), Ghost(done));
        proof {
            assert(row_range_ops(lo as int, r as int, cols as nat).push(row_op(r as int, cols as nat))
                =~= row_range_ops(lo as int, r + 1, cols as nat));
            assert(done.push(row_op(r as int, cols as nat)) =~= ops + row_range_ops(lo as int, r + 1, cols as nat));
        }
        r += 1;
    }
}

/// Whether two rows differ in length or in a cell they both have.
fn rows_differ(cur: &Row, prev: &Row) -> (b: bool)
    ensures
        b == row_changed(cur@.cells, prev@.cells),
{
    let n = if cur.cells.len() <= prev.cells.len() { cur.cells.len() } else { prev.cells.len() };
    let mut col: usize = 0;
    while col < n
        invariant
            n <= cur@.cells.len(),
            n <= prev@.cells.len(),
            n == cur@.cells.len() || n == prev@.cells.len(),
            col <= n,
            forall|c: int| 0 <= c < col ==> cur@.cells[c] == prev@.cells[c],
        decreases n - col,
    {
        if cur.cells[col] != prev.cells[col] {
            proof {
                assert(cur@.cells[col as int] != prev@.cells[col as int]);
            }
            return true;
        }
        col += 1;
    }
    cur.cells.len() != prev.cells.len()
}

/// Compares the rows shown now (`current_rows`) with those of the previous
/// frame and records the damage (see [`frame_ops`]): rows scrolled into
/// view, rows that changed or are new, the cursor's old and new cells when
/// it moved, and the rows of the old and new selection when it changed.
/// The previous viewport offset, cursor and selection are updated.
pub fn compute_damage(
    terminal: &Terminal,
    current_rows: &Vec<Row>,
    prev_rows: &Option<Vec<Row>>,
    damage_tracker: &mut DamageTracker,
    prev_viewport: &mut usize,
    prev_cursor: &mut (u32, u32),
    prev_selection: &mut Option<(usize, usize, usize, usize)>,
)
    requires
        old(damage_tracker)@.wf(),
        old(damage_tracker)@.merge_fits(),
        terminal@.width <= u32::MAX,
        current_rows@.len() < u32::MAX,
        terminal@.scrollback.lines.len() + terminal@.height < u32::MAX,
        terminal@.cursor_x < u32::MAX,
        terminal@.cursor_y < u32::MAX,
        old(prev_cursor).0 < u32::MAX,
        old(prev_cursor).1 < u32::MAX,
    ensures
        final(damage_tracker)@.wf(),
        applied(
            old(damage_tracker)@,
            final(damage_tracker)@,
            frame_ops(
                terminal@,
                row_views(current_rows@),
                prev_views(*prev_rows),
                *old(prev_viewport) as nat,
                *old(prev_cursor),
                *old(prev_selection),
                terminal.spec_selection().spec_bounds(),
            ),
        ),
        *final(prev_viewport) == terminal@.viewport_offset,
        *final(prev_cursor) == (terminal@.cursor_x as u32, terminal@.cursor_y as u32),
        *final(prev_selection) == terminal.spec_selection().spec_bounds(),
{
    let ghost start = damage_tracker@;
    let cols = terminal.width();
    let current_viewport = terminal.viewport_offset();
    proof {
        lemma_applied_none(start);
    }
    add_viewport_damage(
        damage_tracker,
        prev_viewport,
        current_viewport,
        current_rows.len(),
        cols,
        Ghost(start),
        Ghost(Seq::empty()),
    );
    let ghost ops1 = viewport_ops(*old(prev_viewport) as nat, current_viewport as nat, current_rows@.len(), cols as nat);
    proof {
        assert(Seq::<DamageOp>::empty() + ops1 =~= ops1);
    }
    add_rows_damage(damage_tracker, current_rows, prev_rows, cols, Ghost(start), Ghost(ops1));
    let ghost ops2 = ops1 + rows_ops(row_views(current_rows@), prev_views(*prev_rows), cols as nat);
    let (cx, cy) = terminal.cursor().position();
    add_cursor_damage(damage_tracker, prev_cursor, (cx as u32, cy as u32), Ghost(start), Ghost(ops2));
    let ghost ops3 = ops2 + cursor_ops(*old(prev_cursor), (cx as u32, cy as u32));
    let current_bounds = terminal.selection().bounds();
    if !same_bounds(*prev_selection, current_bounds) {
        let ghost first = ops3 + bounds_ops(terminal@, *old(prev_selection), cols as nat);
        add_bounds_rows(terminal, *prev_selection, cols, damage_tracker, Ghost(start), Ghost(ops3));
        add_bounds_rows(terminal, current_bounds, cols, damage_tracker, Ghost(start), Ghost(first));
        *prev_selection = current_bounds;
        proof {
            assert(first + bounds_ops(terminal@, current_bounds, cols as nat) =~= ops3 + selection_ops(
                terminal@,
                *old(prev_selection),
                current_bounds,
                cols as nat,
            ));
        }
    } else {
        proof {
            assert(ops3 + selection_ops(terminal@, *old(prev_selection), current_bounds, cols as nat) =~= ops3);
        }
    }
}

/// Adds the damage of a viewport move from `*prev_viewport` to `current`
/// (see [`viewport_ops`]) and records `current`.
fn add_viewport_damage(
    tracker: &mut DamageTracker,
    prev_viewport: &mut usize,
    current: usize,
    view_rows: usize,
    cols: usize,
    Ghost(start): Ghost<TrackerView>,
    Ghost(ops): Ghost<Seq<DamageOp>>,
)
    requires
        old(tracker)@.wf(),
        old(tracker)@.merge_fits(),
        applied(start, old(tracker)@, ops),
        view_rows < u32::MAX,
        cols <= u32::MAX,
    ensures
        final(tracker)@.wf(),
        final(tracker)@.merge_fits(),
        applied(
            start,
            final(tracker)@,
            ops + viewport_ops(*old(prev_viewport) as nat, current as nat, view_rows as nat, cols as nat),
        ),
        *final(prev_viewport) == current,
{
    if *prev_viewport == current {
        proof {
            assert(ops + Seq::<DamageOp>::empty() =~= ops);
        }
        return;
    }
    let scrolled_back = current > *prev_viewport;
    let dist = if scrolled_back { current - *prev_viewport } else { *prev_viewport - current };
    *prev_viewport = current;
    if dist < view_rows {
        if scrolled_back {
            add_row_range(tracker, view_rows - dist, view_rows, cols, Ghost(start), Ghost(ops));
        } else {
            add_row_range(tracker, 0, dist, cols, Ghost(start), Ghost(ops));
        }
    } else {
        full_step(tracker, Ghost(start), Ghost(ops));
        proof {
            assert(ops.push(DamageOp::Full) =~= ops + seq![DamageOp::Full]);
        }
    }
}

/// Adds the damage of the rows (see [`rows_ops`]).
fn add_rows_damage(
    tracker: &mut DamageTracker,
    current_rows: &Vec<Row>,
    prev_rows: &Option<Vec<Row>>,
    cols: usize,
    Ghost(start): Ghost<TrackerView>,
    Ghost(ops): Ghost<Seq<DamageOp>>,
)
    requires
        old(tracker)@.wf(),
        old(tracker)@.merge_fits(),
        applied(start, old(tracker)@, ops),
        current_rows@.len() < u32::MAX,
        cols <= u32::MAX,
    ensures
        final(tracker)@.wf(),
        final(tracker)@.merge_fits(),
        applied(start, final(tracker)@, ops + rows_ops(row_views(current_rows@), prev_views(*prev_rows), cols as nat)),
{
    let ghost cur = row_views(current_rows@);
    match prev_rows {
        Some(prev) => {
            let ghost pv = row_views(prev@);
            let min_height = if current_rows.len() <= prev.len() { current_rows.len() } else { prev.len() };
            proof {
                assert(ops + diff_ops(cur, pv, 0, cols as nat) =~= ops);
            }
            let mut row_idx: usize = 0;
            while row_idx < min_height
                invariant
                    min_height <= current_rows@.len(),
                    min_height <= prev@.len(),
                    row_idx <= min_height,
                    current_rows@.len() < u32::MAX,
                    cols <= u32::MAX,
                    cur == row_views(current_rows@),
                    pv == row_views(prev@),
                    tracker@.wf(),
                    tracker@.merge_fits(),
                    applied(start, tracker@, ops + diff_ops(cur, pv, row_idx as nat, cols as nat)),
                decreases min_height - row_idx,
            {
                let ghost done = ops + diff_ops(cur, pv, row_idx as nat, cols as nat);
                if rows_differ(&current_rows[row_idx], &prev[row_idx]) {
                    add_step(tracker, DamageRect::row(row_idx as u32, cols as u32), Ghost(start), Ghost(done));
                    proof {
                        assert(done.push(row_op(row_idx as int, cols as nat)) =~= ops + diff_ops(
                            cur,
                            pv,
                            (row_idx + 1) as nat,
                            cols as nat,
                        ));
                    }
                } else {
                    proof {
                        assert(done =~= ops + diff_ops(cur, pv, (row_idx + 1) as nat, cols as nat));
                    }
                }
                row_idx += 1;
            }
            let ghost done = ops + diff_ops(cur, pv, min_height as nat, cols as nat);
            add_row_range(tracker, prev.len(), current_rows.len(), cols, Ghost(start), Ghost(done));
            proof {
                assert(done + row_range_ops(prev@.len() as int, current_rows@.len() as int, cols as nat) =~= ops
                    + rows_ops(cur, Some(pv), cols as nat));
            }
        },
        None => {
            full_step(tracker, Ghost(start), Ghost(ops));
            proof {
                assert(ops.push(DamageOp::Full) =~= ops + seq![DamageOp::Full]);
            }
        },
    }
}

/// Adds the damage of a cursor move from `*prev_cursor` to `now` (see
/// [`cursor_ops`]) and records `now`.
fn add_cursor_damage(
    tracker: &mut DamageTracker,
    prev_cursor: &mut (u32, u32),
    now: (u32, u32),
    Ghost(start): Ghost<TrackerView>,
    Ghost(ops): Ghost<Seq<DamageOp>>,
)
    requires
        old(tracker)@.wf(),
        old(tracker)@.merge_fits(),
        applied(start, old(tracker)@, ops),
        old(prev_cursor).0 < u32::MAX,
        old(prev_cursor).1 < u32::MAX,
        now.0 < u32::MAX,
        now.1 < u32::MAX,
    ensures
        final(tracker)@.wf(),
        final(tracker)@.merge_fits(),
        applied(start, final(tracker)@, ops + cursor_ops(*old(prev_cursor), now)),
        *final(prev_cursor) == now,
{
    if prev_cursor.0 != now.0 || prev_cursor.1 != now.1 {
        let (px, py) = *prev_cursor;
        add_step(tracker, DamageRect::cell(px, py), Ghost(start), Ghost(ops));
        add_step(
            tracker,
            DamageRect::cell(now.0, now.1),
            Ghost(start),
            Ghost(ops.push(DamageOp::Rect(DamageRect::cell_spec(px, py)))),
        );
        *prev_cursor = now;
        proof {
            assert(ops.push(DamageOp::Rect(DamageRect::cell_spec(px, py))).push(
                DamageOp::Rect(DamageRect::cell_spec(now.0, now.1)),
            ) =~= ops + cursor_ops(*old(prev_cursor), now));
        }
    } else {
        proof {
            assert(ops + cursor_ops(*old(prev_cursor), now) =~= ops);
        }
    }
}

/// Whether two selection bounds are the same.
fn same_bounds(a: Option<(usize, usize, usize, usize)>, b: Option<(usize, usize, usize, usize)>) -> (r: bool)
    ensures
        r == (a == b),
{
    match (a, b) {
        (Some(x), Some(y)) => x.0 == y.0 && x.1 == y.1 && x.2 == y.2 && x.3 == y.3,
        (None, None) => true,
        _ => false,
    }
}

/// Adds the damage of the shown rows of selection bounds `b`.
fn add_bounds_rows(
    terminal: &Terminal,
    b: Option<(usize, usize, usize, usize)>,
    cols: usize,
    tracker: &mut DamageTracker,
    Ghost(start): Ghost<TrackerView>,
    Ghost(ops): Ghost<Seq<DamageOp>>,
)
    requires
        old(tracker)@.wf(),
        old(tracker)@.merge_fits(),
        applied(start, old(tracker)@, ops),
        cols == terminal@.width,
        cols <= u32::MAX,
        terminal@.scrollback.lines.len() + terminal@.height < u32::MAX,
    ensures
        final(tracker)@.wf(),
        final(tracker)@.merge_fits(),
        applied(start, final(tracker)@, ops + bounds_ops(terminal@, b, cols as nat)),
{
    match b {
        Some((_sc, sr, _ec, er)) => {
            if sr > er {
                proof {
                    assert(selection_rows_ops(terminal@, sr as int, er as int, cols as nat) =~= Seq::empty());
                    assert(ops + Seq::<DamageOp>::empty() =~= ops);
                }
                return;
            }
            let mut abs_row = sr;
            proof {
                assert(selection_rows_ops(terminal@, sr as int, sr - 1, cols as nat) =~= Seq::empty());
                assert(ops + Seq::<DamageOp>::empty() =~= ops);
            }
            loop
                invariant_except_break
                    applied(start, tracker@, ops + selection_rows_ops(terminal@, sr as int, abs_row - 1, cols as nat)),
                invariant
                    sr <= abs_row <= er,
                    cols == terminal@.width,
                    cols <= u32::MAX,
                    terminal@.scrollback.lines.len() + terminal@.height < u32::MAX,
                    tracker@.wf(),
                    tracker@.merge_fits(),
                ensures
                    tracker@.wf(),
                    tracker@.merge_fits(),
                    applied(start, tracker@, ops + selection_rows_ops(terminal@, sr as int, er as int, cols as nat)),
                decreases er - abs_row,
            {
                let ghost done = ops + selection_rows_ops(terminal@, sr as int, abs_row - 1, cols as nat);
                proof {
                    lemma_visible_row_bound(terminal@, abs_row as int);
                }
                match terminal.absolute_to_visible_row(abs_row) {
                    Some(vis_row) => {
                        add_step(tracker, DamageRect::row(vis_row as u32, cols as u32), Ghost(start), Ghost(done));
                        proof {
                            assert(done.push(row_op(vis_row as int, cols as nat)) =~= ops + selection_rows_ops(
                                terminal@,
                                sr as int,
                                abs_row as int,
                                cols as nat,
                            ));
                        }
                    },
                    None => {
                        proof {
                            assert(done =~= ops + selection_rows_ops(terminal@, sr as int, abs_row as int, cols as nat));
                        }
                    },
                }
                if abs_row == er {
                    break;
                }
                abs_row += 1;
            }
        },
        None => {
            proof {
                assert(ops + Seq::<DamageOp>::empty() =~= ops);
            }
        },
    }
}

/// A shown absolute row lands on a screen row below `u32::MAX`.
proof fn lemma_visible_row_bound(t: TerminalView, a: int)
    requires
        0 <= a,
        t.scrollback.lines.len() + t.height < u32::MAX,
    ensures
        t.absolute_to_visible(a) matches Some(v) ==> 0 <= v < u32::MAX,
{
}

/// Comparing rows with themselves finds no change.
proof fn lemma_diff_self(rows: Seq<RowView>, n: nat, cols: nat)
    requires
        n <= rows.len(),
    ensures
        diff_ops(rows, rows, n, cols) == Seq::<DamageOp>::empty(),
    decreases n,
{
    if n > 0 {
        lemma_diff_self(rows, (n - 1) as nat, cols);
    }
}

/// A frame identical to the previous one, with the viewport, the cursor and
/// the selection where they were, needs no redraw: no damage is marked.
pub proof fn lemma_same_frame_no_damage(
    t: TerminalView,
    rows: Seq<RowView>,
    selection: Option<(usize, usize, usize, usize)>,
)
    requires
        t.cursor_x < u32::MAX,
        t.cursor_y < u32::MAX,
    ensures
        frame_ops(
            t,
            rows,
            Some(rows),
            t.viewport_offset,
            (t.cursor_x as u32, t.cursor_y as u32),
            selection,
            selection,
        ) == Seq::<DamageOp>::empty(),
{
    lemma_diff_self(rows, rows.len(), t.width);
    assert(row_range_ops(rows.len() as int, rows.len() as int, t.width) =~= Seq::empty());
    assert(frame_ops(
        t,
        rows,
        Some(rows),
        t.viewport_offset,
        (t.cursor_x as u32, t.cursor_y as u32),
        selection,
        selection,
    ) =~= Seq::<DamageOp>::empty());
}

/// A step marking the whole screen leaves it marked, whatever steps
/// follow: a first frame, or a viewport jump of a screen or more, redraws
/// everything.
pub proof fn lemma_full_step_ends_full(t: TrackerView, u: TrackerView, ops: Seq<DamageOp>, i: int)
    requires
        applied(t, u, ops),
        0 <= i < ops.len(),
        ops[i] == DamageOp::Full,
    ensures
        u.full,
{
    let states = choose|states: Seq<TrackerView>| #[trigger] chain(states, ops) && states[0] == t && states.last() == u;
    assert(stepped(states[i], states[i + 1], ops[i]));
    lemma_full_stays(states, ops, i + 1);
}

/// Once the whole screen is marked, it stays marked.
proof fn lemma_full_stays(states: Seq<TrackerView>, ops: Seq<DamageOp>, j: int)
    requires
        chain(states, ops),
        0 <= j <= ops.len(),
        states[j].full,
    ensures
        states.last().full,
    decreases ops.len() - j,
{
    if j < ops.len() {
        assert(stepped(states[j], states[j + 1], ops[j]));
        lemma_full_stays(states, ops, j + 1);
    }
}

} // verus!
