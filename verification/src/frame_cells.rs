//! What a frame draws, cell by cell: which cells get a selection background
//! and which get a glyph, in which face and colour. Turning these cells into
//! vertices at pixel positions is left to the graphics code.

use vstd::prelude::*;
use crate::cell::{Attributes, Cell, Color};
use crate::font::{FontSlant, FontStretch, FontStyle, WEIGHT_BOLD, WEIGHT_NORMAL};
use crate::frame_damage::row_views;
use crate::scrollback::{Row, RowView};
use crate::selection::Selection;
use crate::terminal::{Terminal, TerminalView};

verus! {

/// The face a cell is drawn in: bold weight for bold cells, italic slant for
/// italic ones, normal width.
pub open spec fn style_of(a: Attributes) -> FontStyle {
    FontStyle {
        weight: if a.bold { WEIGHT_BOLD } else { WEIGHT_NORMAL },
        style: if a.italic { FontSlant::Italic } else { FontSlant::Normal },
        stretch: FontStretch::Normal,
    }
}

/// The cells `(col, v)` among the first `c` columns of screen row `v`
/// (holding `len` cells) that get a selection background: those the
/// selection holds at the row's absolute position, when there is a selection.
pub open spec fn selected_in_row(t: TerminalView, sel: Selection, len: nat, v: int, c: nat, has_selection: bool) -> Seq<
    (usize, usize),
>
    decreases c,
{
    if c == 0 {
        Seq::empty()
    } else {
        let before = selected_in_row(t, sel, len, v, (c - 1) as nat, has_selection);
        let col = c - 1;
        if col < len && has_selection && sel.spec_contains(col, t.visible_to_absolute(v)) {
            before.push((col as usize, v as usize))
        } else {
            before
        }
    }
}

/// The selected cells of the first `r` screen rows, row by row.
pub open spec fn selected_upto(
    t: TerminalView,
    sel: Selection,
    rows: Seq<RowView>,
    cols: nat,
    has_selection: bool,
    r: nat,
) -> Seq<(usize, usize)>
    decreases r,
{
    if r == 0 {
        Seq::empty()
    } else {
        selected_upto(t, sel, rows, cols, has_selection, (r - 1) as nat) + selected_in_row(
            t,
            sel,
            rows[r - 1].cells.len(),
            r - 1,
            cols,
            has_selection,
        )
    }
}

/// The cells of the shown `rows` (first `cols` columns) that get a
/// selection background, in reading order.
pub open spec fn selected_cells(t: TerminalView, sel: Selection, rows: Seq<RowView>, cols: nat, has_selection: bool) -> Seq<
    (usize, usize),
> {
    selected_upto(t, sel, rows, cols, has_selection, rows.len())
}

/// The glyph drawn for `cell` at `(col, v)`.
pub open spec fn glyph_of(col: int, v: int, cell: Cell) -> (usize, usize, char, FontStyle, Color) {
    (col as usize, v as usize, cell.character, style_of(cell.attributes), cell.foreground)
}

/// The glyphs among the first `c` columns of screen row `v`: one for each
/// cell that is not blank.
pub open spec fn glyphs_in_row(cells: Seq<Cell>, v: int, c: nat) -> Seq<(usize, usize, char, FontStyle, Color)>
    decreases c,
{
    if c == 0 {
        Seq::empty()
    } else {
        let before = glyphs_in_row(cells, v, (c - 1) as nat);
        let col = c - 1;
        if col < cells.len() && cells[col] != Cell::spec_blank() {
            before.push(glyph_of(col, v, cells[col]))
        } else {
            before
        }
    }
}

/// The glyphs of the first `r` screen rows, row by row.
pub open spec fn glyphs_upto(rows: Seq<RowView>, cols: nat, r: nat) -> Seq<(usize, usize, char, FontStyle, Color)>
    decreases r,
{
    if r == 0 {
        Seq::empty()
    } else {
        glyphs_upto(rows, cols, (r - 1) as nat) + glyphs_in_row(rows[r - 1].cells, r - 1, cols)
    }
}

/// The glyphs of the shown `rows` (first `cols` columns), in reading order:
/// each cell that is not blank, with its character, its face and its
/// foreground colour.
pub open spec fn glyph_cells(rows: Seq<RowView>, cols: nat) -> Seq<(usize, usize, char, FontStyle, Color)> {
    glyphs_upto(rows, cols, rows.len())
}

/// The face of a cell with attributes `a` (see [`style_of`]).
fn face_of(a: &Attributes) -> (s: FontStyle)
    ensures
        s == style_of(*a),
{
    FontStyle {
        weight: if a.bold { WEIGHT_BOLD } else { WEIGHT_NORMAL },
        style: if a.italic { FontSlant::Italic } else { FontSlant::Normal },
        stretch: FontStretch::Normal,
    }
}

/// The cells of a frame showing `rows` (the terminal's visible rows), over
/// their first `cols` columns: first the `(col, row)` cells drawn with a
/// selection background, then the non-blank cells with their character,
/// face and foreground colour, both in reading order.
pub fn frame_cells(terminal: &Terminal, rows: &Vec<Row>, cols: usize, has_selection: bool) -> (q: (
    Vec<(usize, usize)>,
    Vec<(usize, usize, char, FontStyle, Color)>,
))
    requires
        terminal.wf(),
        terminal@.scrollback.lines.len() + rows@.len() <= usize::MAX,
    ensures
        q.0@ == selected_cells(terminal@, terminal.spec_selection(), row_views(rows@), cols as nat, has_selection),
        q.1@ == glyph_cells(row_views(rows@), cols as nat),
{
    let ghost views = row_views(rows@);
    let ghost t = terminal@;
    let ghost sel = terminal.spec_selection();
    let mut selected: Vec<(usize, usize)> = Vec::new();
    let mut glyphs: Vec<(usize, usize, char, FontStyle, Color)> = Vec::new();
    let mut v: usize = 0;
    while v < rows.len()
        invariant
            v <= rows@.len(),
            views == row_views(rows@),
            t == terminal@,
            sel == terminal.spec_selection(),
            t.scrollback.lines.len() + rows@.len() <= usize::MAX,
            selected@ == selected_upto(t, sel, views, cols as nat, has_selection, v as nat),
            glyphs@ == glyphs_upto(views, cols as nat, v as nat),
        decreases rows.len() - v,
    {
        let row = &rows[v];
        assert(views[v as int].cells == row.cells@);
        let abs_row = terminal.visible_row_to_absolute(v);
        let ghost sel_before = selected@;
        let ghost glyphs_before = glyphs@;
        let mut col: usize = 0;
        while col < cols
            invariant
                col <= cols,
                v < rows@.len(),
                views[v as int].cells == row.cells@,
                abs_row == t.visible_to_absolute(v as int),
                t == terminal@,
                sel == terminal.spec_selection(),
                selected@ == sel_before + selected_in_row(
                    t,
                    sel,
                    row.cells@.len(),
                    v as int,
                    col as nat,
                    has_selection,
                ),
                glyphs@ == glyphs_before + glyphs_in_row(row.cells@, v as int, col as nat),
            decreases cols - col,
        {
            if col < row.cells.len() {
                let cell = &row.cells[col];
                if has_selection && terminal.selection().contains(col, abs_row) {
                    selected.push((col, v));
                }
                if !cell.is_blank() {
                    let style = face_of(&cell.attributes);
                    glyphs.push((col, v, cell.character, style, cell.foreground));
                }
            }
            col += 1;
            proof {
                assert(selected@ =~= sel_before + selected_in_row(
                    t,
                    sel,
                    row.cells@.len(),
                    v as int,
                    col as nat,
                    has_selection,
                ));
                assert(glyphs@ =~= glyphs_before + glyphs_in_row(row.cells@, v as int, col as nat));
            }
        }
        v += 1;
    }
    (selected, glyphs)
}

} // verus!
