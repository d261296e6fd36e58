//! A terminal session: grid, cursor, pen, scrollback, selection and the
//! rules that need width and height together (wrapping, scrolling,
//! clamping on resize).

use vstd::prelude::*;
use vstd::math::abs;
use std::collections::HashMap;
use crate::cell::{Attributes, Cell, Color};
use crate::cursor::Cursor;
use crate::grid::{Grid, GridView};
use crate::scrollback::{Row, RowView, ScrollbackBuffer, ScrollbackView};
use crate::selection::{cells_of, word_widened, CellSource, Selection};

verus! {

broadcast use vstd::std_specs::hash::group_hash_axioms;

/// Key under which the hyperlink of `(abs_row, col)` is stored.
pub open spec fn link_key(abs_row: usize, col: usize) -> u128 {
    (abs_row as int * 0x1_0000_0000_0000_0000 + col as int) as u128
}

/// Mathematical picture of a [`Terminal`].
pub struct TerminalView {
    pub width: nat,
    pub height: nat,
    pub grid: GridView,
    pub cursor_x: nat,
    pub cursor_y: nat,
    pub cursor_visible: bool,
    pub pen_foreground: Color,
    pub pen_background: Color,
    pub pen_attributes: Attributes,
    pub pen_hyperlink: Option<Seq<char>>,
    /// Hyperlink URIs by absolute `(row, col)`.
    pub hyperlinks: Map<(usize, usize), Seq<char>>,
    pub scrollback: ScrollbackView,
    /// Lines the viewport is scrolled up (0 = live output).
    pub viewport_offset: nat,
    pub clipboard_output: Option<Seq<char>>,
    pub bell_pending: bool,
}

impl TerminalView {
    /// The view with the cursor moved to `(x, y)`.
    pub open spec fn at(self, x: nat, y: nat) -> TerminalView {
        TerminalView { cursor_x: x, cursor_y: y, ..self }
    }

    /// Line feed: one row down, or, on the last row, the top row goes to the
    /// scrollback, the grid scrolls up and a scrolled-up viewport follows.
    pub open spec fn newline(self) -> TerminalView {
        if self.height == 0 {
            self
        } else if self.cursor_y + 1 >= self.height {
            TerminalView {
                scrollback: if self.grid.height > 0 {
                    self.scrollback.push_line(RowView { cells: self.grid.row(0), hyperlinks: Map::empty() })
                } else {
                    self.scrollback
                },
                grid: self.grid.scrolled_up(),
                viewport_offset: if self.viewport_offset > 0 { self.viewport_offset + 1 } else { 0 },
                ..self
            }
        } else {
            self.at(self.cursor_x, self.cursor_y + 1)
        }
    }

    /// One column right, wrapping to the next line at the right edge.
    pub open spec fn advance(self) -> TerminalView {
        if self.width == 0 {
            self
        } else if self.cursor_x + 1 >= self.width {
            self.at(0, self.cursor_y).newline()
        } else {
            self.at(self.cursor_x + 1, self.cursor_y)
        }
    }

    /// The cell the pen draws for `ch`.
    pub open spec fn pen_cell(self, ch: char) -> Cell {
        Cell {
            character: ch,
            foreground: self.pen_foreground,
            background: self.pen_background,
            attributes: Attributes {
                hyperlink: self.pen_attributes.hyperlink || self.pen_hyperlink is Some,
                ..self.pen_attributes
            },
        }
    }

    /// Writes one character: `'\n'` feeds a line, `'\r'` returns to column 0,
    /// anything else is drawn with the pen (recording the pen's hyperlink)
    /// and the cursor advances.
    pub open spec fn write_char(self, ch: char) -> TerminalView {
        if ch == '\n' {
            self.newline()
        } else if ch == '\r' {
            self.at(0, self.cursor_y)
        } else {
            let drawn = TerminalView {
                grid: self.grid.set(self.cursor_x as int, self.cursor_y as int, self.pen_cell(ch)),
                hyperlinks: match self.pen_hyperlink {
                    Some(uri) => self.hyperlinks.insert(
                        ((self.scrollback.lines.len() + self.cursor_y) as usize, self.cursor_x as usize),
                        uri,
                    ),
                    None => self.hyperlinks,
                },
                ..self
            };
            drawn.advance()
        }
    }

    /// Writes every character of `s` in order.
    pub open spec fn write(self, s: Seq<char>) -> TerminalView
        decreases s.len(),
    {
        if s.len() == 0 {
            self
        } else {
            self.write_char(s[0]).write(s.drop_first())
        }
    }

    /// A line feed stays within machine integers.
    pub open spec fn newline_ok(self) -> bool {
        self.height == 0 || (self.cursor_y < usize::MAX && (self.cursor_y + 1 >= self.height ==> (
        (self.grid.height > 0 ==> self.scrollback.viewport_offset < usize::MAX) && self.viewport_offset
            < usize::MAX)))
    }

    /// Writing `ch` stays within machine integers.
    pub open spec fn write_char_ok(self, ch: char) -> bool {
        if ch == '\n' {
            self.newline_ok()
        } else if ch == '\r' {
            true
        } else {
            &&& self.scrollback.lines.len() + self.cursor_y <= usize::MAX
            &&& (self.width == 0 || self.cursor_x < usize::MAX)
            &&& (self.width > 0 && self.cursor_x + 1 >= self.width ==> self.at(0, self.cursor_y).newline_ok())
        }
    }

    /// Writing all of `s` stays within machine integers.
    pub open spec fn write_ok(self, s: Seq<char>) -> bool
        decreases s.len(),
    {
        s.len() == 0 || (self.write_char_ok(s[0]) && self.write_char(s[0]).write_ok(s.drop_first()))
    }

    /// The view after scrolling the viewport up by at most `amount` lines.
    pub open spec fn scrolled_viewport_up(self, amount: nat) -> TerminalView {
        let n = self.scrollback.scroll_up_amount(amount);
        TerminalView {
            scrollback: ScrollbackView { viewport_offset: self.scrollback.viewport_offset + n, ..self.scrollback },
            viewport_offset: self.viewport_offset + n,
            ..self
        }
    }

    /// The view after scrolling the viewport down by at most `amount` lines.
    pub open spec fn scrolled_viewport_down(self, amount: nat) -> TerminalView {
        let n = self.scrollback.scroll_down_amount(amount);
        TerminalView {
            scrollback: ScrollbackView {
                viewport_offset: (self.scrollback.viewport_offset - n) as nat,
                ..self.scrollback
            },
            viewport_offset: (self.viewport_offset - n) as nat,
            ..self
        }
    }

    /// Lines in one page: the height less one, at least 1.
    pub open spec fn page_size(self) -> nat {
        if self.height >= 2 { (self.height - 1) as nat } else { 1 }
    }

    /// Signed line count for `pages` pages, as computed in `isize`.
    pub open spec fn page_lines(self, pages: isize) -> int {
        pages * (self.page_size() as isize)
    }

    /// Scrollback lines shown above the grid.
    pub open spec fn shown_history(self) -> nat {
        if self.viewport_offset <= self.scrollback.lines.len() {
            self.viewport_offset
        } else {
            self.scrollback.lines.len()
        }
    }

    /// Number of rows `visible_rows` returns.
    pub open spec fn visible_row_count(self) -> nat {
        if self.shown_history() > self.height { self.shown_history() } else { self.height }
    }

    /// Row `i` of the viewport: history lines (oldest at the top) then grid rows.
    pub open spec fn visible_row(self, i: int) -> RowView {
        let n = self.shown_history() as int;
        if i < n {
            self.scrollback.lines[n - 1 - i]
        } else if i - n < self.grid.height {
            RowView { cells: self.grid.row(i - n), hyperlinks: Map::empty() }
        } else {
            Row::spec_new(self.width)
        }
    }

    /// Absolute row shown at viewport row `v`. Absolute rows count from the
    /// oldest history line (row 0) down through the newest and on into the
    /// grid, so they keep the order of the screen.
    pub open spec fn visible_to_absolute(self, v: int) -> int {
        self.scrollback.lines.len() - self.shown_history() + v
    }

    /// Viewport row showing absolute row `a`, if it is on screen.
    pub open spec fn absolute_to_visible(self, a: int) -> Option<int> {
        let n = self.shown_history() as int;
        let sb = self.scrollback.lines.len() as int;
        if sb - n <= a < sb + self.height - n {
            Some(a - sb + n)
        } else {
            None
        }
    }

    /// The cell at column `x` of absolute row `y`: rows `0 .. sb` are the
    /// history from its oldest line to its newest, then come the grid rows.
    pub open spec fn cell_absolute(self, x: int, y: int) -> Option<Cell> {
        let sb = self.scrollback.lines.len() as int;
        if y < 0 {
            None
        } else if y < sb {
            if 0 <= x < self.scrollback.lines[sb - 1 - y].cells.len() {
                Some(self.scrollback.lines[sb - 1 - y].cells[x])
            } else {
                None
            }
        } else if y - sb < self.height && self.grid.in_bounds(x, y - sb) {
            Some(self.grid.cell(x, y - sb))
        } else {
            None
        }
    }
}

/// A complete terminal session.
///
/// The terminal owns the grid, the cursor and the "pen" (colours,
/// attributes and hyperlink applied to the next character written), the
/// scrollback history, the selection, hyperlinks by position, pending
/// clipboard output and the bell flag.
pub struct Terminal {
    width: usize,
    height: usize,
    grid: Grid,
    cursor: Cursor,
    pen_foreground: Color,
    pen_background: Color,
    pen_attributes: Attributes,
    pen_hyperlink: Option<String>,
    hyperlinks: HashMap<u128, String>,
    scrollback: ScrollbackBuffer,
    viewport_offset: usize,
    selection: Selection,
    clipboard_output: Option<String>,
    bell_pending: bool,
}

impl View for Terminal {
    type V = TerminalView;

    closed spec fn view(&self) -> TerminalView {
        TerminalView {
            width: self.width as nat,
            height: self.height as nat,
            grid: self.grid@,
            cursor_x: self.cursor.cx() as nat,
            cursor_y: self.cursor.cy() as nat,
            cursor_visible: self.cursor.shown(),
            pen_foreground: self.pen_foreground,
            pen_background: self.pen_background,
            pen_attributes: self.pen_attributes,
            pen_hyperlink: match self.pen_hyperlink {
                Some(s) => Some(s@),
                None => None,
            },
            hyperlinks: Map::new(
                |k: (usize, usize)| self.hyperlinks@.contains_key(link_key(k.0, k.1)),
                |k: (usize, usize)| self.hyperlinks@[link_key(k.0, k.1)]@,
            ),
            scrollback: self.scrollback@,
            viewport_offset: self.viewport_offset as nat,
            clipboard_output: match self.clipboard_output {
                Some(s) => Some(s@),
                None => None,
            },
            bell_pending: self.bell_pending,
        }
    }
}

/// The freshly created terminal of the given size and history limit.
pub open spec fn fresh_terminal(width: nat, height: nat, max_size: nat) -> TerminalView {
    TerminalView {
        width,
        height,
        grid: GridView::blank(width, height),
        cursor_x: 0,
        cursor_y: 0,
        cursor_visible: true,
        pen_foreground: Color::Default,
        pen_background: Color::Default,
        pen_attributes: Attributes::none(),
        pen_hyperlink: None,
        hyperlinks: Map::empty(),
        scrollback: ScrollbackView { lines: Seq::empty(), max_size, viewport_offset: 0 },
        viewport_offset: 0,
        clipboard_output: None,
        bell_pending: false,
    }
}

proof fn lemma_link_key_injective(r1: usize, c1: usize, r2: usize, c2: usize)
    ensures
        link_key(r1, c1) == link_key(r2, c2) ==> r1 == r2 && c1 == c2,
{
}

impl Terminal {
    /// The grid buffer matches its dimensions, which are the terminal's.
    pub closed spec fn wf(&self) -> bool {
        &&& self.grid@.wf()
        &&& self.grid@.width == self.width
        &&& self.grid@.height == self.height
    }

    /// The cursor itself.
    pub closed spec fn spec_cursor(&self) -> Cursor {
        self.cursor
    }

    /// The grid itself.
    pub closed spec fn spec_grid(&self) -> Grid {
        self.grid
    }

    /// The scrollback buffer itself.
    pub closed spec fn spec_scrollback(&self) -> ScrollbackBuffer {
        self.scrollback
    }

    /// The selection itself.
    pub closed spec fn spec_selection(&self) -> Selection {
        self.selection
    }

    pub proof fn lemma_view(&self)
        ensures
            self@.grid == self.spec_grid()@,
            self@.scrollback == self.spec_scrollback()@,
            self@.cursor_x == self.spec_cursor().cx(),
            self@.cursor_y == self.spec_cursor().cy(),
            self@.cursor_visible == self.spec_cursor().shown(),
            self.wf() == (self@.grid.wf() && self@.grid.width == self@.width && self@.grid.height == self@.height),
            self@.width <= usize::MAX,
            self@.height <= usize::MAX,
            self@.viewport_offset <= usize::MAX,
    {
    }

    /// Creates a `width` x `height` terminal with a blank grid, the cursor at
    /// the origin and room for 10000 history lines.
    pub fn new(width: usize, height: usize) -> (t: Self)
        requires
            width * height <= usize::MAX,
        ensures
            t@ == fresh_terminal(width as nat, height as nat, 10000),
            t.wf(),
            t.spec_selection().anchor() is None,
            t.spec_selection().head() is None,
    {
        Self::with_scrollback(width, height, 10000)
    }

    /// Creates a terminal keeping at most `scrollback_size` history lines.
    pub fn with_scrollback(width: usize, height: usize, scrollback_size: usize) -> (t: Self)
        requires
            width * height <= usize::MAX,
        ensures
            t@ == fresh_terminal(width as nat, height as nat, scrollback_size as nat),
            t.wf(),
            t.spec_selection().anchor() is None,
            t.spec_selection().head() is None,
    {
        let t = Terminal {
            width,
            height,
            grid: Grid::new(width, height),
            cursor: Cursor::new(),
            pen_foreground: Color::Default,
            pen_background: Color::Default,
            pen_attributes: Attributes::default(),
            pen_hyperlink: None,
            hyperlinks: HashMap::new(),
            scrollback: ScrollbackBuffer::new(scrollback_size, width),
            viewport_offset: 0,
            selection: Selection::new(),
            clipboard_output: None,
            bell_pending: false,
        };
        assert(t@.hyperlinks =~= Map::empty());
        t
    }

    /// Width in columns.
    pub fn width(&self) -> (w: usize)
        ensures
            w == self@.width,
    {
        self.width
    }

    /// Height in rows.
    pub fn height(&self) -> (h: usize)
        ensures
            h == self@.height,
    {
        self.height
    }

    /// Read access to the grid.
    pub fn grid(&self) -> (g: &Grid)
        ensures
            *g == self.spec_grid(),
            g@ == self@.grid,
    {
        &self.grid
    }

    /// Read access to the cursor.
    pub fn cursor(&self) -> (c: &Cursor)
        ensures
            *c == self.spec_cursor(),
            c.cx() == self@.cursor_x,
            c.cy() == self@.cursor_y,
            c.shown() == self@.cursor_visible,
    {
        &self.cursor
    }

    /// Mutable access to the cursor, for explicit positioning.
    pub fn cursor_mut(&mut self) -> (c: &mut Cursor)
        ensures
            *c == old(self).spec_cursor(),
            final(self)@ == (TerminalView {
                cursor_x: final(c).cx() as nat,
                cursor_y: final(c).cy() as nat,
                cursor_visible: final(c).shown(),
                ..old(self)@
            }),
            final(self).wf() == old(self).wf(),
            final(self).spec_selection() == old(self).spec_selection(),
    {
        &mut self.cursor
    }

    /// Mutable access to the grid.
    pub fn grid_mut(&mut self) -> (g: &mut Grid)
        ensures
            *g == old(self).spec_grid(),
            final(self)@ == (TerminalView { grid: final(g)@, ..old(self)@ }),
            final(self).wf() == (final(g)@.wf() && final(g)@.width == old(self)@.width && final(g)@.height
                == old(self)@.height),
            final(self).spec_selection() == old(self).spec_selection(),
    {
        &mut self.grid
    }

    /// Pen foreground colour.
    pub fn pen_foreground(&self) -> (c: Color)
        ensures
            c == self@.pen_foreground,
    {
        self.pen_foreground
    }

    /// Pen background colour.
    pub fn pen_background(&self) -> (c: Color)
        ensures
            c == self@.pen_background,
    {
        self.pen_background
    }

    /// Pen attributes.
    pub fn pen_attributes(&self) -> (a: Attributes)
        ensures
            a == self@.pen_attributes,
    {
        self.pen_attributes
    }

    /// Sets the foreground colour of the characters written next.
    pub fn set_foreground(&mut self, color: Color)
        ensures
            final(self)@ == (TerminalView { pen_foreground: color, ..old(self)@ }),
            final(self).wf() == old(self).wf(),
            final(self).spec_selection() == old(self).spec_selection(),
    {
        self.pen_foreground = color;
    }

    /// Sets the background colour of the characters written next.
    pub fn set_background(&mut self, color: Color)
        ensures
            final(self)@ == (TerminalView { pen_background: color, ..old(self)@ }),
            final(self).wf() == old(self).wf(),
            final(self).spec_selection() == old(self).spec_selection(),
    {
        self.pen_background = color;
    }

    /// Sets the attributes of the characters written next.
    pub fn set_attributes(&mut self, attributes: Attributes)
        ensures
            final(self)@ == (TerminalView { pen_attributes: attributes, ..old(self)@ }),
            final(self).wf() == old(self).wf(),
            final(self).spec_selection() == old(self).spec_selection(),
    {
        self.pen_attributes = attributes;
    }

    /// Restores default colours and attributes (`ESC[0m`).
    pub fn reset_pen(&mut self)
        ensures
            final(self)@ == (TerminalView {
                pen_foreground: Color::Default,
                pen_background: Color::Default,
                pen_attributes: Attributes::none(),
                ..old(self)@
            }),
            final(self).wf() == old(self).wf(),
            final(self).spec_selection() == old(self).spec_selection(),
    {
        self.pen_foreground = Color::Default;
        self.pen_background = Color::Default;
        self.pen_attributes = Attributes::default();
    }

    /// Writes plain text at the cursor: `'\n'` feeds a line (scrolling at the
    /// bottom), `'\r'` returns to column 0, anything else is drawn with the
    /// pen and the cursor advances, wrapping at the right edge.
    pub fn write(&mut self, text: &str)
        requires
            old(self).wf(),
            old(self)@.write_ok(text@),
        ensures
            final(self)@ == old(self)@.write(text@),
            final(self).wf(),
            final(self).spec_selection() == old(self).spec_selection(),
    {
        broadcast use vstd::string::group_string_axioms;
        let ghost start = self@;
        assert(text@.subrange(0, text@.len() as int) =~= text@);
        for ch in iter: text.chars()
            invariant
                iter.seq() == text@,
                self.wf(),
                self.spec_selection() == old(self).spec_selection(),
                start == old(self)@,
                start.write_ok(text@),
                start.write(text@) == self@.write(text@.subrange(iter.index() as int, text@.len() as int)),
                self@.write_ok(text@.subrange(iter.index() as int, text@.len() as int)),
        {
            let ghost rest = text@.subrange(iter.index() as int, text@.len() as int);
            assert(rest[0] == ch);
            assert(rest.drop_first() =~= text@.subrange(iter.index() + 1, text@.len() as int));
            self.write_char(ch);
        }
        assert(text@.subrange(text@.len() as int, text@.len() as int) =~= Seq::<char>::empty());
    }

    /// Writes one character (see [`Terminal::write`]).
    pub fn write_char(&mut self, ch: char)
        requires
            old(self).wf(),
            old(self)@.write_char_ok(ch),
        ensures
            final(self)@ == old(self)@.write_char(ch),
            final(self).wf(),
            final(self).spec_selection() == old(self).spec_selection(),
    {
        if ch == '\n' {
            self.newline();
        } else if ch == '\r' {
            let (_x, y) = self.cursor.position();
            self.cursor.move_to(0, y);
        } else {
            let mut attrs = self.pen_attributes;
            let has_hyperlink = self.pen_hyperlink.is_some();
            if has_hyperlink {
                attrs.hyperlink = true;
            }
            let cell = Cell {
                character: ch,
                foreground: self.pen_foreground,
                background: self.pen_background,
                attributes: attrs,
            };
            let (x, y) = self.cursor.position();
            let abs_row = self.scrollback.len() + y;
            let abs_col = x;
            self.grid.set(x, y, cell);
            let ghost before = self@;
            match &self.pen_hyperlink {
                Some(uri) => {
                    let key: u128 = abs_row as u128 * 0x1_0000_0000_0000_0000u128 + abs_col as u128;
                    assert(key == link_key(abs_row, abs_col));
                    self.hyperlinks.insert(key, uri.clone());
                    proof {
                        assert forall|k: (usize, usize)|
                            #![trigger self.hyperlinks@.contains_key(link_key(k.0, k.1))]
                            link_key(k.0, k.1) == key implies k == (abs_row, abs_col) by {
                            lemma_link_key_injective(k.0, k.1, abs_row, abs_col);
                        }
                        assert(self@.hyperlinks =~= before.hyperlinks.insert((abs_row, abs_col), uri@));
                    }
                },
                None => {},
            }
            self.advance_cursor();
        }
    }

    /// Advances the cursor one column, wrapping to the next line at the edge.
    fn advance_cursor(&mut self)
        requires
            old(self).wf(),
            old(self)@.width == 0 || old(self)@.cursor_x < usize::MAX,
            old(self)@.width > 0 && old(self)@.cursor_x + 1 >= old(self)@.width ==> old(self)@.at(
                0,
                old(self)@.cursor_y,
            ).newline_ok(),
        ensures
            final(self)@ == old(self)@.advance(),
            final(self).wf(),
            final(self).spec_selection() == old(self).spec_selection(),
    {
        if self.width == 0 {
            return;
        }
        let (cx, y) = self.cursor.position();
        let x = cx + 1;
        if x >= self.width {
            self.cursor.move_to(0, y);
            self.newline();
        } else {
            self.cursor.move_to(x, y);
        }
    }

    /// Moves to the next line, scrolling the grid (and saving its top row to
    /// the scrollback) when the cursor is on the last row.
    fn newline(&mut self)
        requires
            old(self).wf(),
            old(self)@.newline_ok(),
        ensures
            final(self)@ == old(self)@.newline(),
            final(self).wf(),
            final(self).spec_selection() == old(self).spec_selection(),
    {
        if self.height == 0 {
            return;
        }
        let (x, y) = self.cursor.position();
        if y + 1 >= self.height {
            match self.grid.row(0) {
                Some(top_row) => {
                    self.scrollback.push_line(Row::from_cells(top_row));
                },
                None => {},
            }
            self.grid.scroll_up();
            if self.viewport_offset > 0 {
                self.viewport_offset += 1;
            }
        } else {
            self.cursor.move_to(x, y + 1);
        }
    }
}

/// The largest index below `n` (0 when `n` is 0).
pub open spec fn last_index(n: nat) -> nat {
    if n == 0 { 0 } else { (n - 1) as nat }
}

/// `a` clamped to at most `b`.
pub open spec fn min_nat(a: nat, b: nat) -> nat {
    if a <= b { a } else { b }
}

impl Terminal {
    /// Resizes the terminal, keeping the grid content that fits and pulling
    /// the cursor back inside the new area.
    pub fn resize(&mut self, width: usize, height: usize)
        requires
            old(self).wf(),
            width * height <= usize::MAX,
        ensures
            final(self).wf(),
            final(self)@ == (TerminalView {
                width: width as nat,
                height: height as nat,
                grid: final(self)@.grid,
                cursor_x: min_nat(old(self)@.cursor_x, last_index(width as nat)),
                cursor_y: min_nat(old(self)@.cursor_y, last_index(height as nat)),
                ..old(self)@
            }),
            final(self)@.grid.width == width,
            final(self)@.grid.height == height,
            forall|x: int, y: int|
                0 <= x < width && 0 <= y < height ==> #[trigger] final(self)@.grid.cell(x, y) == (if old(
                    self,
                )@.grid.in_bounds(x, y) {
                    old(self)@.grid.cell(x, y)
                } else {
                    Cell::spec_blank()
                }),
            final(self).spec_selection() == old(self).spec_selection(),
    {
        self.width = width;
        self.height = height;
        self.grid.resize(width, height);
        let (x, y) = self.cursor.position();
        let max_x = width.saturating_sub(1);
        let max_y = height.saturating_sub(1);
        let nx = if x < max_x { x } else { max_x };
        let ny = if y < max_y { y } else { max_y };
        self.cursor.move_to(nx, ny);
    }

    /// Blanks the whole grid and returns the cursor to the origin; the pen is
    /// left as it is.
    pub fn clear(&mut self)
        requires
            old(self).wf(),
        ensures
            final(self).wf(),
            final(self)@ == (TerminalView {
                grid: GridView::blank(old(self)@.grid.width, old(self)@.grid.height),
                cursor_x: 0,
                cursor_y: 0,
                ..old(self)@
            }),
            final(self).spec_selection() == old(self).spec_selection(),
    {
        self.grid.clear();
        self.cursor.move_to(0, 0);
    }

    /// Read access to the scrollback.
    pub fn scrollback(&self) -> (s: &ScrollbackBuffer)
        ensures
            *s == self.spec_scrollback(),
            s@ == self@.scrollback,
    {
        &self.scrollback
    }

    /// Mutable access to the scrollback.
    pub fn scrollback_mut(&mut self) -> (s: &mut ScrollbackBuffer)
        ensures
            *s == old(self).spec_scrollback(),
            final(self)@ == (TerminalView { scrollback: final(s)@, ..old(self)@ }),
            final(self).wf() == old(self).wf(),
            final(self).spec_selection() == old(self).spec_selection(),
    {
        &mut self.scrollback
    }

    /// The viewport offset (0 = at the bottom).
    pub fn viewport_offset(&self) -> (o: usize)
        ensures
            o == self@.viewport_offset,
    {
        self.viewport_offset
    }

    /// Whether the viewport shows the live output.
    pub fn is_at_bottom(&self) -> (b: bool)
        ensures
            b == (self@.viewport_offset == 0),
    {
        self.viewport_offset == 0
    }

    /// Scrolls the viewport up by at most `amount` lines; returns how far.
    pub fn scroll_viewport_up(&mut self, amount: usize) -> (n: usize)
        requires
            old(self)@.viewport_offset + old(self)@.scrollback.scroll_up_amount(amount as nat) <= usize::MAX,
        ensures
            n == old(self)@.scrollback.scroll_up_amount(amount as nat),
            final(self)@ == old(self)@.scrolled_viewport_up(amount as nat),
            final(self).wf() == old(self).wf(),
            final(self).spec_selection() == old(self).spec_selection(),
    {
        let scrolled = self.scrollback.scroll_up(amount);
        self.viewport_offset += scrolled;
        scrolled
    }

    /// Scrolls the viewport down by at most `amount` lines; returns how far.
    pub fn scroll_viewport_down(&mut self, amount: usize) -> (n: usize)
        requires
            old(self)@.scrollback.scroll_down_amount(amount as nat) <= old(self)@.viewport_offset,
        ensures
            n == old(self)@.scrollback.scroll_down_amount(amount as nat),
            final(self)@ == old(self)@.scrolled_viewport_down(amount as nat),
            final(self).wf() == old(self).wf(),
            final(self).spec_selection() == old(self).spec_selection(),
    {
        let scrolled = self.scrollback.scroll_down(amount);
        self.viewport_offset -= scrolled;
        scrolled
    }

    /// Scrolls the viewport to the oldest history line.
    pub fn scroll_viewport_to_top(&mut self)
        ensures
            final(self)@ == (TerminalView {
                scrollback: ScrollbackView { viewport_offset: old(self)@.scrollback.lines.len(), ..old(self)@.scrollback },
                viewport_offset: old(self)@.scrollback.lines.len(),
                ..old(self)@
            }),
            final(self).wf() == old(self).wf(),
            final(self).spec_selection() == old(self).spec_selection(),
    {
        self.scrollback.scroll_to_top();
        self.viewport_offset = self.scrollback.viewport_offset();
    }

    /// Scrolls the viewport back to the live output.
    pub fn scroll_viewport_to_bottom(&mut self)
        ensures
            final(self)@ == (TerminalView {
                scrollback: ScrollbackView { viewport_offset: 0, ..old(self)@.scrollback },
                viewport_offset: 0,
                ..old(self)@
            }),
            final(self).wf() == old(self).wf(),
            final(self).spec_selection() == old(self).spec_selection(),
    {
        self.scrollback.scroll_to_bottom();
        self.viewport_offset = 0;
    }
}

impl Terminal {
    /// Scrolls by whole pages (a page is the height less one, at least one
    /// line): up for positive `pages`, down for negative ones.
    pub fn scroll_viewport_pages(&mut self, pages: isize)
        requires
            isize::MIN < old(self)@.page_lines(pages) <= isize::MAX,
            pages > 0 ==> old(self)@.viewport_offset + old(self)@.scrollback.scroll_up_amount(
                abs(old(self)@.page_lines(pages)) as nat,
            ) <= usize::MAX,
            pages < 0 ==> old(self)@.scrollback.scroll_down_amount(abs(old(self)@.page_lines(pages)) as nat)
                <= old(self)@.viewport_offset,
        ensures
            final(self)@ == (if pages > 0 {
                old(self)@.scrolled_viewport_up(abs(old(self)@.page_lines(pages)) as nat)
            } else if pages < 0 {
                old(self)@.scrolled_viewport_down(abs(old(self)@.page_lines(pages)) as nat)
            } else {
                old(self)@
            }),
            final(self).wf() == old(self).wf(),
            final(self).spec_selection() == old(self).spec_selection(),
    {
        let h1 = self.height.saturating_sub(1);
        let page_size: usize = if h1 > 1 { h1 } else { 1 };
        let ps: isize = #[verifier::truncate] (page_size as isize);
        let product = pages * ps;
        let lines: usize = if product < 0 { (-product) as usize } else { product as usize };
        if pages > 0 {
            self.scroll_viewport_up(lines);
        } else if pages < 0 {
            self.scroll_viewport_down(lines);
        }
    }

    /// The rows on screen, top to bottom: shown history lines (oldest first),
    /// then the grid rows.
    pub fn visible_rows(&self) -> (rows: Vec<Row>)
        requires
            self.wf(),
        ensures
            rows@.len() == self@.visible_row_count(),
            forall|i: int| 0 <= i < rows@.len() ==> #[trigger] rows@[i]@ == self@.visible_row(i),
    {
        let mut rows = Vec::with_capacity(self.height);
        self.fill_visible_rows(&mut rows);
        rows
    }

    /// Refills `rows` with the rows on screen, reusing its allocation.
    pub fn fill_visible_rows(&self, rows: &mut Vec<Row>)
        requires
            self.wf(),
        ensures
            final(rows)@.len() == self@.visible_row_count(),
            forall|i: int| 0 <= i < final(rows)@.len() ==> #[trigger] final(rows)@[i]@ == self@.visible_row(i),
    {
        rows.clear();
        rows.reserve(self.height);
        let sb_len = self.scrollback.len();
        let n_sb = if self.viewport_offset < sb_len { self.viewport_offset } else { sb_len };
        let mut i: usize = 0;
        while i < n_sb
            invariant
                i <= n_sb,
                n_sb == self@.shown_history(),
                sb_len == self@.scrollback.lines.len(),
                rows@.len() == i,
                forall|j: int| 0 <= j < i ==> #[trigger] rows@[j]@ == self@.visible_row(j),
            decreases n_sb - i,
        {
            let sb_idx = n_sb - 1 - i;
            match self.scrollback.get_line(sb_idx) {
                Some(row) => {
                    rows.push(row.clone());
                },
                None => {
                    rows.push(Row::new(self.width));
                },
            }
            i += 1;
        }
        let mut i: usize = n_sb;
        while i < self.height
            invariant
                n_sb <= i,
                n_sb == self@.shown_history(),
                self.wf(),
                i == n_sb || i <= self.height,
                rows@.len() == i,
                forall|j: int| 0 <= j < i ==> #[trigger] rows@[j]@ == self@.visible_row(j),
            decreases self.height - i,
        {
            let grid_row = i - n_sb;
            match self.grid.row(grid_row) {
                Some(cells) => {
                    rows.push(Row::from_cells(cells));
                },
                None => {
                    rows.push(Row::new(self.width));
                },
            }
            i += 1;
        }
    }

    /// Absolute row (0 = the oldest history line) shown at screen row
    /// `visible_row`.
    pub fn visible_row_to_absolute(&self, visible_row: usize) -> (a: usize)
        requires
            self@.scrollback.lines.len() - self@.shown_history() + visible_row <= usize::MAX,
        ensures
            a == self@.visible_to_absolute(visible_row as int),
    {
        let sb_len = self.scrollback.len();
        let n_sb = if self.viewport_offset < sb_len { self.viewport_offset } else { sb_len };
        (sb_len - n_sb) + visible_row
    }

    /// Screen row showing absolute row `absolute_row`, or `None` when it is
    /// off screen.
    pub fn absolute_to_visible_row(&self, absolute_row: usize) -> (v: Option<usize>)
        ensures
            v == (match self@.absolute_to_visible(absolute_row as int) {
                Some(r) => Some(r as usize),
                None => None,
            }),
    {
        let sb_len = self.scrollback.len();
        let n_sb = if self.viewport_offset < sb_len { self.viewport_offset } else { sb_len };
        let first = sb_len - n_sb;
        if absolute_row >= first && absolute_row - first < self.height {
            return Some(absolute_row - first);
        }
        None
    }

    /// The cell at column `x` of absolute row `y` (0 = the oldest history
    /// line; the grid rows follow the newest).
    pub fn get_cell_absolute(&self, x: usize, y: usize) -> (c: Option<&Cell>)
        requires
            self.wf(),
        ensures
            c == (match self@.cell_absolute(x as int, y as int) {
                Some(cell) => Some(&cell),
                None => None,
            }),
    {
        let sb_len = self.scrollback.len();
        if y < sb_len {
            match self.scrollback.get_line(sb_len - 1 - y) {
                Some(row) => {
                    if x < row.cells.len() {
                        Some(&row.cells[x])
                    } else {
                        None
                    }
                },
                None => None,
            }
        } else {
            let grid_y = y - sb_len;
            if grid_y < self.height {
                self.grid.get(x, grid_y)
            } else {
                None
            }
        }
    }

    /// Read access to the selection.
    pub fn selection(&self) -> (s: &Selection)
        ensures
            *s == self.spec_selection(),
    {
        &self.selection
    }

    /// Mutable access to the selection.
    pub fn selection_mut(&mut self) -> (s: &mut Selection)
        ensures
            *s == old(self).spec_selection(),
            final(self)@ == old(self)@,
            final(self).wf() == old(self).wf(),
            final(self).spec_selection() == *final(s),
    {
        &mut self.selection
    }

    /// Starts a selection at `(col, row)`.
    pub fn start_selection(&mut self, col: usize, row: usize)
        ensures
            final(self)@ == old(self)@,
            final(self).wf() == old(self).wf(),
            final(self).spec_selection().anchor() == Some((col, row)),
            final(self).spec_selection().head() == Some((col, row)),
            final(self).spec_selection().spec_mode() == old(self).spec_selection().spec_mode(),
    {
        self.selection.start(col, row);
    }

    /// Moves the end of the selection to `(col, row)`.
    pub fn update_selection(&mut self, col: usize, row: usize)
        ensures
            final(self)@ == old(self)@,
            final(self).wf() == old(self).wf(),
            final(self).spec_selection().anchor() == old(self).spec_selection().anchor(),
            final(self).spec_selection().head() == (if old(self).spec_selection().anchor() is Some {
                Some((col, row))
            } else {
                old(self).spec_selection().head()
            }),
            final(self).spec_selection().spec_mode() == old(self).spec_selection().spec_mode(),
    {
        self.selection.update(col, row);
    }

    /// Ends the selection gesture; the selection stays.
    pub fn end_selection(&mut self)
        ensures
            final(self)@ == old(self)@,
            final(self).wf() == old(self).wf(),
            final(self).spec_selection() == old(self).spec_selection(),
    {
        self.selection.end();
    }

    /// Clears the selection.
    pub fn clear_selection(&mut self)
        ensures
            final(self)@ == old(self)@,
            final(self).wf() == old(self).wf(),
            final(self).spec_selection().anchor() is None,
            final(self).spec_selection().head() is None,
            final(self).spec_selection().spec_mode() == old(self).spec_selection().spec_mode(),
    {
        self.selection.clear();
    }

    /// Whether a selection is active.
    pub fn has_selection(&self) -> (b: bool)
        ensures
            b == (self.spec_selection().anchor() is Some && self.spec_selection().head() is Some),
    {
        self.selection.is_active()
    }

    /// The selected text, read from history and grid.
    pub fn get_selection_text(&self) -> (s: String)
        requires
            self.wf(),
        ensures
            s@ == self.spec_selection().spec_text(cells_of(self)),
    {
        self.selection.get_text(self)
    }

    /// Sets (or, with `None`, ends) the hyperlink of the pen.
    pub fn set_hyperlink(&mut self, uri: Option<String>)
        ensures
            final(self)@ == (TerminalView {
                pen_hyperlink: match uri {
                    Some(s) => Some(s@),
                    None => None,
                },
                ..old(self)@
            }),
            final(self).wf() == old(self).wf(),
            final(self).spec_selection() == old(self).spec_selection(),
    {
        self.pen_hyperlink = uri;
    }

    /// The hyperlink recorded at absolute `(abs_row, col)`, if any.
    pub fn get_hyperlink(&self, abs_row: usize, col: usize) -> (r: Option<&str>)
        ensures
            r is Some <==> self@.hyperlinks.contains_key((abs_row, col)),
            r matches Some(s) ==> s@ == self@.hyperlinks[(abs_row, col)],
    {
        let key: u128 = abs_row as u128 * 0x1_0000_0000_0000_0000u128 + col as u128;
        assert(key == link_key(abs_row, col));
        match self.hyperlinks.get(&key) {
            Some(s) => Some(s.as_str()),
            None => None,
        }
    }

    /// The pen's hyperlink, if any.
    pub fn pen_hyperlink(&self) -> (r: Option<&str>)
        ensures
            r is Some <==> self@.pen_hyperlink is Some,
            r matches Some(s) ==> self@.pen_hyperlink == Some(s@),
    {
        match &self.pen_hyperlink {
            Some(s) => Some(s.as_str()),
            None => None,
        }
    }

    /// Stores clipboard content requested by the program (OSC 52).
    pub fn set_clipboard_output(&mut self, content: Option<String>)
        ensures
            final(self)@ == (TerminalView {
                clipboard_output: match content {
                    Some(s) => Some(s@),
                    None => None,
                },
                ..old(self)@
            }),
            final(self).wf() == old(self).wf(),
            final(self).spec_selection() == old(self).spec_selection(),
    {
        self.clipboard_output = content;
    }

    /// Takes the pending clipboard content, leaving none.
    pub fn take_clipboard_output(&mut self) -> (r: Option<String>)
        ensures
            (match r {
                Some(s) => Some(s@),
                None => None,
            }) == old(self)@.clipboard_output,
            final(self)@ == (TerminalView { clipboard_output: None, ..old(self)@ }),
            final(self).wf() == old(self).wf(),
            final(self).spec_selection() == old(self).spec_selection(),
    {
        let r = self.clipboard_output.take();
        r
    }

    /// Whether a bell is pending.
    pub fn is_bell_pending(&self) -> (b: bool)
        ensures
            b == self@.bell_pending,
    {
        self.bell_pending
    }

    /// Marks a bell as pending.
    pub fn mark_bell(&mut self)
        ensures
            final(self)@ == (TerminalView { bell_pending: true, ..old(self)@ }),
            final(self).wf() == old(self).wf(),
            final(self).spec_selection() == old(self).spec_selection(),
    {
        self.bell_pending = true;
    }

    /// Clears the pending bell.
    pub fn clear_bell(&mut self)
        ensures
            final(self)@ == (TerminalView { bell_pending: false, ..old(self)@ }),
            final(self).wf() == old(self).wf(),
            final(self).spec_selection() == old(self).spec_selection(),
    {
        self.bell_pending = false;
    }

    /// Widens both ends of the selection to word boundaries (the mode is
    /// left as it is).
    pub fn expand_selection_to_word(&mut self)
        requires
            old(self).wf(),
        ensures
            final(self)@ == old(self)@,
            final(self).wf(),
            final(self).spec_selection().spec_mode() == old(self).spec_selection().spec_mode(),
            word_widened(old(self).spec_selection(), cells_of(old(self)), final(self).spec_selection()),
            old(self).spec_selection().spec_bounds() is None ==> final(self).spec_selection()
                == old(self).spec_selection(),
    {
        let bounds = self.selection.bounds();
        if let Some((start_col, start_row, end_col, end_row)) = bounds {
            let new_start_col = Selection::scan_word_start(self, start_row, start_col);
            let new_end_col = Selection::scan_word_last(self, end_row, end_col);
            self.selection.set_start(new_start_col, start_row);
            self.selection.set_end(new_end_col, end_row);
        }
    }

    /// Widens the selection to whole lines.
    pub fn expand_selection_to_line(&mut self)
        ensures
            final(self)@ == old(self)@,
            final(self).wf() == old(self).wf(),
            final(self).spec_selection().spec_mode() == crate::selection::SelectionMode::Line,
            old(self).spec_selection().spec_bounds() matches Some((sc, sr, ec, er)) ==> {
                &&& final(self).spec_selection().anchor() == Some((0usize, sr))
                &&& final(self).spec_selection().head() == Some((usize::MAX, er))
            },
            old(self).spec_selection().spec_bounds() is None ==> final(self).spec_selection().anchor()
                == old(self).spec_selection().anchor() && final(self).spec_selection().head() == old(
                self,
            ).spec_selection().head(),
    {
        self.selection.expand_to_line();
    }
}

impl CellSource for Terminal {
    open spec fn readable(&self) -> bool {
        self.wf()
    }

    open spec fn cell_at(&self, col: int, row: int) -> Option<Cell> {
        self@.cell_absolute(col, row)
    }

    fn cell(&self, col: usize, row: usize) -> (r: Option<Cell>) {
        match self.get_cell_absolute(col, row) {
            Some(c) => Some(*c),
            None => None,
        }
    }

    proof fn lemma_row_bounded(&self, col: int, row: int) {
        self.scrollback.lemma_lengths();
        self.grid.lemma_dims();
        assert(self@.scrollback == self.scrollback@);
        assert(self@.grid == self.grid@);
        if 0 <= row < self@.scrollback.lines.len() {
            assert(self@.scrollback.lines[row].cells.len() <= usize::MAX);
        } else {
            assert(!self@.grid.in_bounds(col, row - self@.scrollback.lines.len()));
        }
    }
}

} // verus!

verus! {

/// A screen row maps to an absolute row, and that absolute row maps back to
/// the same screen row.
pub proof fn lemma_visible_absolute_round_trip(t: TerminalView, v: int)
    requires
        0 <= v < t.height,
    ensures
        t.visible_to_absolute(v) >= 0,
        t.absolute_to_visible(t.visible_to_absolute(v)) == Some(v),
{
}

/// An absolute row that is on screen maps to a screen row that maps back to it.
pub proof fn lemma_absolute_visible_round_trip(t: TerminalView, a: int)
    requires
        0 <= a,
        t.absolute_to_visible(a) is Some,
    ensures
        0 <= t.absolute_to_visible(a).unwrap() < t.height,
        t.visible_to_absolute(t.absolute_to_visible(a).unwrap()) == a,
{
}

/// Each cell of a row on screen is the cell stored at that row's absolute
/// position, when the grid has the terminal's dimensions.
pub proof fn lemma_visible_rows_show_cells(t: TerminalView, v: int, x: int)
    requires
        t.grid.wf(),
        t.grid.width == t.width,
        t.grid.height == t.height,
        0 <= v < t.visible_row_count(),
        0 <= x < t.visible_row(v).cells.len(),
    ensures
        t.cell_absolute(x, t.visible_to_absolute(v)) == Some(t.visible_row(v).cells[x]),
{
    let n = t.shown_history() as int;
    if v >= n {
        assert(v - n < t.grid.height);
        if t.width > 0 {
            crate::grid::lemma_flat_index(t.grid.width, t.grid.height, 0, v - n);
        }
        assert(t.visible_row(v).cells == t.grid.row(v - n));
        assert(t.grid.row(v - n).len() == t.grid.width);
        assert(t.grid.in_bounds(x, v - n));
        crate::grid::lemma_row_cells(t.grid, x, v - n);
    }
}

/// On any terminal, each cell of a row on screen is the cell stored at that
/// row's absolute position.
pub proof fn lemma_terminal_rows_show_cells(t: &Terminal, v: int, x: int)
    requires
        t.wf(),
        0 <= v < t@.visible_row_count(),
        0 <= x < t@.visible_row(v).cells.len(),
    ensures
        t@.cell_absolute(x, t@.visible_to_absolute(v)) == Some(t@.visible_row(v).cells[x]),
{
    t.lemma_view();
    lemma_visible_rows_show_cells(t@, v, x);
}

/// Absolute rows keep the order of the screen: a lower screen row shows a
/// later absolute row.
pub proof fn lemma_absolute_rows_ordered(t: TerminalView, v1: int, v2: int)
    requires
        v1 < v2,
    ensures
        t.visible_to_absolute(v1) < t.visible_to_absolute(v2),
{
}

/// Widening a terminal's selection to words gives the same bounds as
/// widening that selection, as a selection, over the terminal's cells.
pub proof fn lemma_word_expansion_agrees(t: &Terminal, after: Selection, r: Selection)
    requires
        word_widened(t.spec_selection(), cells_of(t), after),
        word_widened(t.spec_selection(), cells_of(t), r),
    ensures
        after.spec_bounds() == r.spec_bounds(),
{
}

/// A character written with a pen hyperlink records the link under the
/// written cell's absolute position: the history's length plus the
/// cursor's row, which is the absolute row at which the cell under the
/// cursor is read back (history rows come first).
pub proof fn lemma_link_at_written_cell(t: TerminalView, ch: char)
    requires
        ch != '\n',
        ch != '\r',
        t.pen_hyperlink is Some,
        t.grid.wf(),
        t.grid.width == t.width,
        t.grid.height == t.height,
        t.cursor_x < t.width,
        t.cursor_y < t.height,
        t.scrollback.lines.len() + t.cursor_y <= usize::MAX,
    ensures
        ({
            let a = t.scrollback.lines.len() + t.cursor_y;
            &&& t.cell_absolute(t.cursor_x as int, a as int) == Some(t.grid.cell(t.cursor_x as int, t.cursor_y as int))
            &&& t.write_char(ch).hyperlinks.contains_key((a as usize, t.cursor_x as usize))
            &&& t.write_char(ch).hyperlinks[(a as usize, t.cursor_x as usize)] == t.pen_hyperlink->0
        }),
{
    let w = t.write_char(ch);
    let drawn_links = t.hyperlinks.insert(
        ((t.scrollback.lines.len() + t.cursor_y) as usize, t.cursor_x as usize),
        t.pen_hyperlink->0,
    );
    assert(w.hyperlinks == drawn_links);
}

/// A printable character lands in the cell under the cursor with the pen's
/// colours and attributes.
pub proof fn lemma_write_char_draws(t: TerminalView, ch: char)
    requires
        t.grid.wf(),
        ch != '\n',
        ch != '\r',
        t.grid.in_bounds(t.cursor_x as int, t.cursor_y as int),
        t.cursor_y + 1 < t.height,
    ensures
        t.write_char(ch).grid.cell(t.cursor_x as int, t.cursor_y as int) == t.pen_cell(ch),
        t.write_char(ch).cursor_y == (if t.width > 0 && t.cursor_x + 1 >= t.width {
            t.cursor_y + 1
        } else {
            t.cursor_y
        }),
{
    crate::grid::lemma_set_then_get(t.grid, t.cursor_x as int, t.cursor_y as int, t.pen_cell(ch), t.cursor_x as int, t.cursor_y as int);
}

/// Scrolling the viewport up and then down by the distance it moved returns
/// to the same view.
pub proof fn lemma_scroll_up_then_down(t: TerminalView, amount: nat)
    ensures
        ({
            let up = t.scrolled_viewport_up(amount);
            let n = t.scrollback.scroll_up_amount(amount);
            up.scrollback.scroll_down_amount(n) == n && up.scrolled_viewport_down(n) == t
        }),
{
    let up = t.scrolled_viewport_up(amount);
    let n = t.scrollback.scroll_up_amount(amount);
    assert(up.scrolled_viewport_down(n).scrollback == t.scrollback);
}

/// A line feed on any row but the last moves the cursor one row down and
/// keeps its column; nothing else changes.
pub proof fn lemma_line_feed_keeps_column(t: TerminalView)
    requires
        t.cursor_y + 1 < t.height,
    ensures
        t.write_char('\n') == t.at(t.cursor_x, t.cursor_y + 1),
{
}

/// A line feed on the last row scrolls: the top row goes to the history,
/// the grid moves up, the cursor stays.
pub proof fn lemma_line_feed_at_bottom_scrolls(t: TerminalView)
    requires
        t.height > 0,
        t.grid.height > 0,
        t.cursor_y + 1 >= t.height,
    ensures
        t.write_char('\n').grid == t.grid.scrolled_up(),
        t.write_char('\n').scrollback.lines[0].cells == t.grid.row(0),
        t.write_char('\n').cursor_x == t.cursor_x,
        t.write_char('\n').cursor_y == t.cursor_y,
{
}

/// A character written in the last column wraps the cursor to the start of
/// the next row.
pub proof fn lemma_wrap_at_right_edge(t: TerminalView, ch: char)
    requires
        ch != '\n',
        ch != '\r',
        t.width > 0,
        t.cursor_x + 1 >= t.width,
        t.cursor_y + 1 < t.height,
    ensures
        t.write_char(ch).cursor_x == 0,
        t.write_char(ch).cursor_y == t.cursor_y + 1,
{
}

/// Writing two texts one after the other is writing their concatenation.
pub proof fn lemma_write_concat(t: TerminalView, a: Seq<char>, b: Seq<char>)
    ensures
        t.write(a + b) == t.write(a).write(b),
    decreases a.len(),
{
    if a.len() == 0 {
        assert(a + b =~= b);
    } else {
        assert((a + b)[0] == a[0]);
        assert((a + b).drop_first() =~= a.drop_first() + b);
        lemma_write_concat(t.write_char(a[0]), a.drop_first(), b);
    }
}

} // verus!
