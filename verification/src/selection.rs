//! Text selection over absolute (scrollback-inclusive) coordinates.

use vstd::prelude::*;
use crate::cell::Cell;
use crate::text::{char_is_alphanumeric, is_alphanumeric, is_ascii_alnum, string_from_chars, trim_end, trimmed_len};

verus! {

/// How the selection grows.
#[derive(Debug, Clone, Copy, PartialEq, Eq, Structural)]
pub enum SelectionMode {
    Character,
    Word,
    Line,
}

impl Default for SelectionMode {
    fn default() -> (m: Self)
        ensures
            m == SelectionMode::Character,
    {
        SelectionMode::Character
    }
}

/// Something that can be read cell by cell at absolute `(col, row)`.
pub trait CellSource {
    /// The source is in a state that can be read.
    spec fn readable(&self) -> bool;

    /// The cell at `(col, row)`, if there is one.
    spec fn cell_at(&self, col: int, row: int) -> Option<Cell>;

    /// Reads the cell at `(col, row)`.
    fn cell(&self, col: usize, row: usize) -> (r: Option<Cell>)
        requires
            self.readable(),
        ensures
            r == self.cell_at(col as int, row as int),
    ;

    /// A row never holds a cell at column `usize::MAX` or beyond.
    proof fn lemma_row_bounded(&self, col: int, row: int)
        requires
            col >= usize::MAX,
        ensures
            self.cell_at(col, row) is None,
    ;
}

/// All cells of a source, as a function of `(col, row)`.
pub open spec fn cells_of<S: CellSource>(source: &S) -> spec_fn(int, int) -> Option<Cell> {
    |c: int, r: int| source.cell_at(c, r)
}

/// The cells of one row, as a function of the column.
pub open spec fn row_of(cells: spec_fn(int, int) -> Option<Cell>, row: int) -> spec_fn(int) -> Option<Cell> {
    |c: int| cells(c, row)
}

/// Characters of one selected row: cells from `col` on, while they exist
/// and `col <= end`, leading spaces dropped (`started` once one is taken).
pub open spec fn line_chars(cells: spec_fn(int) -> Option<Cell>, col: int, end: int, started: bool) -> Seq<char>
    decreases end + 1 - col,
{
    if col > end || cells(col) is None {
        Seq::empty()
    } else if cells(col).unwrap().character != ' ' || started {
        seq![cells(col).unwrap().character] + line_chars(cells, col + 1, end, true)
    } else {
        line_chars(cells, col + 1, end, false)
    }
}

/// Whether the character extends a word: `_`, or a character that
/// `char::is_alphanumeric` accepts (within ASCII, the letters and digits).
pub open spec fn is_word_char(c: char) -> bool {
    (if c <= '\u{7f}' {
        is_ascii_alnum(c)
    } else {
        char_is_alphanumeric(c)
    }) || c == '_'
}

/// Whether the cell at `col` exists and holds a word character.
pub open spec fn word_cell(cells: spec_fn(int) -> Option<Cell>, col: int) -> bool {
    match cells(col) {
        Some(c) => is_word_char(c.character),
        None => false,
    }
}

/// Last column of the word that starts at or runs through `col` on a row:
/// the column before [`word_end`] when `col` holds a word character, else
/// `col` itself.
pub open spec fn word_last(cells: spec_fn(int) -> Option<Cell>, col: int) -> int {
    if word_end(cells, col) > col {
        word_end(cells, col) - 1
    } else {
        col
    }
}

/// `r` is selection `s` widened to words over `cells`: the start moved back
/// to the first character of its word and the end on to the last character
/// of its word (both ends kept when `s` has no bounds).
pub open spec fn word_widened(s: Selection, cells: spec_fn(int, int) -> Option<Cell>, r: Selection) -> bool {
    match s.spec_bounds() {
        Some((sc, sr, ec, er)) => {
            &&& r.anchor() == Some((word_start(row_of(cells, sr as int), sc as int) as usize, sr))
            &&& r.head() == Some((word_last(row_of(cells, er as int), ec as int) as usize, er))
        },
        None => r.anchor() == s.anchor() && r.head() == s.head(),
    }
}

/// Text of the selected rows `row..=end_row` given the normalized bounds.
pub open spec fn rows_text(
    cells: spec_fn(int, int) -> Option<Cell>,
    bounds: (usize, usize, usize, usize),
    row: int,
) -> Seq<char>
    decreases bounds.3 + 1 - row,
{
    if row > bounds.3 {
        Seq::empty()
    } else {
        let start_c: int = if row == bounds.1 { bounds.0 as int } else { 0 };
        let end_c: int = if row == bounds.3 { bounds.2 as int } else { usize::MAX as int };
        let line = line_chars(row_of(cells, row), start_c, end_c, false);
        let piece = if line.len() > 0 || row < bounds.3 {
            trim_end(line) + (if row < bounds.3 { seq!['\n'] } else { Seq::empty() })
        } else {
            Seq::empty()
        };
        piece + rows_text(cells, bounds, row + 1)
    }
}

/// First column of the word that ends just before `col` on a row.
pub open spec fn word_start(cells: spec_fn(int) -> Option<Cell>, col: int) -> int
    decreases col,
{
    if col > 0 && word_cell(cells, col - 1) {
        word_start(cells, col - 1)
    } else {
        col
    }
}

/// First column at or after `col` that is not a word character.
pub open spec fn word_end(cells: spec_fn(int) -> Option<Cell>, col: int) -> int
    decreases usize::MAX - col,
{
    if col < usize::MAX && word_cell(cells, col) {
        word_end(cells, col + 1)
    } else {
        col
    }
}

/// Text selection state.
#[derive(Debug, Clone)]
pub struct Selection {
    start: Option<(usize, usize)>,
    end: Option<(usize, usize)>,
    mode: SelectionMode,
}

impl Default for Selection {
    fn default() -> (s: Self)
        ensures
            s.anchor() is None,
            s.head() is None,
            s.spec_mode() == SelectionMode::Character,
    {
        Selection { start: None, end: None, mode: SelectionMode::Character }
    }
}

impl Selection {
    /// Where the selection was started, as `(col, row)`.
    pub closed spec fn anchor(&self) -> Option<(usize, usize)> {
        self.start
    }

    /// Where the selection currently ends, as `(col, row)`.
    pub closed spec fn head(&self) -> Option<(usize, usize)> {
        self.end
    }

    /// The selection mode.
    pub closed spec fn spec_mode(&self) -> SelectionMode {
        self.mode
    }

    /// Both ends, ordered so that the first comes first in reading order.
    pub open spec fn spec_bounds(&self) -> Option<(usize, usize, usize, usize)> {
        match (self.anchor(), self.head()) {
            (Some(s), Some(e)) => if s.1 < e.1 || (s.1 == e.1 && s.0 <= e.0) {
                Some((s.0, s.1, e.0, e.1))
            } else {
                Some((e.0, e.1, s.0, s.1))
            },
            _ => None,
        }
    }

    /// Whether `(col, row)` lies in the selection.
    pub open spec fn spec_contains(&self, col: int, row: int) -> bool {
        match self.spec_bounds() {
            Some((sc, sr, ec, er)) => sr <= row <= er && (self.spec_mode() == SelectionMode::Line || (!(row
                == sr && col < sc) && !(row == er && col > ec))),
            None => false,
        }
    }

    /// The selected text read from `cells`.
    pub open spec fn spec_text(&self, cells: spec_fn(int, int) -> Option<Cell>) -> Seq<char> {
        match self.spec_bounds() {
            Some(b) => rows_text(cells, b, b.1 as int),
            None => Seq::empty(),
        }
    }

    /// Creates an empty selection.
    pub fn new() -> (s: Self)
        ensures
            s.anchor() is None,
            s.head() is None,
            s.spec_mode() == SelectionMode::Character,
    {
        Self::default()
    }

    /// Whether both ends are set.
    pub fn is_active(&self) -> (b: bool)
        ensures
            b == (self.anchor() is Some && self.head() is Some),
    {
        self.start.is_some() && self.end.is_some()
    }

    /// Sets the selection mode.
    pub fn set_mode(&mut self, mode: SelectionMode)
        ensures
            final(self).spec_mode() == mode,
            final(self).anchor() == old(self).anchor(),
            final(self).head() == old(self).head(),
    {
        self.mode = mode;
    }

    /// The selection mode.
    pub fn mode(&self) -> (m: SelectionMode)
        ensures
            m == self.spec_mode(),
    {
        self.mode
    }

    /// Starts a new selection at `(col, row)`.
    pub fn start(&mut self, col: usize, row: usize)
        ensures
            final(self).anchor() == Some((col, row)),
            final(self).head() == Some((col, row)),
            final(self).spec_mode() == old(self).spec_mode(),
    {
        self.start = Some((col, row));
        self.end = Some((col, row));
    }

    /// Moves the end of a started selection to `(col, row)`.
    pub fn update(&mut self, col: usize, row: usize)
        ensures
            final(self).anchor() == old(self).anchor(),
            final(self).head() == (if old(self).anchor() is Some { Some((col, row)) } else { old(self).head() }),
            final(self).spec_mode() == old(self).spec_mode(),
    {
        if self.start.is_some() {
            self.end = Some((col, row));
        }
    }

    /// Ends the selection gesture; the selection stays until cleared.
    pub fn end(&mut self)
        ensures
            *final(self) == *old(self),
    {
    }

    /// Clears the selection.
    pub fn clear(&mut self)
        ensures
            final(self).anchor() is None,
            final(self).head() is None,
            final(self).spec_mode() == old(self).spec_mode(),
    {
        self.start = None;
        self.end = None;
    }

    /// Sets the start position.
    pub fn set_start(&mut self, col: usize, row: usize)
        ensures
            final(self).anchor() == Some((col, row)),
            final(self).head() == old(self).head(),
            final(self).spec_mode() == old(self).spec_mode(),
    {
        self.start = Some((col, row));
    }

    /// Sets the end position.
    pub fn set_end(&mut self, col: usize, row: usize)
        ensures
            final(self).head() == Some((col, row)),
            final(self).anchor() == old(self).anchor(),
            final(self).spec_mode() == old(self).spec_mode(),
    {
        self.end = Some((col, row));
    }

    /// The bounds `(start_col, start_row, end_col, end_row)` in reading order.
    pub fn bounds(&self) -> (r: Option<(usize, usize, usize, usize)>)
        ensures
            r == self.spec_bounds(),
    {
        match (self.start, self.end) {
            (Some(start), Some(end)) => {
                if start.1 < end.1 || (start.1 == end.1 && start.0 <= end.0) {
                    Some((start.0, start.1, end.0, end.1))
                } else {
                    Some((end.0, end.1, start.0, start.1))
                }
            },
            _ => None,
        }
    }

    /// Whether the cell `(col, row)` lies in the selection: whole rows in
    /// line mode, a stream of text otherwise.
    pub fn contains(&self, col: usize, row: usize) -> (b: bool)
        ensures
            b == self.spec_contains(col as int, row as int),
    {
        if let Some((start_col, start_row, end_col, end_row)) = self.bounds() {
            if row < start_row || row > end_row {
                return false;
            }
            match self.mode {
                SelectionMode::Line => true,
                SelectionMode::Character | SelectionMode::Word => {
                    if row == start_row && col < start_col {
                        return false;
                    }
                    if row == end_row && col > end_col {
                        return false;
                    }
                    true
                },
            }
        } else {
            false
        }
    }

    /// The selected text: one line per row, leading blanks of a line and
    /// trailing white space dropped, rows joined by `'\n'`.
    pub fn get_text<S: CellSource>(&self, source: &S) -> (s: String)
        requires
            source.readable(),
        ensures
            s@ == self.spec_text(cells_of(source)),
    {
        let ghost cells = cells_of(source);
        match self.bounds() {
            None => {
                let v: Vec<char> = Vec::new();
                string_from_chars(&v)
            },
            Some(b) => {
                let (start_col, start_row, end_col, end_row) = b;
                let mut result: Vec<char> = Vec::new();
                let mut row = start_row;
                loop
                    invariant_except_break
                        start_row <= row <= end_row,
                        b == self.spec_bounds().unwrap(),
                        self.spec_bounds() is Some,
                        b.1 == start_row,
                        b.3 == end_row,
                        b.0 == start_col,
                        b.2 == end_col,
                        cells == cells_of(source),
                        source.readable(),
                        result@ + rows_text(cells, b, row as int) == rows_text(cells, b, start_row as int),
                    ensures
                        result@ == rows_text(cells, b, start_row as int),
                    decreases end_row - row,
                {
                    let start_c = if row == start_row { start_col } else { 0 };
                    let end_c = if row == end_row { end_col } else { usize::MAX };
                    let line = Self::read_line(source, row, start_c, end_c);
                    let n = trimmed_len(&line);
                    let ghost piece = if line@.len() > 0 || row < end_row {
                        trim_end(line@) + (if row < end_row { seq!['\n'] } else { Seq::<char>::empty() })
                    } else {
                        Seq::<char>::empty()
                    };
                    let ghost before = result@;
                    if line.len() > 0 || row < end_row {
                        let mut i: usize = 0;
                        while i < n
                            invariant
                                i <= n,
                                n <= line@.len(),
                                result@ == before + line@.subrange(0, i as int),
                            decreases n - i,
                        {
                            result.push(line[i]);
                            i += 1;
                        }
                        if row < end_row {
                            result.push('\n');
                        }
                    }
                    assert(result@ =~= before + piece);
                    assert(rows_text(cells, b, row as int) == piece + rows_text(cells, b, row + 1));
                    if row == end_row {
                        assert(rows_text(cells, b, row + 1) == Seq::<char>::empty());
                        assert(result@ =~= result@ + rows_text(cells, b, row + 1));
                        break;
                    }
                    row += 1;
                }
                string_from_chars(&result)
            },
        }
    }

    /// Reads one row from `col` to `end` (inclusive) while cells exist,
    /// dropping leading spaces.
    fn read_line<S: CellSource>(source: &S, row: usize, col: usize, end: usize) -> (line: Vec<char>)
        requires
            source.readable(),
        ensures
            line@ == line_chars(row_of(cells_of(source), row as int), col as int, end as int, false),
    {
        let ghost f = row_of(cells_of(source), row as int);
        let mut line: Vec<char> = Vec::new();
        if col > end {
            return line;
        }
        let mut c = col;
        loop
            invariant
                col <= c <= end,
                f == row_of(cells_of(source), row as int),
                source.readable(),
                line@ + line_chars(f, c as int, end as int, line@.len() > 0) == line_chars(f, col as int, end as int, false),
            decreases end - c,
        {
            match source.cell(c, row) {
                None => {
                    assert(line_chars(f, c as int, end as int, line@.len() > 0) == Seq::<char>::empty());
                    assert(line@ + Seq::<char>::empty() =~= line@);
                    return line;
                },
                Some(cell) => {
                    let ghost before = line@;
                    if cell.character != ' ' || line.len() > 0 {
                        line.push(cell.character);
                        assert(line@ + line_chars(f, c + 1, end as int, true) =~= before + (seq![cell.character]
                            + line_chars(f, c + 1, end as int, true)));
                    }
                    if c == end {
                        assert(line_chars(f, c + 1, end as int, line@.len() > 0) == Seq::<char>::empty());
                        assert(line@ + Seq::<char>::empty() =~= line@);
                        return line;
                    }
                    c += 1;
                },
            }
        }
    }

    /// Column where the word around `col` starts, scanning left on `row`.
    pub(crate) fn scan_word_start<S: CellSource>(source: &S, row: usize, col: usize) -> (c: usize)
        requires
            source.readable(),
        ensures
            c == word_start(row_of(cells_of(source), row as int), col as int),
    {
        let ghost f = row_of(cells_of(source), row as int);
        let mut c = col;
        loop
            invariant
                c <= col,
                f == row_of(cells_of(source), row as int),
                source.readable(),
                word_start(f, c as int) == word_start(f, col as int),
            decreases c,
        {
            if c == 0 {
                return c;
            }
            let r = source.cell(c - 1, row);
            match r {
                Some(cell) => {
                    if is_alphanumeric(cell.character) || cell.character == '_' {
                        c -= 1;
                    } else {
                        return c;
                    }
                },
                None => {
                    return c;
                },
            }
        }
    }

    /// First column at or after `col` on `row` that is not a word character.
    pub(crate) fn scan_word_end<S: CellSource>(source: &S, row: usize, col: usize) -> (c: usize)
        requires
            source.readable(),
        ensures
            c == word_end(row_of(cells_of(source), row as int), col as int),
    {
        let ghost f = row_of(cells_of(source), row as int);
        let mut c = col;
        loop
            invariant
                col <= c,
                f == row_of(cells_of(source), row as int),
                source.readable(),
                word_end(f, c as int) == word_end(f, col as int),
            decreases usize::MAX - c,
        {
            match source.cell(c, row) {
                Some(cell) => {
                    if is_alphanumeric(cell.character) || cell.character == '_' {
                        if c == usize::MAX {
                            proof {
                                source.lemma_row_bounded(c as int, row as int);
                            }
                            assert(false);
                        }
                        c += 1;
                    } else {
                        return c;
                    }
                },
                None => {
                    return c;
                },
            }
        }
    }

    /// Last column of the word at `col` on `row` (see [`word_last`]).
    pub(crate) fn scan_word_last<S: CellSource>(source: &S, row: usize, col: usize) -> (c: usize)
        requires
            source.readable(),
        ensures
            c == word_last(row_of(cells_of(source), row as int), col as int),
    {
        let e = Self::scan_word_end(source, row, col);
        if e > col {
            e - 1
        } else {
            col
        }
    }

    /// Switches to word mode and widens both ends to word boundaries: the
    /// start back to the first character of its word, the end on to the last
    /// character of its word.
    pub fn expand_to_word<S: CellSource>(&mut self, source: &S)
        requires
            source.readable(),
        ensures
            final(self).spec_mode() == SelectionMode::Word,
            word_widened(*old(self), cells_of(source), *final(self)),
    {
        self.mode = SelectionMode::Word;
        if let Some((start_col, start_row, end_col, end_row)) = self.bounds() {
            let new_start_col = Self::scan_word_start(source, start_row, start_col);
            let new_end_col = Self::scan_word_last(source, end_row, end_col);
            self.start = Some((new_start_col, start_row));
            self.end = Some((new_end_col, end_row));
        }
    }

    /// Switches to line mode and widens the selection to whole rows.
    pub fn expand_to_line(&mut self)
        ensures
            final(self).spec_mode() == SelectionMode::Line,
            old(self).spec_bounds() matches Some((sc, sr, ec, er)) ==> {
                &&& final(self).anchor() == Some((0usize, sr))
                &&& final(self).head() == Some((usize::MAX, er))
            },
            old(self).spec_bounds() is None ==> final(self).anchor() == old(self).anchor() && final(self).head()
                == old(self).head(),
    {
        self.mode = SelectionMode::Line;
        if let Some((_start_col, start_row, _end_col, end_row)) = self.bounds() {
            self.start = Some((0, start_row));
            self.end = Some((usize::MAX, end_row));
        }
    }
}

} // verus!

verus! {

/// Bounds come in reading order, and both ends of an active selection lie
/// inside it.
pub proof fn lemma_bounds_ordered(s: Selection)
    requires
        s.anchor() is Some,
        s.head() is Some,
    ensures
        s.spec_bounds() matches Some((sc, sr, ec, er)) && (sr < er || (sr == er && sc <= ec)),
        s.spec_contains(s.anchor().unwrap().0 as int, s.anchor().unwrap().1 as int),
        s.spec_contains(s.head().unwrap().0 as int, s.head().unwrap().1 as int),
{
}

} // verus!
