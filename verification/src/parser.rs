//! Applies decoded ANSI/VT actions to a [`Terminal`].
//!
//! Splitting the byte stream into actions (printable characters, control
//! bytes, CSI sequences with their numeric parameters) is the job of the
//! `vte` state machine, which the application drives; this module decides
//! what each action does to the terminal.

use vstd::prelude::*;
use crate::cell::{Attributes, Cell, Color};
use crate::grid::GridView;
use crate::terminal::{Terminal, TerminalView};

verus! {

/// The value of CSI parameter `i` (its first sub-parameter), 0 when the
/// parameter or its value is missing.
pub open spec fn param_value(params: Seq<Vec<u16>>, i: int) -> int {
    if 0 <= i < params.len() && params[i]@.len() > 0 {
        params[i]@[0] as int
    } else {
        0
    }
}

/// Number of values in the parameter list, sub-parameters included (what
/// the SGR loop runs over; groups past the last read as 0).
pub open spec fn total_values(params: Seq<Vec<u16>>) -> nat
    decreases params.len(),
{
    if params.len() == 0 {
        0
    } else {
        total_values(params.drop_last()) + params.last()@.len()
    }
}

/// Colours 30-37 / 40-47: index 0-7 to a standard colour.
pub open spec fn standard_color(idx: int) -> Color {
    if idx == 0 {
        Color::Black
    } else if idx == 1 {
        Color::Red
    } else if idx == 2 {
        Color::Green
    } else if idx == 3 {
        Color::Yellow
    } else if idx == 4 {
        Color::Blue
    } else if idx == 5 {
        Color::Magenta
    } else if idx == 6 {
        Color::Cyan
    } else if idx == 7 {
        Color::White
    } else {
        Color::Default
    }
}

/// Colours 90-97 / 100-107: index 0-7 to a bright colour.
pub open spec fn bright_color(idx: int) -> Color {
    if idx == 0 {
        Color::BrightBlack
    } else if idx == 1 {
        Color::BrightRed
    } else if idx == 2 {
        Color::BrightGreen
    } else if idx == 3 {
        Color::BrightYellow
    } else if idx == 4 {
        Color::BrightBlue
    } else if idx == 5 {
        Color::BrightMagenta
    } else if idx == 6 {
        Color::BrightCyan
    } else if idx == 7 {
        Color::BrightWhite
    } else {
        Color::Default
    }
}

/// The colour selected by an extended colour sequence (`38;...` or
/// `48;...`) starting at parameter `i`: `5;n` picks palette entry `n`,
/// `2;r;g;b` a true colour (each value taken modulo 256). `None` when the
/// parameters after `i` form neither.
pub open spec fn extended_color(params: Seq<Vec<u16>>, i: int) -> Option<Color> {
    let n = total_values(params);
    if i + 1 < n {
        let sub = param_value(params, i + 1);
        if sub == 5 && i + 2 < n {
            Some(Color::Indexed((param_value(params, i + 2) % 256) as u8))
        } else if sub == 2 && i + 4 < n {
            Some(
                Color::Rgb(
                    (param_value(params, i + 2) % 256) as u8,
                    (param_value(params, i + 3) % 256) as u8,
                    (param_value(params, i + 4) % 256) as u8,
                ),
            )
        } else {
            None
        }
    } else {
        None
    }
}

/// How many parameters the SGR item at `i` consumes.
pub open spec fn sgr_width(params: Seq<Vec<u16>>, i: int) -> nat {
    let p = param_value(params, i);
    if (p == 38 || p == 48) && extended_color(params, i) is Some {
        if param_value(params, i + 1) == 5 {
            3
        } else {
            5
        }
    } else {
        1
    }
}

/// The pen (attributes, foreground, background) after the SGR item at `i`.
pub open spec fn sgr_apply(params: Seq<Vec<u16>>, i: int, pen: (Attributes, Color, Color)) -> (
    Attributes,
    Color,
    Color,
) {
    let (a, fg, bg) = pen;
    let p = param_value(params, i);
    if p == 0 {
        (Attributes::none(), Color::Default, Color::Default)
    } else if p == 1 {
        (Attributes { bold: true, ..a }, fg, bg)
    } else if p == 2 {
        (Attributes { dim: true, ..a }, fg, bg)
    } else if p == 3 {
        (Attributes { italic: true, ..a }, fg, bg)
    } else if p == 4 {
        (Attributes { underline: true, ..a }, fg, bg)
    } else if p == 7 {
        (Attributes { reverse: true, ..a }, fg, bg)
    } else if p == 9 {
        (Attributes { strikethrough: true, ..a }, fg, bg)
    } else if p == 22 {
        (Attributes { bold: false, dim: false, ..a }, fg, bg)
    } else if p == 23 {
        (Attributes { italic: false, ..a }, fg, bg)
    } else if p == 24 {
        (Attributes { underline: false, ..a }, fg, bg)
    } else if p == 27 {
        (Attributes { reverse: false, ..a }, fg, bg)
    } else if p == 29 {
        (Attributes { strikethrough: false, ..a }, fg, bg)
    } else if 30 <= p <= 37 {
        (a, standard_color(p - 30), bg)
    } else if p == 38 {
        match extended_color(params, i) {
            Some(c) => (a, c, bg),
            None => pen,
        }
    } else if p == 39 {
        (a, Color::Default, bg)
    } else if 40 <= p <= 47 {
        (a, fg, standard_color(p - 40))
    } else if p == 48 {
        match extended_color(params, i) {
            Some(c) => (a, fg, c),
            None => pen,
        }
    } else if p == 49 {
        (a, fg, Color::Default)
    } else if 90 <= p <= 97 {
        (a, bright_color(p - 90), bg)
    } else if 100 <= p <= 107 {
        (a, fg, bright_color(p - 100))
    } else {
        pen
    }
}

/// The pen after applying the SGR items from position `i` to the end.
pub open spec fn sgr_from(params: Seq<Vec<u16>>, i: int, pen: (Attributes, Color, Color)) -> (
    Attributes,
    Color,
    Color,
)
    decreases total_values(params) - i,
{
    if i < 0 || i >= total_values(params) {
        pen
    } else {
        sgr_from(params, i + sgr_width(params, i), sgr_apply(params, i, pen))
    }
}

/// The terminal after an SGR sequence: the pen is updated, nothing else.
pub open spec fn with_sgr(t: TerminalView, params: Seq<Vec<u16>>) -> TerminalView {
    let (a, fg, bg) = sgr_from(params, 0, (t.pen_attributes, t.pen_foreground, t.pen_background));
    TerminalView { pen_attributes: a, pen_foreground: fg, pen_background: bg, ..t }
}

/// Reads CSI parameter `i`: its first value, or 0 when missing.
fn param_or_zero(params: &Vec<Vec<u16>>, i: usize) -> (v: i64)
    ensures
        v == param_value(params@, i as int),
        0 <= v <= u16::MAX,
{
    if i < params.len() && params[i].len() > 0 {
        params[i][0] as i64
    } else {
        0
    }
}

/// Converts a one-based parameter to a zero-based coordinate (see
/// [`zero_based_of`]).
fn zero_based(p: i64) -> (r: usize)
    requires
        0 <= p <= u16::MAX,
    ensures
        r == zero_based_of(p as int),
{
    if p >= 1 {
        (p - 1) as usize
    } else {
        0
    }
}

/// Maps index 0-7 to a standard colour.
fn ansi_standard_fg(idx: i64) -> (c: Color)
    ensures
        c == standard_color(idx as int),
{
    match idx {
        0 => Color::Black,
        1 => Color::Red,
        2 => Color::Green,
        3 => Color::Yellow,
        4 => Color::Blue,
        5 => Color::Magenta,
        6 => Color::Cyan,
        7 => Color::White,
        _ => Color::Default,
    }
}

/// Maps index 0-7 to a bright colour (foreground 90-97).
fn ansi_bright_fg(idx: i64) -> (c: Color)
    ensures
        c == bright_color(idx as int),
{
    match idx {
        0 => Color::BrightBlack,
        1 => Color::BrightRed,
        2 => Color::BrightGreen,
        3 => Color::BrightYellow,
        4 => Color::BrightBlue,
        5 => Color::BrightMagenta,
        6 => Color::BrightCyan,
        7 => Color::BrightWhite,
        _ => Color::Default,
    }
}

/// Maps index 0-7 to a standard background colour.
fn ansi_standard_bg(idx: i64) -> (c: Color)
    ensures
        c == standard_color(idx as int),
{
    ansi_standard_fg(idx)
}

/// Maps index 0-7 to a bright background colour.
fn ansi_bright_bg(idx: i64) -> (c: Color)
    ensures
        c == bright_color(idx as int),
{
    ansi_bright_fg(idx)
}

/// Reads an extended colour (`5;n` or `2;r;g;b`) after position `i` of
/// `total` values.
fn read_extended_color(params: &Vec<Vec<u16>>, total: usize, i: usize) -> (r: Option<Color>)
    requires
        i < total,
        total == total_values(params@),
    ensures
        r == extended_color(params@, i as int),
{
    if total - i > 1 {
        let sub = param_or_zero(params, i + 1);
        if sub == 5 && total - i > 2 {
            let n = param_or_zero(params, i + 2);
            Some(Color::Indexed((n % 256) as u8))
        } else if sub == 2 && total - i > 4 {
            let r = param_or_zero(params, i + 2);
            let g = param_or_zero(params, i + 3);
            let b = param_or_zero(params, i + 4);
            Some(Color::Rgb((r % 256) as u8, (g % 256) as u8, (b % 256) as u8))
        } else {
            None
        }
    } else {
        None
    }
}

/// Counts the values of the parameter list (see [`total_values`]).
fn count_values(params: &Vec<Vec<u16>>) -> (n: usize)
    requires
        total_values(params@) <= usize::MAX,
    ensures
        n == total_values(params@),
{
    let mut n: usize = 0;
    let mut k: usize = 0;
    proof {
        lemma_total_values_prefix(params@, params@.len() as int);
        assert(params@.take(params@.len() as int) =~= params@);
        assert(params@.take(0) =~= Seq::<Vec<u16>>::empty());
    }
    while k < params.len()
        invariant
            k <= params@.len(),
            n == total_values(params@.take(k as int)),
            total_values(params@) <= usize::MAX,
            forall|j: int| 0 <= j <= params@.len() ==> total_values(#[trigger] params@.take(j)) <= total_values(params@),
        decreases params.len() - k,
    {
        assert(params@.take(k + 1).drop_last() =~= params@.take(k as int));
        assert(total_values(params@.take(k + 1)) <= total_values(params@));
        n = n + params[k].len();
        k += 1;
    }
    assert(params@.take(params@.len() as int) =~= params@);
    n
}

/// Prefixes hold no more values than the whole list.
proof fn lemma_total_values_prefix(params: Seq<Vec<u16>>, m: int)
    requires
        0 <= m <= params.len(),
    ensures
        forall|j: int| 0 <= j <= m ==> total_values(#[trigger] params.take(j)) <= total_values(params.take(m)),
    decreases m,
{
    if m > 0 {
        lemma_total_values_prefix(params, m - 1);
        assert(params.take(m).drop_last() =~= params.take(m - 1));
    }
    if m == params.len() {
        assert(params.take(m) =~= params);
    }
}

/// Applies the SGR parameters to a pen, left to right.
fn apply_sgr(params: &Vec<Vec<u16>>, pen: (Attributes, Color, Color)) -> (r: (Attributes, Color, Color))
    requires
        total_values(params@) <= usize::MAX,
    ensures
        r == sgr_from(params@, 0, pen),
{
    let (mut attrs, mut fg, mut bg) = pen;
    let total = count_values(params);
    let mut i: usize = 0;
    while i < total
        invariant
            i <= total,
            total == total_values(params@),
            sgr_from(params@, i as int, (attrs, fg, bg)) == sgr_from(params@, 0, pen),
        decreases total - i,
    {
        let ghost before = (attrs, fg, bg);
        let param = param_or_zero(params, i);
        let mut step: usize = 1;
        if param == 0 {
            attrs = Attributes::default();
            fg = Color::Default;
            bg = Color::Default;
        } else if param == 1 {
            attrs.bold = true;
        } else if param == 2 {
            attrs.dim = true;
        } else if param == 3 {
            attrs.italic = true;
        } else if param == 4 {
            attrs.underline = true;
        } else if param == 7 {
            attrs.reverse = true;
        } else if param == 9 {
            attrs.strikethrough = true;
        } else if param == 22 {
            attrs.bold = false;
            attrs.dim = false;
        } else if param == 23 {
            attrs.italic = false;
        } else if param == 24 {
            attrs.underline = false;
        } else if param == 27 {
            attrs.reverse = false;
        } else if param == 29 {
            attrs.strikethrough = false;
        } else if 30 <= param && param <= 37 {
            fg = ansi_standard_fg(param - 30);
        } else if param == 38 {
            match read_extended_color(params, total, i) {
                Some(c) => {
                    fg = c;
                    step = if param_or_zero(params, i + 1) == 5 { 3 } else { 5 };
                },
                None => {},
            }
        } else if param == 39 {
            fg = Color::Default;
        } else if 40 <= param && param <= 47 {
            bg = ansi_standard_bg(param - 40);
        } else if param == 48 {
            match read_extended_color(params, total, i) {
                Some(c) => {
                    bg = c;
                    step = if param_or_zero(params, i + 1) == 5 { 3 } else { 5 };
                },
                None => {},
            }
        } else if param == 49 {
            bg = Color::Default;
        } else if 90 <= param && param <= 97 {
            fg = ansi_bright_fg(param - 90);
        } else if 100 <= param && param <= 107 {
            bg = ansi_bright_bg(param - 100);
        }
        assert((attrs, fg, bg) == sgr_apply(params@, i as int, before));
        assert(step == sgr_width(params@, i as int));
        if total - i <= step {
            i = total;
        } else {
            i = i + step;
        }
    }
    (attrs, fg, bg)
}

/// `a - b`, or 0 when `b` is larger.
pub open spec fn sat_sub(a: int, b: int) -> nat {
    if a >= b { (a - b) as nat } else { 0 }
}

/// `a + b`, or `usize::MAX` when the sum does not fit.
pub open spec fn sat_add(a: int, b: int) -> nat {
    if a + b <= usize::MAX { (a + b) as nat } else { usize::MAX as nat }
}

/// A one-based coordinate parameter as a zero-based `usize`: `p - 1`, where
/// 0 (a missing parameter) stands for the default, the first row or column.
pub open spec fn zero_based_of(p: int) -> nat {
    if p >= 1 { (p - 1) as nat } else { 0 }
}

/// `u`'s grid is `g` with exactly the cells selected by `hit` blanked.
pub open spec fn blanked(g: GridView, u: GridView, hit: spec_fn(int, int) -> bool) -> bool {
    &&& u.width == g.width
    &&& u.height == g.height
    &&& u.wf()
    &&& forall|x: int, y: int|
        g.in_bounds(x, y) ==> #[trigger] u.cell(x, y) == (if hit(x, y) {
            Cell::spec_blank()
        } else {
            g.cell(x, y)
        })
}

/// Cells blanked by ED (erase in display) `mode` with the cursor at
/// `(cx, cy)` on a `w` x `h` screen: 0 from the cursor to the end of the
/// screen, 1 from the start of the screen through the cursor.
pub open spec fn erase_display_hits(mode: int, cx: int, cy: int, w: int, h: int, x: int, y: int) -> bool {
    if mode == 0 {
        (y == cy && cx <= x < w) || (cy < y < h && 0 <= x < w)
    } else if mode == 1 {
        (0 <= y < cy && 0 <= x < w) || (y == cy && 0 <= x <= cx)
    } else {
        false
    }
}

/// Cells blanked by EL (erase in line) `mode` with the cursor at `(cx, cy)`
/// on a screen `w` columns wide: 0 from the cursor to the end of the line,
/// 1 from the start of the line through the cursor, 2 the whole line.
pub open spec fn erase_line_hits(mode: int, cx: int, cy: int, w: int, x: int, y: int) -> bool {
    y == cy && (if mode == 0 {
        cx <= x < w
    } else if mode == 1 {
        0 <= x <= cx
    } else if mode == 2 {
        0 <= x < w
    } else {
        false
    })
}

/// `u` is `t` after ED `mode`: modes 2 and 3 clear the screen and home the
/// cursor, modes 0 and 1 blank their region, other modes change nothing.
pub open spec fn erase_display_done(t: TerminalView, u: TerminalView, mode: int) -> bool {
    if mode == 2 || mode == 3 {
        u == (TerminalView {
            grid: GridView::blank(t.grid.width, t.grid.height),
            cursor_x: 0,
            cursor_y: 0,
            ..t
        })
    } else {
        &&& u == (TerminalView { grid: u.grid, ..t })
        &&& blanked(
            t.grid,
            u.grid,
            |x: int, y: int|
                erase_display_hits(mode, t.cursor_x as int, t.cursor_y as int, t.width as int, t.height as int, x, y),
        )
    }
}

/// `u` is `t` after EL `mode`.
pub open spec fn erase_line_done(t: TerminalView, u: TerminalView, mode: int) -> bool {
    &&& u == (TerminalView { grid: u.grid, ..t })
    &&& blanked(
        t.grid,
        u.grid,
        |x: int, y: int| erase_line_hits(mode, t.cursor_x as int, t.cursor_y as int, t.width as int, x, y),
    )
}

/// The grid scrolled up `n` times.
pub open spec fn scrolled_up_times(g: GridView, n: nat) -> GridView
    decreases n,
{
    if n == 0 {
        g
    } else {
        scrolled_up_times(g, (n - 1) as nat).scrolled_up()
    }
}

/// A CSI sequence stays within machine integers on `t`.
pub open spec fn csi_ok(t: TerminalView, params: Seq<Vec<u16>>, action: char) -> bool {
    let p0 = param_value(params, 0);
    &&& total_values(params) <= usize::MAX
    &&& action == 'E' ==> t.cursor_y + p0 <= usize::MAX
    &&& action == 'J' && p0 == 0 ==> t.cursor_y < usize::MAX
    &&& action == 'J' && p0 == 1 ==> t.cursor_x < usize::MAX
}

/// `u` is `t` after the CSI sequence with final character `action`:
/// cursor motion (`A`-`H`, `f`), erasing (`J`, `K`), scrolling up (`S`) and
/// graphic rendition (`m`); any other action changes nothing.
pub open spec fn csi_done(t: TerminalView, u: TerminalView, params: Seq<Vec<u16>>, action: char) -> bool {
    let p0 = param_value(params, 0);
    let p1 = param_value(params, 1);
    let cx = t.cursor_x as int;
    let cy = t.cursor_y as int;
    if action == 'A' {
        u == t.at(cx as nat, sat_sub(cy, p0))
    } else if action == 'B' {
        u == t.at(cx as nat, sat_add(cy, p0))
    } else if action == 'C' {
        u == t.at(sat_add(cx, p0), cy as nat)
    } else if action == 'D' {
        u == t.at(sat_sub(cx, p0), cy as nat)
    } else if action == 'E' {
        u == t.at(0, (cy + p0) as nat)
    } else if action == 'F' {
        u == t.at(0, sat_sub(cy, p0))
    } else if action == 'G' {
        u == t.at(zero_based_of(p0), cy as nat)
    } else if action == 'H' || action == 'f' {
        u == t.at(zero_based_of(p1), zero_based_of(p0))
    } else if action == 'J' {
        erase_display_done(t, u, p0)
    } else if action == 'K' {
        erase_line_done(t, u, p0)
    } else if action == 'S' {
        u == (TerminalView { grid: scrolled_up_times(t.grid, p0 as nat), ..t })
    } else if action == 'm' {
        u == with_sgr(t, params)
    } else {
        u == t
    }
}

/// The character a C0 control byte is written as: line feed, carriage
/// return, tab and backspace; other control bytes (the bell among them) are
/// ignored.
pub open spec fn control_char(byte: u8) -> Option<char> {
    if byte == 0x0a {
        Some('\n')
    } else if byte == 0x0d {
        Some('\r')
    } else if byte == 0x09 {
        Some('\t')
    } else if byte == 0x08 {
        Some('\x08')
    } else {
        None
    }
}

/// Applies the actions of an ANSI byte stream to a terminal.
pub struct AnsiParser<'a> {
    pub terminal: &'a mut Terminal,
}

impl<'a> AnsiParser<'a> {
    /// The terminal being written.
    pub open spec fn current(&self) -> Terminal {
        *self.terminal
    }

    /// Creates a parser bound to a terminal.
    pub fn new(terminal: &'a mut Terminal) -> (p: Self)
        ensures
            p.current() == *old(terminal),
            *final(p.terminal) == *final(terminal),
    {
        AnsiParser { terminal }
    }

    /// Blanks columns `0..w` of rows `y0..y1`.
    fn blank_rows(&mut self, y0: usize, y1: usize, w: usize)
        requires
            old(self).current().wf(),
        ensures
            final(self).current().wf(),
            final(self).current().spec_selection() == old(self).current().spec_selection(),
            final(self).current()@ == (TerminalView { grid: final(self).current()@.grid, ..old(self).current()@ }),
            blanked(
                old(self).current()@.grid,
                final(self).current()@.grid,
                |x: int, y: int| y0 <= y < y1 && 0 <= x < w,
            ),
            *final(final(self).terminal) == *final(old(self).terminal),
    {
        proof {
            self.terminal.lemma_view();
        }
        let mut y = y0;
        while y < y1
            invariant
                self.current().wf(),
                self.current().spec_selection() == old(self).current().spec_selection(),
                self.current()@ == (TerminalView { grid: self.current()@.grid, ..old(self).current()@ }),
                y <= y1 || y == y0,
                y0 <= y,
                blanked(
                    old(self).current()@.grid,
                    self.current()@.grid,
                    |x: int, yy: int| y0 <= yy < y && 0 <= x < w,
                ),
                *final(self.terminal) == *final(old(self).terminal),
            decreases y1 - y,
        {
            let ghost before = self.current()@.grid;
            proof {
                self.terminal.lemma_view();
            }
            self.terminal.grid_mut().blank_span(y, 0, w);
            proof {
                self.terminal.lemma_view();
                let g0 = old(self).current()@.grid;
                let g1 = self.current()@.grid;
                assert forall|x: int, yy: int| g0.in_bounds(x, yy) implies #[trigger] g1.cell(x, yy) == (if y0
                    <= yy < y + 1 && 0 <= x < w {
                    Cell::spec_blank()
                } else {
                    g0.cell(x, yy)
                }) by {
                    assert(before.in_bounds(x, yy));
                    assert(before.cell(x, yy) == (if y0 <= yy < y && 0 <= x < w {
                        Cell::spec_blank()
                    } else {
                        g0.cell(x, yy)
                    }));
                }
            }
            y += 1;
        }
        proof {
            let g0 = old(self).current()@.grid;
            let g1 = self.current()@.grid;
            assert forall|x: int, yy: int| g0.in_bounds(x, yy) implies #[trigger] g1.cell(x, yy) == (if y0 <= yy
                < y1 && 0 <= x < w {
                Cell::spec_blank()
            } else {
                g0.cell(x, yy)
            }) by {}
        }
    }

    /// ED: erases part or all of the display (see [`erase_display_done`]).
    fn handle_erase_display(&mut self, mode: i64)
        requires
            old(self).current().wf(),
            mode == 0 ==> old(self).current()@.cursor_y < usize::MAX,
            mode == 1 ==> old(self).current()@.cursor_x < usize::MAX,
        ensures
            final(self).current().wf(),
            final(self).current().spec_selection() == old(self).current().spec_selection(),
            erase_display_done(old(self).current()@, final(self).current()@, mode as int),
            *final(final(self).terminal) == *final(old(self).terminal),
    {
        proof {
            self.terminal.lemma_view();
        }
        let ghost t = self.current()@;
        let (cx, cy) = self.terminal.cursor().position();
        let width = self.terminal.width();
        let height = self.terminal.height();
        if mode == 0 {
            self.terminal.grid_mut().blank_span(cy, cx, width);
            let ghost mid = self.current()@.grid;
            proof {
                self.terminal.lemma_view();
            }
            self.blank_rows(cy + 1, height, width);
            proof {
                let g1 = self.current()@.grid;
                assert forall|x: int, y: int| t.grid.in_bounds(x, y) implies #[trigger] g1.cell(x, y) == (if erase_display_hits(
                    0,
                    cx as int,
                    cy as int,
                    width as int,
                    height as int,
                    x,
                    y,
                ) {
                    Cell::spec_blank()
                } else {
                    t.grid.cell(x, y)
                }) by {
                    assert(mid.in_bounds(x, y));
                }
            }
        } else if mode == 1 {
            self.blank_rows(0, cy, width);
            let ghost mid = self.current()@.grid;
            proof {
                self.terminal.lemma_view();
            }
            self.terminal.grid_mut().blank_span(cy, 0, cx + 1);
            proof {
                self.terminal.lemma_view();
                let g1 = self.current()@.grid;
                assert forall|x: int, y: int| t.grid.in_bounds(x, y) implies #[trigger] g1.cell(x, y) == (if erase_display_hits(
                    1,
                    cx as int,
                    cy as int,
                    width as int,
                    height as int,
                    x,
                    y,
                ) {
                    Cell::spec_blank()
                } else {
                    t.grid.cell(x, y)
                }) by {
                    assert(mid.in_bounds(x, y));
                }
            }
        } else if mode == 2 || mode == 3 {
            self.terminal.clear();
        } else {
            proof {
                assert forall|x: int, y: int| t.grid.in_bounds(x, y) implies #[trigger] t.grid.cell(x, y) == (if erase_display_hits(
                    mode as int,
                    cx as int,
                    cy as int,
                    width as int,
                    height as int,
                    x,
                    y,
                ) {
                    Cell::spec_blank()
                } else {
                    t.grid.cell(x, y)
                }) by {}
            }
        }
    }

    /// EL: erases part or all of the cursor's line (see [`erase_line_done`]).
    fn handle_erase_line(&mut self, mode: i64)
        requires
            old(self).current().wf(),
        ensures
            final(self).current().wf(),
            final(self).current().spec_selection() == old(self).current().spec_selection(),
            erase_line_done(old(self).current()@, final(self).current()@, mode as int),
            *final(final(self).terminal) == *final(old(self).terminal),
    {
        proof {
            self.terminal.lemma_view();
        }
        let ghost t = self.current()@;
        let (cx, cy) = self.terminal.cursor().position();
        let width = self.terminal.width();
        if mode == 0 {
            self.terminal.grid_mut().blank_span(cy, cx, width);
        } else if mode == 1 {
            // Columns are below `usize::MAX`, so `0..=cx` is `0..cx + 1` capped there.
            let end = if cx < usize::MAX { cx + 1 } else { cx };
            proof {
                self.terminal.spec_grid().lemma_dims();
            }
            self.terminal.grid_mut().blank_span(cy, 0, end);
        } else if mode == 2 {
            self.terminal.grid_mut().blank_span(cy, 0, width);
        } else {
            proof {
                assert forall|x: int, y: int| t.grid.in_bounds(x, y) implies #[trigger] t.grid.cell(x, y) == (if erase_line_hits(
                    mode as int,
                    cx as int,
                    cy as int,
                    width as int,
                    x,
                    y,
                ) {
                    Cell::spec_blank()
                } else {
                    t.grid.cell(x, y)
                }) by {}
            }
        }
    }

    /// SGR: updates the pen from the parameters (see [`sgr_apply`]).
    fn handle_sgr(&mut self, params: &Vec<Vec<u16>>)
        requires
            old(self).current().wf(),
            total_values(params@) <= usize::MAX,
        ensures
            final(self).current().wf(),
            final(self).current().spec_selection() == old(self).current().spec_selection(),
            final(self).current()@ == with_sgr(old(self).current()@, params@),
            *final(final(self).terminal) == *final(old(self).terminal),
    {
        let attrs = self.terminal.pen_attributes();
        let fg = self.terminal.pen_foreground();
        let bg = self.terminal.pen_background();
        let (attrs, fg, bg) = apply_sgr(params, (attrs, fg, bg));
        self.terminal.set_attributes(attrs);
        self.terminal.set_foreground(fg);
        self.terminal.set_background(bg);
    }

    /// A printable character: written at the cursor with the pen.
    pub fn print(&mut self, c: char)
        requires
            old(self).current().wf(),
            old(self).current()@.write_char_ok(c),
        ensures
            final(self).current().wf(),
            final(self).current().spec_selection() == old(self).current().spec_selection(),
            final(self).current()@ == old(self).current()@.write_char(c),
            *final(final(self).terminal) == *final(old(self).terminal),
    {
        self.terminal.write_char(c);
    }

    /// A C0 control byte: line feed, carriage return, tab and backspace are
    /// written to the terminal; the others are ignored.
    pub fn execute(&mut self, byte: u8)
        requires
            old(self).current().wf(),
            control_char(byte) matches Some(c) ==> old(self).current()@.write_char_ok(c),
        ensures
            final(self).current().wf(),
            final(self).current().spec_selection() == old(self).current().spec_selection(),
            final(self).current()@ == (match control_char(byte) {
                Some(c) => old(self).current()@.write_char(c),
                None => old(self).current()@,
            }),
            *final(final(self).terminal) == *final(old(self).terminal),
    {
        if byte == 0x0a {
            self.terminal.write_char('\n');
        } else if byte == 0x0d {
            self.terminal.write_char('\r');
        } else if byte == 0x09 {
            self.terminal.write_char('\t');
        } else if byte == 0x08 {
            self.terminal.write_char('\x08');
        }
    }

    /// A CSI sequence with its parameters and final character (see
    /// [`csi_done`]).
    pub fn csi_dispatch(&mut self, params: &Vec<Vec<u16>>, _intermediates: &[u8], _ignore: bool, action: char)
        requires
            old(self).current().wf(),
            csi_ok(old(self).current()@, params@, action),
        ensures
            final(self).current().wf(),
            final(self).current().spec_selection() == old(self).current().spec_selection(),
            csi_done(old(self).current()@, final(self).current()@, params@, action),
            *final(final(self).terminal) == *final(old(self).terminal),
    {
        let (cursor_x, cursor_y) = self.terminal.cursor().position();
        let p0 = param_or_zero(params, 0);
        let p1 = param_or_zero(params, 1);
        if action == 'A' {
            self.terminal.cursor_mut().move_up(p0 as usize);
        } else if action == 'B' {
            self.terminal.cursor_mut().move_down(p0 as usize);
        } else if action == 'C' {
            self.terminal.cursor_mut().move_right(p0 as usize);
        } else if action == 'D' {
            self.terminal.cursor_mut().move_left(p0 as usize);
        } else if action == 'E' {
            let y = cursor_y + p0 as usize;
            self.terminal.cursor_mut().move_to(0, y);
        } else if action == 'F' {
            let y = cursor_y.saturating_sub(p0 as usize);
            self.terminal.cursor_mut().move_to(0, y);
        } else if action == 'G' {
            let x = zero_based(p0);
            self.terminal.cursor_mut().move_to(x, cursor_y);
        } else if action == 'H' || action == 'f' {
            let row = zero_based(p0);
            let col = zero_based(p1);
            self.terminal.cursor_mut().move_to(col, row);
        } else if action == 'J' {
            self.handle_erase_display(p0);
        } else if action == 'K' {
            self.handle_erase_line(p0);
        } else if action == 'S' {
            let n = p0 as usize;
            let ghost start = self.current()@;
            let mut k: usize = 0;
            while k < n
                invariant
                    k <= n,
                    n == param_value(params@, 0),
                    self.current().wf(),
                    self.current().spec_selection() == old(self).current().spec_selection(),
                    start == old(self).current()@,
                    self.current()@ == (TerminalView { grid: scrolled_up_times(start.grid, k as nat), ..start }),
                    *final(self.terminal) == *final(old(self).terminal),
                decreases n - k,
            {
                proof {
                    self.terminal.lemma_view();
                }
                self.terminal.grid_mut().scroll_up();
                proof {
                    self.terminal.lemma_view();
                }
                k += 1;
            }
        } else if action == 'm' {
            self.handle_sgr(params);
        }
    }
}

/// An SGR sequence holding a single item (one attribute code, or one
/// extended colour `38;5;n`, `48;2;r;g;b` and the like) changes the pen by
/// that item alone and nothing else of the terminal.
pub proof fn lemma_sgr_single_item(t: TerminalView, params: Seq<Vec<u16>>)
    requires
        total_values(params) > 0,
        sgr_width(params, 0) == total_values(params),
    ensures
        ({
            let (a, fg, bg) = sgr_apply(params, 0, (t.pen_attributes, t.pen_foreground, t.pen_background));
            with_sgr(t, params) == (TerminalView { pen_attributes: a, pen_foreground: fg, pen_background: bg, ..t })
        }),
{
    let pen = (t.pen_attributes, t.pen_foreground, t.pen_background);
    let w = sgr_width(params, 0) as int;
    assert(sgr_from(params, w, sgr_apply(params, 0, pen)) == sgr_apply(params, 0, pen));
}

/// The eight ANSI colours in their fixed order.
pub open spec fn ansi_eight() -> Seq<Color> {
    seq![Color::Black, Color::Red, Color::Green, Color::Yellow, Color::Blue, Color::Magenta, Color::Cyan, Color::White]
}

/// The eight bright ANSI colours in the same order.
pub open spec fn ansi_eight_bright() -> Seq<Color> {
    seq![
        Color::BrightBlack,
        Color::BrightRed,
        Color::BrightGreen,
        Color::BrightYellow,
        Color::BrightBlue,
        Color::BrightMagenta,
        Color::BrightCyan,
        Color::BrightWhite,
    ]
}

/// `ESC[30+i m` sets the foreground and `ESC[40+i m` the background to the
/// `i`-th ANSI colour, in the order black, red, green, yellow, blue,
/// magenta, cyan, white; `90+i` and `100+i` do the same with the bright
/// colours. Nothing else of the terminal changes.
pub proof fn lemma_sgr_ansi_colors(t: TerminalView, params: Seq<Vec<u16>>, i: int)
    requires
        total_values(params) == 1,
        0 <= i < 8,
    ensures
        param_value(params, 0) == 30 + i ==> with_sgr(t, params) == (TerminalView {
            pen_foreground: ansi_eight()[i],
            ..t
        }),
        param_value(params, 0) == 40 + i ==> with_sgr(t, params) == (TerminalView {
            pen_background: ansi_eight()[i],
            ..t
        }),
        param_value(params, 0) == 90 + i ==> with_sgr(t, params) == (TerminalView {
            pen_foreground: ansi_eight_bright()[i],
            ..t
        }),
        param_value(params, 0) == 100 + i ==> with_sgr(t, params) == (TerminalView {
            pen_background: ansi_eight_bright()[i],
            ..t
        }),
{
    let p = param_value(params, 0);
    if p == 30 + i || p == 40 + i || p == 90 + i || p == 100 + i {
        assert(sgr_width(params, 0) == 1);
        lemma_sgr_single_item(t, params);
        assert(standard_color(i) == ansi_eight()[i]);
        assert(bright_color(i) == ansi_eight_bright()[i]);
    }
}

/// `ESC[0m` (a single parameter 0) restores the default pen, whatever it was.
pub proof fn lemma_sgr_reset(t: TerminalView, params: Seq<Vec<u16>>)
    requires
        total_values(params) == 1,
        param_value(params, 0) == 0,
    ensures
        with_sgr(t, params) == (TerminalView {
            pen_attributes: Attributes::none(),
            pen_foreground: Color::Default,
            pen_background: Color::Default,
            ..t
        }),
{
    let pen = (t.pen_attributes, t.pen_foreground, t.pen_background);
    assert(sgr_width(params, 0) == 1);
    assert(sgr_from(params, 1, sgr_apply(params, 0, pen)) == sgr_apply(params, 0, pen));
}

} // verus!
