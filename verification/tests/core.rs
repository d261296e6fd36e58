use comet::font::FontStyle;
use comet::frame_cells::frame_cells;
use comet::cell::{Attributes, Cell, Color};
use comet::cursor::Cursor;
use comet::grid::Grid;
use comet::scrollback::{Row, ScrollbackBuffer};
use comet::selection::{Selection, SelectionMode};
use comet::terminal::Terminal;
use comet::damage::{DamageRect, DamageTracker};
use comet::frame_damage::compute_damage;

#[test]
fn default_cell_is_a_blank_space() {
    let cell = Cell::default();
    assert_eq!(cell.character, ' ');
    assert_eq!(cell.foreground, Color::Default);
    assert_eq!(cell.background, Color::Default);
    assert_eq!(cell.attributes, Attributes::default());
}

#[test]
fn is_blank_detects_default_cell() {
    assert!(Cell::default().is_blank());

    let cell = Cell { character: 'A', ..Cell::default() };
    assert!(!cell.is_blank());
}

#[test]
fn cell_is_copy() {
    let a = Cell { character: 'x', ..Cell::default() };
    let b = a;
    assert_eq!(a, b);
}

#[test]
fn default_color_is_default_variant() {
    assert_eq!(Color::default(), Color::Default);
}

#[test]
fn colors_are_comparable() {
    assert_eq!(Color::White, Color::White);
    assert_ne!(Color::White, Color::Black);
    assert_eq!(Color::Rgb(1, 2, 3), Color::Rgb(1, 2, 3));
    assert_ne!(Color::Indexed(5), Color::Indexed(6));
}

#[test]
fn color_is_copy() {
    let a = Color::Rgb(10, 20, 30);
    let b = a;
    assert_eq!(a, b);
}

#[test]
fn new_cursor_starts_at_origin_and_visible() {
    let cursor = Cursor::new();
    assert_eq!(cursor.position(), (0, 0));
    assert!(cursor.is_visible());
}

#[test]
fn move_to_sets_absolute_position() {
    let mut cursor = Cursor::new();
    cursor.move_to(10, 5);
    assert_eq!(cursor.position(), (10, 5));
}

#[test]
fn move_left_and_up_saturate_at_zero() {
    let mut cursor = Cursor::new();
    cursor.move_left(3);
    cursor.move_up(3);
    assert_eq!(cursor.position(), (0, 0));
}

#[test]
fn move_right_and_down_accumulate() {
    let mut cursor = Cursor::new();
    cursor.move_right(4);
    cursor.move_down(2);
    assert_eq!(cursor.position(), (4, 2));
}

#[test]
fn show_and_hide_toggle_visibility() {
    let mut cursor = Cursor::new();
    cursor.hide_cursor();
    assert!(!cursor.is_visible());
    cursor.show();
    assert!(cursor.is_visible());
}

#[test]
fn move_right_and_down_stop_at_the_largest_position() {
    let mut cursor = Cursor::new();
    cursor.move_to(usize::MAX - 1, usize::MAX - 2);
    cursor.move_right(5);
    cursor.move_down(5);
    assert_eq!(cursor.position(), (usize::MAX, usize::MAX));
}

#[test]
fn new_grid_has_correct_dimensions_and_blank_cells() {
    let grid = Grid::new(4, 3);
    assert_eq!(grid.width(), 4);
    assert_eq!(grid.height(), 3);
    for y in 0..3 {
        for x in 0..4 {
            assert!(grid.get(x, y).unwrap().is_blank());
        }
    }
}

#[test]
fn get_out_of_bounds_returns_none() {
    let grid = Grid::new(4, 3);
    assert!(grid.get(4, 0).is_none());
    assert!(grid.get(0, 3).is_none());
}

#[test]
fn set_writes_and_get_reads_back() {
    let mut grid = Grid::new(4, 3);
    let cell = Cell { character: 'A', ..Cell::default() };
    assert!(grid.set(1, 1, cell));
    assert_eq!(grid.get(1, 1).unwrap().character, 'A');
    assert!(grid.get(0, 1).unwrap().is_blank());
}

#[test]
fn set_out_of_bounds_returns_false_and_does_not_panic() {
    let mut grid = Grid::new(2, 2);
    let cell = Cell { character: 'Z', ..Cell::default() };
    assert!(!grid.set(5, 5, cell));
}

#[test]
fn row_returns_all_cells_in_that_line() {
    let mut grid = Grid::new(3, 2);
    grid.set(0, 1, Cell { character: 'X', ..Cell::default() });
    grid.set(1, 1, Cell { character: 'Y', ..Cell::default() });
    grid.set(2, 1, Cell { character: 'Z', ..Cell::default() });

    let row = grid.row(1).unwrap();
    let chars: Vec<char> = row.iter().map(|c| c.character).collect();
    assert_eq!(chars, vec!['X', 'Y', 'Z']);
}

#[test]
fn resize_preserves_overlapping_content() {
    let mut grid = Grid::new(3, 2);
    grid.set(0, 0, Cell { character: 'A', ..Cell::default() });
    grid.set(2, 1, Cell { character: 'B', ..Cell::default() });

    grid.resize(2, 2);
    assert_eq!(grid.width(), 2);
    assert_eq!(grid.height(), 2);
    assert_eq!(grid.get(0, 0).unwrap().character, 'A');
    assert!(grid.get(1, 1).unwrap().is_blank());

    grid.resize(4, 4);
    assert_eq!(grid.get(0, 0).unwrap().character, 'A');
    assert!(grid.get(3, 3).unwrap().is_blank());
}

#[test]
fn scroll_up_discards_top_row_and_appends_blank_row() {
    let mut grid = Grid::new(2, 2);
    grid.set(0, 0, Cell { character: 'T', ..Cell::default() });
    grid.set(0, 1, Cell { character: 'B', ..Cell::default() });

    grid.scroll_up();

    assert_eq!(grid.get(0, 0).unwrap().character, 'B');
    assert!(grid.get(0, 1).unwrap().is_blank());
}

#[test]
fn scroll_up_on_empty_grid_does_not_panic() {
    let mut grid = Grid::new(0, 0);
    grid.scroll_up();
    assert_eq!(grid.width(), 0);
}

#[test]
fn grid_set_then_get_leaves_other_cells() {
    let mut grid = Grid::new(3, 3);
    grid.set(2, 2, Cell { character: 'q', ..Cell::default() });
    grid.set(0, 0, Cell { character: 'p', ..Cell::default() });
    assert_eq!(grid.get(2, 2).unwrap().character, 'q');
    assert_eq!(grid.get(0, 0).unwrap().character, 'p');
    assert!(grid.get(1, 1).unwrap().is_blank());
    grid.clear();
    assert!(grid.get(2, 2).unwrap().is_blank());
}

fn numbered_row(width: usize, i: u32) -> Row {
    let mut row = Row::new(width);
    row.cells[0] = Cell { character: char::from_digit(i, 10).unwrap_or('0'), ..Default::default() };
    row
}

#[test]
fn test_scrollback_push_and_scroll() {
    let mut sb = ScrollbackBuffer::new(100, 80);
    for i in 0..5 {
        sb.push_line(numbered_row(80, i));
    }

    assert_eq!(sb.len(), 5);
    assert_eq!(sb.viewport_offset(), 0);

    sb.scroll_up(2);
    assert_eq!(sb.viewport_offset(), 2);

    sb.scroll_down(1);
    assert_eq!(sb.viewport_offset(), 1);

    sb.scroll_to_top();
    assert_eq!(sb.viewport_offset(), 5);

    sb.scroll_to_bottom();
    assert_eq!(sb.viewport_offset(), 0);
}

#[test]
fn test_scrollback_max_size() {
    let mut sb = ScrollbackBuffer::new(3, 10);
    for i in 0..5 {
        sb.push_line(numbered_row(10, i));
    }
    assert_eq!(sb.len(), 3);
}

#[test]
fn test_scrollback_viewport_lines() {
    let mut sb = ScrollbackBuffer::new(100, 80);
    for i in 0..10 {
        sb.push_line(numbered_row(80, i));
    }
    sb.scroll_up(3);
    let line = sb.get_viewport_line(0).unwrap();
    assert_eq!(line.cells[0].character, '6');
}

#[test]
fn scrollback_keeps_the_newest_lines_when_full() {
    let mut sb = ScrollbackBuffer::new(2, 10);
    for i in 0..4 {
        sb.push_line(numbered_row(10, i));
    }
    assert_eq!(sb.len(), 2);
    assert_eq!(sb.get_line(0).unwrap().cells[0].character, '3');
    assert_eq!(sb.get_line(1).unwrap().cells[0].character, '2');
    assert!(sb.get_line(2).is_none());
}

#[test]
fn scrollback_scroll_is_limited_by_history() {
    let mut sb = ScrollbackBuffer::new(10, 4);
    for i in 0..3 {
        sb.push_line(numbered_row(4, i));
    }
    assert_eq!(sb.scroll_up(100), 3);
    assert_eq!(sb.viewport_offset(), 3);
    assert_eq!(sb.scroll_down(100), 3);
    assert!(sb.is_at_bottom());
}

#[test]
fn test_selection_basic() {
    let mut sel = Selection::new();
    assert!(!sel.is_active());

    sel.start(5, 2);
    sel.update(10, 2);
    assert!(sel.is_active());

    let bounds = sel.bounds().unwrap();
    assert_eq!(bounds, (5, 2, 10, 2));
}

#[test]
fn test_selection_bounds_reversed() {
    let mut sel = Selection::new();
    sel.start(10, 2);
    sel.update(5, 2);

    let bounds = sel.bounds().unwrap();
    assert_eq!(bounds, (5, 2, 10, 2));
}

#[test]
fn test_selection_multiline() {
    let mut sel = Selection::new();
    sel.start(5, 1);
    sel.update(10, 3);

    let bounds = sel.bounds().unwrap();
    assert_eq!(bounds, (5, 1, 10, 3));
}

#[test]
fn test_selection_contains() {
    let mut sel = Selection::new();
    sel.start(5, 2);
    sel.update(10, 4);

    assert!(sel.contains(7, 3));
    assert!(sel.contains(5, 2));
    assert!(sel.contains(10, 4));
    assert!(sel.contains(4, 3));
    assert!(sel.contains(11, 3));
    assert!(!sel.contains(7, 1));
    assert!(!sel.contains(7, 5));
}

#[test]
fn test_selection_clear() {
    let mut sel = Selection::new();
    sel.start(5, 2);
    assert!(sel.is_active());

    sel.clear();
    assert!(!sel.is_active());
    assert!(sel.bounds().is_none());
}

#[test]
fn selection_bounds_are_in_reading_order() {
    let mut sel = Selection::new();
    sel.start(3, 7);
    sel.update(9, 2);
    let (sc, sr, ec, er) = sel.bounds().unwrap();
    assert!(sr < er || (sr == er && sc <= ec));
    assert_eq!((sc, sr, ec, er), (9, 2, 3, 7));
}

fn row_text(terminal: &Terminal, y: usize) -> String {
    terminal.grid().row(y).unwrap().iter().map(|c| c.character).collect()
}

#[test]
fn new_terminal_has_blank_grid_and_cursor_at_origin() {
    let terminal = Terminal::new(80, 24);
    assert_eq!(terminal.width(), 80);
    assert_eq!(terminal.height(), 24);
    assert_eq!(terminal.cursor().position(), (0, 0));
}

#[test]
fn write_places_characters_and_advances_cursor() {
    let mut terminal = Terminal::new(80, 24);
    terminal.write("Hi");
    assert_eq!(&row_text(&terminal, 0)[0..2], "Hi");
    assert_eq!(terminal.cursor().position(), (2, 0));
}

#[test]
fn write_applies_current_pen_colors() {
    let mut terminal = Terminal::new(10, 2);
    terminal.set_foreground(Color::Red);
    terminal.write("A");
    let cell = terminal.grid().get(0, 0).unwrap();
    assert_eq!(cell.character, 'A');
    assert_eq!(cell.foreground, Color::Red);
}

#[test]
fn carriage_return_moves_cursor_to_column_zero() {
    let mut terminal = Terminal::new(10, 2);
    terminal.write("abc\r");
    assert_eq!(terminal.cursor().position(), (0, 0));
}

#[test]
fn line_feed_alone_moves_down_but_keeps_column() {
    let mut terminal = Terminal::new(10, 3);
    terminal.write("ab");
    terminal.write("\n");
    assert_eq!(terminal.cursor().position(), (2, 1));

    terminal.write("cd");
    assert_eq!(&row_text(&terminal, 1)[2..4], "cd");
    assert_eq!(terminal.cursor().position(), (4, 1));
}

#[test]
fn carriage_return_then_line_feed_starts_next_line_at_column_zero() {
    let mut terminal = Terminal::new(10, 3);
    terminal.write("ab\r\ncd");
    assert_eq!(terminal.cursor().position(), (2, 1));
    assert_eq!(&row_text(&terminal, 0)[0..2], "ab");
    assert_eq!(&row_text(&terminal, 1)[0..2], "cd");
}

#[test]
fn writing_past_last_column_wraps_to_next_line() {
    let mut terminal = Terminal::new(3, 3);
    terminal.write("abcd");
    assert_eq!(&row_text(&terminal, 0), "abc");
    assert_eq!(&row_text(&terminal, 1)[0..1], "d");
    assert_eq!(terminal.cursor().position(), (1, 1));
}

#[test]
fn writing_past_last_row_scrolls_up() {
    let mut terminal = Terminal::new(3, 2);
    terminal.write("ab\r\ncd\r\nef");
    assert_eq!(&row_text(&terminal, 0)[0..2], "cd");
    assert_eq!(&row_text(&terminal, 1)[0..2], "ef");
}

#[test]
fn resize_preserves_content_and_clamps_cursor() {
    let mut terminal = Terminal::new(5, 5);
    terminal.write("Hello");
    terminal.cursor_mut().move_to(4, 4);

    terminal.resize(3, 3);

    assert_eq!(terminal.width(), 3);
    assert_eq!(terminal.height(), 3);
    assert_eq!(&row_text(&terminal, 0), "Hel");
    assert_eq!(terminal.cursor().position(), (2, 2));
}

#[test]
fn clear_blanks_grid_and_resets_cursor() {
    let mut terminal = Terminal::new(5, 5);
    terminal.write("Hello");
    terminal.clear();

    assert_eq!(terminal.cursor().position(), (0, 0));
    assert!(terminal.grid().get(0, 0).unwrap().is_blank());
}

#[test]
fn reset_pen_restores_default_colors_and_attributes() {
    let mut terminal = Terminal::new(5, 5);
    terminal.set_foreground(Color::Red);
    terminal.set_attributes(Attributes { bold: true, ..Attributes::default() });
    terminal.reset_pen();
    terminal.write("A");

    let cell = terminal.grid().get(0, 0).unwrap();
    assert_eq!(cell.foreground, Color::Default);
    assert_eq!(cell.attributes, Attributes::default());
}

#[test]
fn scrolled_lines_go_to_the_scrollback() {
    let mut terminal = Terminal::new(3, 2);
    terminal.write("ab\r\ncd\r\nef");
    assert_eq!(terminal.scrollback().len(), 1);
    assert_eq!(terminal.scrollback().get_line(0).unwrap().cells[0].character, 'a');
    assert_eq!(terminal.get_cell_absolute(0, 0).unwrap().character, 'a');
    assert_eq!(terminal.get_cell_absolute(0, 1).unwrap().character, 'c');
    assert_eq!(terminal.get_cell_absolute(0, 2).unwrap().character, 'e');
    assert!(terminal.get_cell_absolute(0, 3).is_none());
}

#[test]
fn viewport_scroll_up_then_down_returns_to_bottom() {
    let mut terminal = Terminal::new(3, 2);
    terminal.write("a\r\nb\r\nc\r\nd");
    assert_eq!(terminal.scrollback().len(), 2);
    assert_eq!(terminal.scroll_viewport_up(5), 2);
    assert_eq!(terminal.viewport_offset(), 2);
    assert!(!terminal.is_at_bottom());
    assert_eq!(terminal.scroll_viewport_down(2), 2);
    assert!(terminal.is_at_bottom());
}

#[test]
fn visible_rows_show_history_above_the_grid() {
    let mut terminal = Terminal::new(3, 2);
    terminal.write("a\r\nb\r\nc");
    terminal.scroll_viewport_up(1);
    let rows = terminal.visible_rows();
    assert_eq!(rows.len(), 2);
    assert_eq!(rows[0].cells[0].character, 'a');
    assert_eq!(rows[1].cells[0].character, 'b');
    assert_eq!(terminal.visible_row_to_absolute(0), 0);
    assert_eq!(terminal.visible_row_to_absolute(1), 1);
    assert_eq!(terminal.absolute_to_visible_row(0), Some(0));
    assert_eq!(terminal.absolute_to_visible_row(2), None);
}

#[test]
fn selection_text_spans_lines() {
    let mut terminal = Terminal::new(6, 3);
    terminal.write("ab cd\r\nef");
    terminal.start_selection(3, 0);
    terminal.update_selection(1, 1);
    assert!(terminal.has_selection());
    assert_eq!(terminal.get_selection_text(), "cd\nef");
    terminal.clear_selection();
    assert!(!terminal.has_selection());
    assert_eq!(terminal.get_selection_text(), "");
}

#[test]
fn expand_selection_to_word_takes_the_whole_word() {
    let mut terminal = Terminal::new(12, 2);
    terminal.write("foo bar_1 z");
    terminal.start_selection(5, 0);
    terminal.expand_selection_to_word();
    assert_eq!(terminal.selection().bounds(), Some((4, 0, 8, 0)));
    assert_eq!(terminal.get_selection_text(), "bar_1");
    terminal.expand_selection_to_line();
    assert_eq!(terminal.selection().bounds(), Some((0, 0, usize::MAX, 0)));
}

#[test]
fn hyperlinks_are_recorded_by_absolute_position() {
    let mut terminal = Terminal::new(5, 2);
    terminal.set_hyperlink(Some("https://example.org".to_string()));
    terminal.write("x");
    terminal.set_hyperlink(None);
    terminal.write("y");
    assert_eq!(terminal.get_hyperlink(0, 0), Some("https://example.org"));
    assert_eq!(terminal.get_hyperlink(0, 1), None);
    assert!(terminal.grid().get(0, 0).unwrap().attributes.hyperlink);
    assert!(!terminal.grid().get(1, 0).unwrap().attributes.hyperlink);
}

#[test]
fn clipboard_and_bell_flags() {
    let mut terminal = Terminal::new(5, 2);
    terminal.set_clipboard_output(Some("copied".to_string()));
    assert_eq!(terminal.take_clipboard_output(), Some("copied".to_string()));
    assert_eq!(terminal.take_clipboard_output(), None);
    assert!(!terminal.is_bell_pending());
    terminal.mark_bell();
    assert!(terminal.is_bell_pending());
    terminal.clear_bell();
    assert!(!terminal.is_bell_pending());
}

#[test]
fn frame_damage_marks_what_changed() {
    let mut t = Terminal::new(10, 4);
    let mut dt = DamageTracker::new(10, 4);
    let mut rows = Vec::new();
    t.fill_visible_rows(&mut rows);
    let mut prev_rows: Option<Vec<Row>> = None;
    let (mut pv, mut pc, mut ps) = (0usize, (0u32, 0u32), None);

    // First frame: everything.
    compute_damage(&t, &rows, &prev_rows, &mut dt, &mut pv, &mut pc, &mut ps);
    assert!(dt.is_full());
    dt.clear();
    prev_rows = Some(rows);

    // Same frame: nothing.
    let mut rows = Vec::new();
    t.fill_visible_rows(&mut rows);
    compute_damage(&t, &rows, &prev_rows, &mut dt, &mut pv, &mut pc, &mut ps);
    assert!(dt.is_empty());
    prev_rows = Some(rows);

    // A character on row 3 and the cursor's move from (0, 0) to (1, 3).
    t.cursor_mut().move_to(0, 3);
    t.write_char('x');
    let mut rows = Vec::new();
    t.fill_visible_rows(&mut rows);
    compute_damage(&t, &rows, &prev_rows, &mut dt, &mut pv, &mut pc, &mut ps);
    assert_eq!(pc, (1, 3));
    assert_eq!(dt.take_damage(), vec![DamageRect::new(0, 3, 10, 1), DamageRect::new(0, 0, 1, 1)]);
}

#[test]
fn viewport_scrolls_to_ends_and_by_pages() {
    let mut t = Terminal::new(5, 2);
    for _ in 0..6 {
        t.write("x\r\n");
    }
    let history = t.scrollback().total_lines();
    assert!(history > 0);
    t.scroll_viewport_to_top();
    assert_eq!(t.viewport_offset(), history);
    t.scroll_viewport_to_bottom();
    assert_eq!(t.viewport_offset(), 0);
    assert!(t.is_at_bottom());
    t.scroll_viewport_pages(1);
    assert_eq!(t.viewport_offset(), 1);
    t.scroll_viewport_pages(-1);
    assert_eq!(t.viewport_offset(), 0);
}

#[test]
fn selection_in_word_mode_and_grid_cell_access() {
    let mut t = Terminal::new(20, 3);
    t.write("hello world");
    t.start_selection(1, 0);
    t.selection_mut().set_mode(SelectionMode::Word);
    t.end_selection();
    let mut sel = t.selection().clone();
    sel.expand_to_word(&t);
    assert_eq!(sel.bounds(), Some((0, 0, 4, 0)));
    let mut g = Grid::new(3, 2);
    if let Some(cell) = g.get_mut(1, 1) {
        cell.character = 'z';
    }
    assert_eq!(g.get(1, 1).map(|c| c.character), Some('z'));
    assert!(g.get_mut(3, 0).is_none());
    assert_eq!(t.scrollback_mut().total_lines(), 0);
}

#[test]
fn absolute_rows_count_from_the_oldest_history_line() {
    let mut terminal = Terminal::new(3, 2);
    terminal.write("a\r\nb\r\nc\r\nd");
    assert_eq!(terminal.scrollback().len(), 2);
    terminal.scroll_viewport_up(2);
    assert_eq!(terminal.visible_row_to_absolute(0), 0);
    assert_eq!(terminal.visible_row_to_absolute(1), 1);
    assert_eq!(terminal.get_cell_absolute(0, 0).unwrap().character, 'a');
    assert_eq!(terminal.get_cell_absolute(0, 1).unwrap().character, 'b');
    assert_eq!(terminal.get_cell_absolute(0, 2).unwrap().character, 'c');
    assert_eq!(terminal.get_cell_absolute(0, 3).unwrap().character, 'd');
    assert_eq!(terminal.absolute_to_visible_row(0), Some(0));
    assert_eq!(terminal.absolute_to_visible_row(1), Some(1));
    assert_eq!(terminal.absolute_to_visible_row(2), None);
    terminal.scroll_viewport_down(1);
    assert_eq!(terminal.visible_row_to_absolute(0), 1);
    assert_eq!(terminal.visible_row_to_absolute(1), 2);
    assert_eq!(terminal.absolute_to_visible_row(0), None);
    assert_eq!(terminal.absolute_to_visible_row(2), Some(1));
}

#[test]
fn frame_cells_lists_selected_cells_and_glyphs() {
    let mut terminal = Terminal::new(3, 2);
    terminal.write("a");
    terminal.set_attributes(Attributes { bold: true, italic: true, ..Attributes::default() });
    terminal.set_foreground(Color::Red);
    terminal.write("b");
    terminal.start_selection(1, 0);
    terminal.update_selection(0, 1);
    let rows = terminal.visible_rows();
    let (selected, glyphs) = frame_cells(&terminal, &rows, 3, true);
    assert_eq!(selected, vec![(1, 0), (2, 0), (0, 1)]);
    let bold_italic = FontStyle { weight: 700, style: comet::font::FontSlant::Italic, ..FontStyle::normal() };
    assert_eq!(glyphs, vec![(0, 0, 'a', FontStyle::normal(), Color::Default), (1, 0, 'b', bold_italic, Color::Red)]);
    let (none_selected, _) = frame_cells(&terminal, &rows, 3, false);
    assert!(none_selected.is_empty());
    let (_, narrow) = frame_cells(&terminal, &rows, 1, true);
    assert_eq!(narrow.len(), 1);
}

#[test]
fn word_expansion_stops_before_the_delimiter() {
    let mut terminal = Terminal::new(10, 2);
    terminal.write("foo.bar");
    terminal.start_selection(1, 0);
    terminal.expand_selection_to_word();
    assert_eq!(terminal.selection().bounds(), Some((0, 0, 2, 0)));
    assert_eq!(terminal.get_selection_text(), "foo");
    let mut sel = Selection::new();
    sel.start(1, 0);
    sel.expand_to_word(&terminal);
    assert_eq!(sel.mode(), SelectionMode::Word);
    assert_eq!(sel.bounds(), Some((0, 0, 2, 0)));
    // A start on the delimiter itself keeps the end there.
    let mut on_dot = Selection::new();
    on_dot.start(3, 0);
    on_dot.expand_to_word(&terminal);
    assert_eq!(on_dot.bounds(), Some((0, 0, 3, 0)));
}

#[test]
fn rows_scrolled_past_the_screen_are_not_visible() {
    let mut terminal = Terminal::new(3, 1);
    terminal.write("a\r\nb\r\nc\r\nd");
    assert_eq!(terminal.scrollback().len(), 3);
    terminal.scroll_viewport_up(3);
    assert_eq!(terminal.absolute_to_visible_row(0), Some(0));
    assert_eq!(terminal.absolute_to_visible_row(1), None);
    assert_eq!(terminal.absolute_to_visible_row(2), None);
    assert_eq!(terminal.absolute_to_visible_row(3), None);
    assert_eq!(terminal.visible_row_to_absolute(0), 0);
}
