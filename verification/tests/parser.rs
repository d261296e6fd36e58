use comet::cell::{Attributes, Cell, Color};
use comet::parser::AnsiParser;
use comet::terminal::Terminal;

fn params(values: &[u16]) -> Vec<Vec<u16>> {
    values.iter().map(|v| vec![*v]).collect()
}

fn row_text(terminal: &Terminal, y: usize) -> String {
    terminal.grid().row(y).unwrap().iter().map(|c| c.character).collect()
}

#[test]
fn print_and_control_bytes_write_to_the_terminal() {
    let mut terminal = Terminal::new(6, 3);
    {
        let mut parser = AnsiParser::new(&mut terminal);
        parser.print('h');
        parser.print('i');
        parser.execute(b'\r');
        parser.execute(b'\n');
        parser.print('x');
        parser.execute(0x07);
    }
    assert_eq!(&row_text(&terminal, 0)[0..2], "hi");
    assert_eq!(terminal.grid().get(0, 1).unwrap().character, 'x');
    assert_eq!(terminal.cursor().position(), (1, 1));
}

#[test]
fn sgr_sets_and_resets_the_pen() {
    let mut terminal = Terminal::new(6, 3);
    {
        let mut parser = AnsiParser::new(&mut terminal);
        parser.csi_dispatch(&params(&[1, 31, 44]), &[], false, 'm');
    }
    assert_eq!(terminal.pen_foreground(), Color::Red);
    assert_eq!(terminal.pen_background(), Color::Blue);
    assert!(terminal.pen_attributes().bold);
    {
        let mut parser = AnsiParser::new(&mut terminal);
        parser.csi_dispatch(&params(&[0]), &[], false, 'm');
    }
    assert_eq!(terminal.pen_foreground(), Color::Default);
    assert_eq!(terminal.pen_background(), Color::Default);
    assert_eq!(terminal.pen_attributes(), Attributes::default());
}

#[test]
fn sgr_extended_and_bright_colors() {
    let mut terminal = Terminal::new(6, 3);
    {
        let mut parser = AnsiParser::new(&mut terminal);
        parser.csi_dispatch(&params(&[38, 5, 300, 48, 2, 1, 2, 3]), &[], false, 'm');
    }
    assert_eq!(terminal.pen_foreground(), Color::Indexed(44));
    assert_eq!(terminal.pen_background(), Color::Rgb(1, 2, 3));
    {
        let mut parser = AnsiParser::new(&mut terminal);
        parser.csi_dispatch(&params(&[92, 107, 22, 39]), &[], false, 'm');
    }
    assert_eq!(terminal.pen_foreground(), Color::Default);
    assert_eq!(terminal.pen_background(), Color::BrightWhite);
    {
        let mut parser = AnsiParser::new(&mut terminal);
        parser.csi_dispatch(&params(&[38, 7]), &[], false, 'm');
    }
    assert_eq!(terminal.pen_foreground(), Color::Default);
}

#[test]
fn cursor_movement_sequences() {
    let mut terminal = Terminal::new(10, 10);
    {
        let mut parser = AnsiParser::new(&mut terminal);
        parser.csi_dispatch(&params(&[4]), &[], false, 'B');
        parser.csi_dispatch(&params(&[3]), &[], false, 'C');
        parser.csi_dispatch(&params(&[1]), &[], false, 'A');
        parser.csi_dispatch(&params(&[5]), &[], false, 'D');
    }
    assert_eq!(terminal.cursor().position(), (0, 3));
    {
        let mut parser = AnsiParser::new(&mut terminal);
        parser.csi_dispatch(&params(&[2]), &[], false, 'E');
    }
    assert_eq!(terminal.cursor().position(), (0, 5));
    {
        let mut parser = AnsiParser::new(&mut terminal);
        parser.csi_dispatch(&params(&[7]), &[], false, 'G');
    }
    assert_eq!(terminal.cursor().position(), (6, 5));
    {
        let mut parser = AnsiParser::new(&mut terminal);
        parser.csi_dispatch(&params(&[9]), &[], false, 'F');
    }
    assert_eq!(terminal.cursor().position(), (0, 0));
    {
        let mut parser = AnsiParser::new(&mut terminal);
        parser.csi_dispatch(&params(&[2, 4]), &[], false, 'H');
    }
    assert_eq!(terminal.cursor().position(), (3, 1));
    {
        let mut parser = AnsiParser::new(&mut terminal);
        parser.csi_dispatch(&params(&[5, 7]), &[], false, 'f');
    }
    assert_eq!(terminal.cursor().position(), (6, 4));
    {
        let mut parser = AnsiParser::new(&mut terminal);
        parser.csi_dispatch(&Vec::new(), &[], false, 'H');
    }
    assert_eq!(terminal.cursor().position(), (0, 0));
}

#[test]
fn cursor_absolute_without_parameter_is_the_first_column() {
    let mut terminal = Terminal::new(10, 10);
    {
        let mut parser = AnsiParser::new(&mut terminal);
        parser.csi_dispatch(&Vec::new(), &[], false, 'G');
    }
    assert_eq!(terminal.cursor().position(), (0, 0));
}

#[test]
fn erase_in_line_and_display() {
    let mut terminal = Terminal::new(4, 3);
    terminal.write("abcd");
    terminal.write("efgh");
    terminal.write("ijk");
    terminal.cursor_mut().move_to(1, 1);
    {
        let mut parser = AnsiParser::new(&mut terminal);
        parser.csi_dispatch(&params(&[0]), &[], false, 'K');
    }
    assert_eq!(row_text(&terminal, 1), "e   ");
    assert_eq!(row_text(&terminal, 0), "abcd");
    {
        let mut parser = AnsiParser::new(&mut terminal);
        parser.csi_dispatch(&params(&[1]), &[], false, 'J');
    }
    assert_eq!(row_text(&terminal, 0), "    ");
    assert_eq!(row_text(&terminal, 1), "    ");
    assert_eq!(row_text(&terminal, 2), "ijk ");
    {
        let mut parser = AnsiParser::new(&mut terminal);
        parser.csi_dispatch(&params(&[2]), &[], false, 'J');
    }
    assert_eq!(row_text(&terminal, 2), "    ");
    assert_eq!(terminal.cursor().position(), (0, 0));
}

#[test]
fn erase_display_from_cursor_to_end() {
    let mut terminal = Terminal::new(3, 3);
    terminal.write("abcdefgh");
    terminal.cursor_mut().move_to(2, 0);
    {
        let mut parser = AnsiParser::new(&mut terminal);
        parser.csi_dispatch(&params(&[0]), &[], false, 'J');
    }
    assert_eq!(row_text(&terminal, 0), "ab ");
    assert_eq!(row_text(&terminal, 1), "   ");
    assert_eq!(row_text(&terminal, 2), "   ");
    assert_eq!(terminal.cursor().position(), (2, 0));
}

#[test]
fn scroll_up_sequence_moves_rows() {
    let mut terminal = Terminal::new(2, 3);
    terminal.write("ab");
    terminal.write("cd");
    terminal.write("e");
    {
        let mut parser = AnsiParser::new(&mut terminal);
        parser.csi_dispatch(&params(&[2]), &[], false, 'S');
    }
    assert_eq!(row_text(&terminal, 0), "e ");
    assert_eq!(row_text(&terminal, 1), "  ");
    assert_eq!(terminal.scrollback().len(), 0);
}

#[test]
fn unknown_sequences_change_nothing() {
    let mut terminal = Terminal::new(4, 2);
    terminal.write("ab");
    {
        let mut parser = AnsiParser::new(&mut terminal);
        parser.csi_dispatch(&params(&[5]), &[], false, 'n');
        parser.csi_dispatch(&params(&[1]), &[], false, 'T');
        parser.csi_dispatch(&params(&[7]), &[b'?'], false, 'h');
    }
    assert_eq!(row_text(&terminal, 0), "ab  ");
    assert_eq!(terminal.cursor().position(), (2, 0));
}

#[test]
fn tab_and_backspace_are_drawn_as_characters() {
    let mut terminal = Terminal::new(4, 2);
    {
        let mut parser = AnsiParser::new(&mut terminal);
        parser.execute(b'\t');
        parser.execute(0x08);
    }
    assert_eq!(terminal.grid().get(0, 0).unwrap().character, '\t');
    assert_eq!(terminal.grid().get(1, 0).unwrap().character, '\x08');
    assert_eq!(terminal.cursor().position(), (2, 0));
    let blank = Cell::default();
    assert_eq!(*terminal.grid().get(2, 0).unwrap(), blank);
}

#[test]
fn sgr_subparameters_count_as_values() {
    let mut terminal = Terminal::new(6, 3);
    {
        let mut parser = AnsiParser::new(&mut terminal);
        parser.csi_dispatch(&params(&[31, 1]), &[], false, 'm');
        // `38:5:1` arrives as one group of three values: the loop runs over
        // three positions, and the two past the last group read as 0.
        parser.csi_dispatch(&vec![vec![38, 5, 1]], &[], false, 'm');
    }
    assert_eq!(terminal.pen_foreground(), Color::Default);
    assert_eq!(terminal.pen_attributes(), Attributes::default());
}
