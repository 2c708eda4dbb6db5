use vga_console::vga::screen::{
    is_ascii_graphic, is_ascii_whitespace, Cell, Cursor, Screen, HEIGHT, HISTORY_CAPACITY, WIDTH,
};
use vga_console::vga::Color;

fn row_bytes(screen: &Screen, row: usize) -> Vec<u8> {
    (0..WIDTH).map(|column| screen.get_cell(row, column).0).collect()
}

fn grid_cells(screen: &Screen) -> Vec<Cell> {
    let mut cells = Vec::new();
    for row in 0..HEIGHT {
        for column in 0..WIDTH {
            cells.push(screen.get_cell(row, column));
        }
    }
    cells
}

fn padded(text: &[u8]) -> Vec<u8> {
    let mut row = text.to_vec();
    row.resize(WIDTH, 0);
    row
}

fn input_screen() -> Screen {
    let mut screen = Screen::new(0xb8000);
    screen.set_input_mode(true);
    screen
}

/// Fills the screen in normal mode with `rows` full rows, row `i` made of
/// the letter `A + i % 26`.
fn write_full_rows(screen: &mut Screen, rows: usize) {
    for i in 0..rows {
        let line = vec![b'A' + (i % 26) as u8; WIDTH];
        screen.write_bytes(&line);
    }
}

#[test]
fn new_screen_is_empty() {
    let screen = Screen::new(0xb8000);
    assert_eq!(screen.get_address(), 0xb8000);
    assert_eq!(screen.get_cursor(), Cursor { row: 0, column: 0 });
    assert_eq!(screen.get_color(), Color::Black);
    assert!(!screen.get_input_mode());
    assert_eq!(screen.get_history().get_length(), 0);
    assert!(grid_cells(&screen).iter().all(|c| *c == Cell(0, Color::Black)));
}

#[test]
fn graphic_and_whitespace_bytes() {
    assert!(is_ascii_graphic(b'!'));
    assert!(is_ascii_graphic(b'~'));
    assert!(!is_ascii_graphic(b' '));
    assert!(!is_ascii_graphic(0x7f));
    assert!(!is_ascii_graphic(0));
    for c in 0..=255u8 {
        assert_eq!(is_ascii_graphic(c), c.is_ascii_graphic());
        assert_eq!(is_ascii_whitespace(c), c.is_ascii_whitespace());
    }
}

#[test]
fn plain_writes_leave_cursor_at_length() {
    for n in [0usize, 1, 79, 80, 81, 160, 1000, 1999] {
        let mut screen = Screen::new(0);
        for i in 0..n {
            screen.write_byte(b'a' + (i % 26) as u8);
        }
        assert_eq!(screen.get_cursor(), Cursor { row: n / WIDTH, column: n % WIDTH });
        assert_eq!(screen.get_history().get_length(), 0);
        let cells = grid_cells(&screen);
        for (i, cell) in cells.iter().enumerate() {
            if i < n {
                assert_eq!(*cell, Cell(b'a' + (i % 26) as u8, Color::Black));
            } else {
                assert_eq!(*cell, Cell(0, Color::Black));
            }
        }
    }
}

#[test]
fn plain_stream_leaves_cursor_at_length() {
    let mut screen = Screen::new(0);
    let text = "x".repeat(203);
    assert_eq!(screen.write_str(&text), Ok(()));
    assert_eq!(screen.get_cursor(), Cursor { row: 2, column: 43 });
    assert_eq!(screen.get_history().get_length(), 0);
}

#[test]
fn write_ab_backspace_c_in_input_mode() {
    let mut screen = input_screen();
    assert_eq!(screen.write_str("AB"), Ok(()));
    assert_eq!(screen.write_str("\x08"), Ok(()));
    assert_eq!(screen.write_str("C"), Ok(()));
    assert_eq!(row_bytes(&screen, 0), padded(b"AC"));
    assert_eq!(screen.get_cursor(), Cursor { row: 0, column: 2 });
    for row in 1..HEIGHT {
        assert_eq!(row_bytes(&screen, row), padded(b""));
    }
}

#[test]
fn write_ab_backspace_c_in_one_stream() {
    let mut screen = input_screen();
    assert_eq!(screen.write_str("AB\x08C"), Ok(()));
    assert_eq!(row_bytes(&screen, 0), padded(b"AC"));
    assert_eq!(screen.get_cursor(), Cursor { row: 0, column: 2 });
}

#[test]
fn full_row_wraps_without_shifting() {
    let mut screen = Screen::new(0);
    let line = vec![b'q'; WIDTH];
    screen.write_bytes(&line);
    assert_eq!(screen.get_cursor(), Cursor { row: 1, column: 0 });
    assert_eq!(row_bytes(&screen, 0), line);
    screen.write_bytes(b"z");
    assert_eq!(row_bytes(&screen, 0), line);
    assert_eq!(row_bytes(&screen, 1), padded(b"z"));
    assert_eq!(screen.get_cursor(), Cursor { row: 1, column: 1 });
    assert_eq!(screen.get_history().get_length(), 0);
}

#[test]
fn cursor_highlight_moves_once_per_stream() {
    let mut screen = Screen::new(0);
    screen.set_color(Color::Green);
    screen.write_bytes(b"hi");
    assert_eq!(screen.get_cell(0, 0), Cell(b'h', Color::Green));
    assert_eq!(screen.get_cell(0, 1), Cell(b'i', Color::Green));
    assert_eq!(screen.get_cell(0, 2), Cell(0, Color::Black_on_White));
    screen.write_bytes(b"!");
    assert_eq!(screen.get_cell(0, 2), Cell(b'!', Color::Green));
    assert_eq!(screen.get_cell(0, 3), Cell(0, Color::Black_on_White));
    let highlighted = grid_cells(&screen).iter().filter(|c| c.1 == Color::Black_on_White).count();
    assert_eq!(highlighted, 1);
}

#[test]
fn other_bytes_become_placeholder() {
    let mut screen = Screen::new(0);
    screen.write_bytes(&[0x01, 0x80, 0xff, b'\t', b' ', 0x08]);
    assert_eq!(&row_bytes(&screen, 0)[..7], &[0xfe, 0xfe, 0xfe, b'\t', b' ', 0xfe, 0]);
    let mut editing = input_screen();
    editing.write_bytes(&[0x01, b'\t', b'\r', 0x0c, b' ', 0x80]);
    assert_eq!(&row_bytes(&editing, 0)[..7], &[0xfe, b' ', b' ', b' ', b' ', 0xfe, 0]);
}

#[test]
fn line_feed_breaks_line_in_both_modes() {
    let mut screen = Screen::new(0);
    screen.write_bytes(b"ab\ncd");
    assert_eq!(row_bytes(&screen, 0), padded(b"ab"));
    assert_eq!(row_bytes(&screen, 1), padded(b"cd"));
    assert_eq!(screen.get_cursor(), Cursor { row: 1, column: 2 });
    let mut editing = input_screen();
    editing.write_bytes(b"ab\ncd");
    assert_eq!(row_bytes(&editing, 1), padded(b"cd"));
}

#[test]
fn insertion_pushes_text_right() {
    let mut screen = input_screen();
    screen.write_bytes(b"abcd");
    screen.write_bytes(&[0x1b, 0x1b]);
    assert_eq!(screen.get_cursor(), Cursor { row: 0, column: 2 });
    screen.write_bytes(b"XY");
    assert_eq!(row_bytes(&screen, 0), padded(b"abXYcd"));
    assert_eq!(screen.get_cursor(), Cursor { row: 0, column: 4 });
}

#[test]
fn insertion_cascades_into_next_row() {
    let mut screen = input_screen();
    let line = vec![b'a'; WIDTH];
    screen.write_bytes(&line);
    screen.write_bytes(b"bc");
    // back to the origin
    screen.write_bytes(&[0x18]);
    for _ in 0..WIDTH - 1 {
        screen.write_bytes(&[0x1b]);
    }
    assert_eq!(screen.get_cursor(), Cursor { row: 0, column: 0 });
    screen.write_bytes(b"Z");
    let mut first = vec![b'a'; WIDTH];
    first[0] = b'Z';
    assert_eq!(row_bytes(&screen, 0), first);
    assert_eq!(row_bytes(&screen, 1), padded(b"abc"));
    assert_eq!(screen.get_history().get_length(), 0);
}

#[test]
fn shift_right_then_left_restores_grid() {
    let mut screen = input_screen();
    let line = vec![b'a'; WIDTH];
    screen.write_bytes(&line);
    screen.write_bytes(&line);
    screen.write_bytes(b"tail");
    screen.write_bytes(b"\nnext line");
    // take the highlight off, so that every empty cell is the empty cell
    screen.write_bytes(b"");
    let cursor = screen.get_cursor();
    let shown = screen.get_cell(cursor.row, cursor.column);
    assert_eq!(shown, Cell(0, Color::Black_on_White));
    for (row, column) in [(0usize, 0usize), (0, 5), (0, 79), (1, 0), (1, 40), (2, 0), (2, 3), (5, 7)] {
        let before = grid_cells(&screen);
        screen.shift_rightward(row, column);
        assert_eq!(screen.get_history().get_length(), 0);
        screen.shift_leftward(row, column);
        assert_eq!(grid_cells(&screen), before, "at {} {}", row, column);
    }
}

#[test]
fn shift_right_then_left_joins_a_row_that_became_full() {
    // a row with one empty cell at its end, and text below it
    let mut screen = input_screen();
    let line = vec![b'a'; WIDTH - 1];
    screen.write_bytes(&line);
    screen.write_bytes(b"\nbelow");
    let before = grid_cells(&screen);
    screen.shift_rightward(0, 0);
    screen.shift_leftward(0, 0);
    let after = grid_cells(&screen);
    assert_ne!(after, before);
    assert_eq!(screen.get_cell(0, WIDTH - 1).0, b'b');
    assert_eq!(row_bytes(&screen, 1), padded(b"elow"));
}

#[test]
fn cursor_left_at_origin_is_noop() {
    let mut screen = input_screen();
    screen.write_bytes(b"abc");
    for _ in 0..3 {
        screen.move_cursor_left();
    }
    assert_eq!(screen.get_cursor(), Cursor { row: 0, column: 0 });
    let before = grid_cells(&screen);
    screen.move_cursor_left();
    assert_eq!(screen.get_cursor(), Cursor { row: 0, column: 0 });
    assert_eq!(grid_cells(&screen), before);
    assert_eq!(screen.get_history().get_length(), 0);
}

#[test]
fn cursor_right_at_end_is_noop() {
    let mut screen = input_screen();
    write_full_rows(&mut screen, HEIGHT - 1);
    let line = vec![b'z'; WIDTH - 1];
    screen.write_bytes(&line);
    assert_eq!(screen.get_cursor(), Cursor { row: HEIGHT - 1, column: WIDTH - 1 });
    let before = grid_cells(&screen);
    screen.move_cursor_right();
    assert_eq!(screen.get_cursor(), Cursor { row: HEIGHT - 1, column: WIDTH - 1 });
    assert_eq!(grid_cells(&screen), before);
    assert_eq!(screen.get_history().get_length(), 0);
}

#[test]
fn backspace_at_origin_is_noop() {
    let mut screen = input_screen();
    screen.write_bytes(b"abc");
    screen.write_bytes(&[0x1b, 0x1b, 0x1b]);
    let before = grid_cells(&screen);
    screen.write_bytes(&[0x08]);
    assert_eq!(grid_cells(&screen), before);
    assert_eq!(screen.get_cursor(), Cursor { row: 0, column: 0 });
}

#[test]
fn delete_takes_out_cell_under_cursor() {
    let mut screen = input_screen();
    screen.write_bytes(b"abc");
    screen.write_bytes(&[0x1b, 0x1b, 0x7f]);
    assert_eq!(row_bytes(&screen, 0), padded(b"ac"));
    assert_eq!(screen.get_cursor(), Cursor { row: 0, column: 1 });
}

#[test]
fn delete_at_bottom_right_is_noop() {
    let mut screen = input_screen();
    write_full_rows(&mut screen, HEIGHT - 1);
    let line = vec![b'z'; WIDTH - 1];
    screen.write_bytes(&line);
    let before = grid_cells(&screen);
    screen.write_bytes(&[0x7f]);
    assert_eq!(grid_cells(&screen), before);
    assert_eq!(screen.get_cursor(), Cursor { row: HEIGHT - 1, column: WIDTH - 1 });
}

#[test]
fn delete_pulls_text_up_from_next_row() {
    let mut screen = input_screen();
    let line = vec![b'a'; WIDTH];
    screen.write_bytes(&line);
    screen.write_bytes(b"bcd");
    screen.shift_leftward(0, 78);
    let mut first = vec![b'a'; WIDTH];
    first[WIDTH - 1] = b'b';
    assert_eq!(row_bytes(&screen, 0), first);
    assert_eq!(row_bytes(&screen, 1), padded(b"cd"));
}

#[test]
fn writing_past_the_bottom_scrolls_into_history() {
    let mut screen = Screen::new(0);
    write_full_rows(&mut screen, HEIGHT);
    assert_eq!(screen.get_cursor(), Cursor { row: HEIGHT - 1, column: 0 });
    assert_eq!(screen.get_history().get_length(), 1);
    assert_eq!(screen.get_history().get_head_length(), 1);
    assert_eq!(screen.get_history().get_tail_length(), 0);
    assert_eq!(screen.get_history().get_cell(0, 0).0, b'A');
    assert_eq!(screen.get_cell(0, 0).0, b'B');
    assert_eq!(row_bytes(&screen, HEIGHT - 1), padded(b""));
}

#[test]
fn scrolling_up_and_down_moves_through_history() {
    let mut screen = input_screen();
    write_full_rows(&mut screen, HEIGHT + 2);
    assert_eq!(screen.get_history().get_head_length(), 3);
    let before = grid_cells(&screen);
    // page up: the newest row above comes back
    screen.write_bytes(&[0x1e]);
    assert_eq!(screen.get_history().get_head_length(), 2);
    assert_eq!(screen.get_history().get_tail_length(), 1);
    assert_eq!(screen.get_cell(0, 0).0, b'C');
    assert_eq!(screen.get_cell(1, 0).0, b'D');
    // page down: back where it was
    screen.write_bytes(&[0x1f]);
    assert_eq!(screen.get_history().get_head_length(), 3);
    assert_eq!(screen.get_history().get_tail_length(), 0);
    let after: Vec<u8> = grid_cells(&screen).iter().map(|c| c.0).collect();
    let expected: Vec<u8> = before.iter().map(|c| c.0).collect();
    assert_eq!(after, expected);
}

#[test]
fn scrolling_without_history_is_noop() {
    let mut screen = input_screen();
    screen.write_bytes(b"abc");
    let before = grid_cells(&screen);
    let cursor = screen.get_cursor();
    screen.scroll_up();
    assert_eq!(grid_cells(&screen), before);
    assert_eq!(screen.get_cursor(), cursor);
    screen.scroll_down();
    assert_eq!(grid_cells(&screen), before);
    assert_eq!(screen.get_cursor(), cursor);
    assert_eq!(screen.get_history().get_length(), 0);
}

#[test]
fn insert_at_full_grid_and_full_history_evicts_oldest() {
    let mut screen = Screen::new(0);
    write_full_rows(&mut screen, HISTORY_CAPACITY + HEIGHT - 1);
    let line = vec![b'z'; WIDTH - 1];
    screen.write_bytes(&line);
    screen.set_input_mode(true);
    assert_eq!(screen.get_history().get_length(), HISTORY_CAPACITY);
    assert_eq!(screen.get_history().get_head_length(), HISTORY_CAPACITY);
    assert_eq!(screen.get_cursor(), Cursor { row: HEIGHT - 1, column: WIDTH - 1 });
    // to the origin without scrolling
    for _ in 0..HEIGHT - 1 {
        screen.move_cursor_up();
    }
    for _ in 0..WIDTH - 1 {
        screen.move_cursor_left();
    }
    assert_eq!(screen.get_cursor(), Cursor { row: 0, column: 0 });
    assert_eq!(screen.get_history().get_head_length(), HISTORY_CAPACITY);
    // the first insertion fills the last cell of the grid
    screen.write_byte(b'1');
    assert!(grid_cells(&screen).iter().all(|c| c.0 != 0));
    assert_eq!(screen.get_history().get_length(), HISTORY_CAPACITY);
    assert_eq!(screen.get_history().get_cell(0, 0).0, b'A');
    screen.move_cursor_left();
    assert_eq!(screen.get_cursor(), Cursor { row: 0, column: 0 });
    // the second pushes a cell out of the grid, at the cost of the oldest row
    screen.write_byte(b'2');
    assert_eq!(screen.get_history().get_length(), HISTORY_CAPACITY);
    assert_eq!(screen.get_history().get_head_length(), HISTORY_CAPACITY - 1);
    assert_eq!(screen.get_history().get_tail_length(), 1);
    assert_eq!(screen.get_history().get_cell(0, 0).0, b'B');
    let newest = HISTORY_CAPACITY - 1;
    assert_eq!(screen.get_history().get_cell(newest, 0).0, b'z');
    assert_eq!(screen.get_history().get_cell(newest, 1).0, 0);
    assert!(grid_cells(&screen).iter().all(|c| c.0 != 0));
    assert_eq!(screen.get_cell(0, 0).0, b'2');
    assert_eq!(screen.get_cell(0, 1).0, b'1');
}

#[test]
fn rainbow_cycles_through_eight_colors() {
    let mut screen = Screen::new(0);
    let mut seen = vec![screen.get_color()];
    for _ in 0..8 {
        screen.set_next_rainbow_color();
        seen.push(screen.get_color());
    }
    assert_eq!(
        seen,
        vec![
            Color::Black,
            Color::White,
            Color::Red,
            Color::Yellow,
            Color::Green,
            Color::Cyan,
            Color::Blue,
            Color::Magenta,
            Color::Black,
        ]
    );
    screen.set_color(Color::Black_on_White);
    screen.set_next_rainbow_color();
    assert_eq!(screen.get_color(), Color::Black_on_White);
}

#[test]
fn banner_is_written_in_rainbow_colors() {
    let mut screen = Screen::new(0);
    screen.print_rainbow_42();
    assert_eq!(row_bytes(&screen, 0), padded(b""));
    assert_eq!(row_bytes(&screen, 1), padded(b"        :::      ::::::::"));
    assert_eq!(row_bytes(&screen, 7), padded(b"    ###   ########.fr"));
    assert_eq!(screen.get_cell(1, 8), Cell(b':', Color::White));
    assert_eq!(screen.get_cell(2, 6), Cell(b':', Color::Red));
    assert_eq!(screen.get_cell(7, 4), Cell(b'#', Color::Magenta));
    assert_eq!(screen.get_cursor(), Cursor { row: 8, column: 0 });
    assert_eq!(screen.get_color(), Color::Black);
}

#[test]
fn clear_empties_the_grid() {
    let mut screen = Screen::new(0);
    screen.write_bytes(b"some text\nmore");
    screen.clear();
    assert!(grid_cells(&screen).iter().all(|c| *c == Cell(0, Color::Black)));
    assert_eq!(screen.get_cursor(), Cursor { row: 1, column: 4 });
}

#[test]
fn cursor_moves_align_left() {
    let mut screen = input_screen();
    screen.write_bytes(b"long line here\nab");
    screen.write_bytes(&[0x18]);
    assert_eq!(screen.get_cursor(), Cursor { row: 0, column: 2 });
    screen.write_bytes(&[0x1a, 0x1a]);
    assert_eq!(screen.get_cursor(), Cursor { row: 0, column: 4 });
    screen.write_bytes(&[0x19]);
    assert_eq!(screen.get_cursor(), Cursor { row: 1, column: 2 });
    // right on an empty cell goes to the start of the next row
    screen.write_bytes(&[0x1a]);
    assert_eq!(screen.get_cursor(), Cursor { row: 2, column: 0 });
    // left from the first column goes to the end of the text above
    screen.write_bytes(&[0x1b]);
    assert_eq!(screen.get_cursor(), Cursor { row: 1, column: 2 });
}

fn assert_tidy(screen: &Screen) {
    let cursor = screen.get_cursor();
    assert!(cursor.row < HEIGHT && cursor.column < WIDTH);
    for column in 0..cursor.column {
        assert_ne!(screen.get_cell(cursor.row, column).0, 0, "hole before the cursor");
    }
    for row in 0..HEIGHT {
        let bytes = row_bytes(screen, row);
        let length = bytes.iter().position(|b| *b == 0).unwrap_or(WIDTH);
        assert!(bytes[length..].iter().all(|b| *b == 0), "hole in row {}", row);
    }
    let history = screen.get_history();
    assert!(history.get_length() <= HISTORY_CAPACITY);
    assert_eq!(history.get_head_length() + history.get_tail_length(), history.get_length());
    for k in 0..history.get_length() {
        let bytes: Vec<u8> = (0..WIDTH).map(|c| history.get_cell(k, c).0).collect();
        let length = bytes.iter().position(|b| *b == 0).unwrap_or(WIDTH);
        assert!(bytes[length..].iter().all(|b| *b == 0), "hole in history row {}", k);
    }
}

#[test]
fn editing_leaves_no_holes() {
    let mut screen = input_screen();
    let mut state: u32 = 0x2545_f491;
    let controls = [0x08u8, 0x7f, 0x18, 0x19, 0x1a, 0x1b, 0x1e, 0x1f, b'\n', b' ', 0x00, 0x9c];
    for _ in 0..6000 {
        state = state.wrapping_mul(1_664_525).wrapping_add(1_013_904_223);
        let pick = (state >> 16) as usize;
        let byte = if pick % 4 == 0 {
            controls[(pick / 4) % controls.len()]
        } else {
            b'a' + ((pick / 4) % 26) as u8
        };
        screen.write_bytes(&[byte]);
        assert_tidy(&screen);
    }
    assert_eq!(screen.get_history().get_length(), HISTORY_CAPACITY);
}

#[test]
fn long_lines_leave_no_holes() {
    let mut screen = input_screen();
    for i in 0..(HEIGHT + HISTORY_CAPACITY + 5) {
        let line = vec![b'0' + (i % 10) as u8; WIDTH + 3];
        screen.write_bytes(&line);
        assert_tidy(&screen);
    }
    for _ in 0..(HEIGHT * WIDTH) {
        screen.write_bytes(&[0x1b, b'x', 0x1b]);
    }
    assert_tidy(&screen);
    for _ in 0..200 {
        screen.write_bytes(&[0x08]);
        assert_tidy(&screen);
    }
}

#[test]
fn colors_have_attribute_bytes() {
    let bytes: Vec<u8> = [
        Color::Black,
        Color::Blue,
        Color::Green,
        Color::Cyan,
        Color::Red,
        Color::Magenta,
        Color::Yellow,
        Color::White,
        Color::Black_on_White,
    ]
    .iter()
    .map(|c| c.attribute())
    .collect();
    assert_eq!(bytes, vec![0, 1, 2, 3, 4, 5, 6, 7, 0x70]);
    assert_eq!(Color::default(), Color::Black);
    assert_eq!(Cell::default(), Cell(0, Color::Black));
    assert_eq!(Cell::new_from(&Cell(7, Color::Red)), Cell(7, Color::Red));
}

#[test]
fn delete_on_highlighted_last_cell_is_noop() {
    let mut screen = input_screen();
    write_full_rows(&mut screen, HEIGHT - 1);
    let line = vec![b'z'; WIDTH - 1];
    screen.write_bytes(&line);
    assert_eq!(screen.get_cursor(), Cursor { row: HEIGHT - 1, column: WIDTH - 1 });
    assert_eq!(screen.get_cell(HEIGHT - 1, WIDTH - 1), Cell(0, Color::Black_on_White));
    assert_eq!(screen.get_history().get_tail_length(), 0);
    let before = grid_cells(&screen);
    screen.suppr_byte();
    assert_eq!(grid_cells(&screen), before);
    assert_eq!(screen.get_cursor(), Cursor { row: HEIGHT - 1, column: WIDTH - 1 });
    assert_eq!(screen.get_history().get_length(), 0);
    // and on a full last cell
    screen.write_bytes(&[0x1b, b'y']);
    assert_eq!(screen.get_cursor(), Cursor { row: HEIGHT - 1, column: WIDTH - 1 });
    assert_eq!(screen.get_cell(HEIGHT - 1, WIDTH - 1).0, b'z');
    let before = grid_cells(&screen);
    screen.suppr_byte();
    assert_eq!(grid_cells(&screen), before);
}

#[test]
fn delete_on_empty_cell_in_last_column_is_noop() {
    let mut screen = input_screen();
    screen.write_bytes(b"ab\ncd");
    screen.set_color(Color::Red);
    let before = grid_cells(&screen);
    screen.shift_leftward(0, WIDTH - 1);
    assert_eq!(grid_cells(&screen), before);
    screen.shift_leftward(1, WIDTH - 1);
    assert_eq!(grid_cells(&screen), before);
}

#[test]
fn shift_right_then_left_restores_row_with_one_empty_cell() {
    // a row of WIDTH - 1 cells of text above an empty row
    let mut screen = Screen::new(0);
    for _ in 0..WIDTH - 1 {
        screen.write_byte(b'a');
    }
    for column in [0usize, 7, WIDTH - 2, WIDTH - 1] {
        let before = grid_cells(&screen);
        screen.shift_rightward(0, column);
        screen.shift_leftward(0, column);
        assert_eq!(grid_cells(&screen), before, "at column {}", column);
    }
    // the same in the last row of the grid, where nothing follows
    let mut screen = Screen::new(0);
    for _ in 0..HEIGHT * WIDTH - 1 {
        screen.write_byte(b'b');
    }
    assert_eq!(screen.get_cursor(), Cursor { row: HEIGHT - 1, column: WIDTH - 1 });
    for column in [0usize, 40, WIDTH - 2, WIDTH - 1] {
        let before = grid_cells(&screen);
        screen.shift_rightward(HEIGHT - 1, column);
        screen.shift_leftward(HEIGHT - 1, column);
        assert_eq!(grid_cells(&screen), before, "at column {}", column);
        assert_eq!(screen.get_history().get_length(), 0);
    }
}
