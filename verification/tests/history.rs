use vga_console::vga::screen::{
    copy_row, left_shift_row, push_front_row, right_shift_row, Cell, History, WIDTH,
};
use vga_console::vga::Color;

fn row_of(c: u8) -> [Cell; WIDTH] {
    [Cell(c, Color::White); WIDTH]
}

fn text_row(text: &[u8]) -> [Cell; WIDTH] {
    let mut row = [Cell(0, Color::Black); WIDTH];
    for (i, c) in text.iter().enumerate() {
        row[i] = Cell(*c, Color::Black);
    }
    row
}

fn bytes(row: &[Cell; WIDTH]) -> Vec<u8> {
    row.iter().map(|c| c.0).collect()
}

fn history_row<const N: usize>(history: &History<N>, k: usize) -> Vec<u8> {
    (0..WIDTH).map(|column| history.get_cell(k, column).0).collect()
}

fn check_lengths<const N: usize>(history: &History<N>) {
    let length = history.get_length();
    assert!(history.get_head_length() <= length);
    assert!(length <= N);
    assert_eq!(history.get_head_length() + history.get_tail_length(), length);
}

#[test]
fn copy_row_copies() {
    let mut dst = row_of(b'x');
    let src = text_row(b"hello");
    copy_row(&mut dst, &src);
    assert_eq!(dst, src);
}

#[test]
fn right_shift_row_turns_the_end_round() {
    let mut row = text_row(b"abcdef");
    row[WIDTH - 1] = Cell(b'!', Color::Black);
    right_shift_row(&mut row, 2);
    assert_eq!(&bytes(&row)[..8], b"ab!cdef\0");
    assert_eq!(row[WIDTH - 1].0, 0);
    let before = row;
    right_shift_row(&mut row, WIDTH);
    assert_eq!(row, before);
    right_shift_row(&mut row, WIDTH - 1);
    assert_eq!(row, before);
}

#[test]
fn left_shift_row_turns_the_start_round() {
    let mut row = text_row(b"abcdef");
    left_shift_row(&mut row, 1);
    assert_eq!(&bytes(&row)[..6], b"acdef\0");
    assert_eq!(row[WIDTH - 1].0, b'b');
    let before = row;
    left_shift_row(&mut row, WIDTH + 3);
    assert_eq!(row, before);
}

#[test]
fn left_shift_row_undoes_right_shift_row() {
    for column in [0usize, 1, 40, 79] {
        let mut row = text_row(b"some words in a row");
        row[WIDTH - 1] = Cell(b'$', Color::Red);
        let before = row;
        right_shift_row(&mut row, column);
        left_shift_row(&mut row, column);
        assert_eq!(row, before);
    }
}

#[test]
fn push_front_row_returns_the_last_cell() {
    let mut row = text_row(b"abc");
    row[WIDTH - 1] = Cell(b'z', Color::Black);
    let fallen = push_front_row(&mut row, Cell(b'X', Color::Blue));
    assert_eq!(fallen, Cell(b'z', Color::Black));
    assert_eq!(row[0], Cell(b'X', Color::Blue));
    assert_eq!(&bytes(&row)[1..5], b"abc\0");
}

#[test]
fn new_history_is_empty() {
    let history = History::<4>::new();
    assert_eq!(history.get_length(), 0);
    assert_eq!(history.get_head_length(), 0);
    assert_eq!(history.get_tail_length(), 0);
}

#[test]
fn push_appends_until_full_then_evicts_oldest() {
    let mut history = History::<3>::new();
    let mut lower = row_of(b'-');
    for (i, c) in [b'a', b'b', b'c'].iter().enumerate() {
        history.push_upper_row(&row_of(*c), &mut lower);
        assert_eq!(history.get_length(), i + 1);
        assert_eq!(history.get_head_length(), i + 1);
        check_lengths(&history);
    }
    assert_eq!(lower, row_of(b'-'));
    history.push_upper_row(&row_of(b'd'), &mut lower);
    check_lengths(&history);
    assert_eq!(history.get_length(), 3);
    assert_eq!(history.get_head_length(), 3);
    assert_eq!(history_row(&history, 0), vec![b'b'; WIDTH]);
    assert_eq!(history_row(&history, 1), vec![b'c'; WIDTH]);
    assert_eq!(history_row(&history, 2), vec![b'd'; WIDTH]);
    assert_eq!(lower, row_of(b'-'));
}

#[test]
fn pop_returns_newest_and_stores_lower() {
    let mut history = History::<3>::new();
    let mut scratch = row_of(0);
    history.push_upper_row(&row_of(b'a'), &mut scratch);
    history.push_upper_row(&row_of(b'b'), &mut scratch);
    let mut upper = row_of(0);
    history.pop_upper_row(&mut upper, &row_of(b'y'));
    check_lengths(&history);
    assert_eq!(upper, row_of(b'b'));
    assert_eq!(history.get_head_length(), 1);
    assert_eq!(history.get_tail_length(), 1);
    assert_eq!(history_row(&history, 1), vec![b'y'; WIDTH]);
    // pushing again hands the stored row back
    let mut lower = row_of(0);
    history.push_upper_row(&row_of(b'c'), &mut lower);
    check_lengths(&history);
    assert_eq!(lower, row_of(b'y'));
    assert_eq!(history.get_head_length(), 2);
    assert_eq!(history.get_tail_length(), 0);
    assert_eq!(history_row(&history, 1), vec![b'c'; WIDTH]);
}

#[test]
fn pop_on_nothing_above_is_noop() {
    let mut history = History::<2>::new();
    let mut upper = row_of(b'u');
    history.pop_upper_row(&mut upper, &row_of(b'l'));
    assert_eq!(upper, row_of(b'u'));
    assert_eq!(history.get_length(), 0);
    check_lengths(&history);
}

#[test]
fn history_without_capacity_holds_nothing() {
    let mut history = History::<0>::new();
    let mut lower = row_of(b'l');
    history.push_upper_row(&row_of(b'a'), &mut lower);
    assert_eq!(history.get_length(), 0);
    assert_eq!(lower, row_of(b'l'));
    history.shift_rightward(Cell(b'x', Color::Black));
    assert_eq!(history.get_length(), 0);
    check_lengths(&history);
}

#[test]
fn lengths_stay_consistent_over_pushes_and_pops() {
    let mut history = History::<5>::new();
    let mut scratch = row_of(0);
    let plan = [1, 1, 0, 1, 1, 1, 0, 0, 1, 1, 1, 1, 1, 0, 0, 0, 0, 0, 0, 1, 2, 2, 1, 0, 2];
    for (i, step) in plan.iter().enumerate() {
        if *step == 1 {
            history.push_upper_row(&row_of(b'a' + i as u8), &mut scratch);
        } else if *step == 0 {
            history.pop_upper_row(&mut scratch, &row_of(b'A' + i as u8));
        } else {
            history.shift_rightward(Cell(b'0' + i as u8, Color::Black));
        }
        check_lengths(&history);
    }
}

#[test]
fn shift_rightward_opens_a_row_below() {
    let mut history = History::<3>::new();
    let mut scratch = row_of(0);
    history.push_upper_row(&row_of(b'a'), &mut scratch);
    history.shift_rightward(Cell(b'x', Color::Cyan));
    assert_eq!(history.get_length(), 2);
    assert_eq!(history.get_head_length(), 1);
    assert_eq!(history.get_tail_length(), 1);
    assert_eq!(history.get_cell(1, 0), Cell(b'x', Color::Cyan));
    assert_eq!(history.get_cell(1, 1), Cell(0, Color::Black));
    // a second cell enters in front of the first
    history.shift_rightward(Cell(b'w', Color::Cyan));
    assert_eq!(history.get_length(), 2);
    assert_eq!(&history_row(&history, 1)[..3], b"wx\0");
}

#[test]
fn shift_rightward_of_empty_cell_changes_nothing() {
    let mut history = History::<3>::new();
    let mut scratch = row_of(0);
    history.push_upper_row(&row_of(b'a'), &mut scratch);
    history.shift_rightward(Cell(0, Color::Red));
    assert_eq!(history.get_length(), 1);
    assert_eq!(history.get_tail_length(), 0);
}

#[test]
fn shift_rightward_cascades_through_full_rows() {
    let mut history = History::<4>::new();
    let mut scratch = row_of(0);
    history.push_upper_row(&row_of(b'a'), &mut scratch);
    history.push_upper_row(&row_of(b'b'), &mut scratch);
    history.push_upper_row(&row_of(b'c'), &mut scratch);
    // two rows go to wait below: first 'c', then 'b'
    history.pop_upper_row(&mut scratch, &text_row(b"end"));
    history.pop_upper_row(&mut scratch, &row_of(b'f'));
    assert_eq!(history.get_head_length(), 1);
    assert_eq!(history.get_tail_length(), 2);
    history.shift_rightward(Cell(b'X', Color::Black));
    assert_eq!(history.get_length(), 3);
    let mut first = vec![b'f'; WIDTH];
    first[0] = b'X';
    assert_eq!(history_row(&history, 1), first);
    assert_eq!(&history_row(&history, 2)[..5], b"fend\0");
}

#[test]
fn shift_rightward_in_full_history_evicts_oldest_above() {
    let mut history = History::<2>::new();
    let mut scratch = row_of(0);
    history.push_upper_row(&row_of(b'a'), &mut scratch);
    history.push_upper_row(&row_of(b'b'), &mut scratch);
    history.shift_rightward(Cell(b'x', Color::Black));
    assert_eq!(history.get_length(), 2);
    assert_eq!(history.get_head_length(), 1);
    assert_eq!(history.get_tail_length(), 1);
    assert_eq!(history_row(&history, 0), vec![b'b'; WIDTH]);
    assert_eq!(&history_row(&history, 1)[..2], b"x\0");
}

#[test]
fn shift_rightward_with_only_full_rows_below_drops_cell() {
    let mut history = History::<1>::new();
    let mut scratch = row_of(0);
    history.push_upper_row(&row_of(b'a'), &mut scratch);
    history.pop_upper_row(&mut scratch, &row_of(b'f'));
    assert_eq!(history.get_tail_length(), 1);
    history.shift_rightward(Cell(b'x', Color::Black));
    assert_eq!(history.get_length(), 1);
    assert_eq!(history.get_head_length(), 0);
    let mut only = vec![b'f'; WIDTH];
    only[0] = b'x';
    assert_eq!(history_row(&history, 0), only);
}
