//! What holds of the screen and its scrollback whatever they contain.

use vstd::prelude::*;
use super::screen::{
    aligned_column, blank, blank_row, byte_taken, byte_written, bytes_taken, cascade_right,
    cascade_right_carry, cursor_moved_down, cursor_moved_left, cursor_moved_right,
    cursor_moved_up, deleted, first_open_row, fresh_screen, grid_with, history_fits,
    history_popped, history_push_lower, history_pushed, history_shifted_rightward,
    is_graphic, is_whitespace, last_joined_row, left_aligned, lemma_first_open_row, new_lined,
    pushed_front, rotate_right, row_starting_with, rows_above,
    rows_below, screen_fits, scrolled_down, scrolled_up, shifted_leftward,
    shifted_leftward_grid, shifted_rightward, stream_written, suppressed, view_scrolled_down,
    view_scrolled_up, with_cursor_shown, Cell, HistoryView, ScreenView, HEIGHT,
    HISTORY_CAPACITY, WIDTH,
};
use super::Color;

verus! {

// ===== Scrollback =====

/// In a scrollback that fits its capacity, the rows above and the rows
/// below are all the rows held, and neither count is negative.
pub proof fn lemma_rows_above_and_below(h: HistoryView, capacity: int)
    requires
        history_fits(h, capacity),
    ensures
        0 <= rows_above(h),
        0 <= rows_below(h),
        rows_above(h) + rows_below(h) == h.rows.len(),
        h.rows.len() <= capacity,
{
}

/// A push keeps the scrollback within its capacity.
pub proof fn lemma_pushed_fits(h: HistoryView, capacity: int, upper: Seq<Cell>)
    requires
        history_fits(h, capacity),
        upper.len() == WIDTH,
    ensures
        history_fits(history_pushed(h, capacity, upper), capacity),
{
}

/// A pop keeps the scrollback within its capacity.
pub proof fn lemma_popped_fits(h: HistoryView, capacity: int, lower: Seq<Cell>)
    requires
        history_fits(h, capacity),
        lower.len() == WIDTH,
    ensures
        history_fits(history_popped(h, lower), capacity),
{
}

/// An insertion in front of the rows below keeps the scrollback within its
/// capacity.
pub proof fn lemma_shifted_rightward_history_fits(h: HistoryView, capacity: int, carry: Cell)
    requires
        history_fits(h, capacity),
    ensures
        history_fits(history_shifted_rightward(h, capacity, carry), capacity),
{
    let rows = cascade_right(h.rows, h.pivot, carry);
    assert(rows.len() == h.rows.len());
    assert forall|k: int| 0 <= k < rows.len() implies (#[trigger] rows[k]).len() == WIDTH by {
        assert(h.rows[k].len() == WIDTH);
    }
    let left = cascade_right_carry(h.rows, h.pivot, carry);
    assert(row_starting_with(left).len() == WIDTH);
}

/// A full cell that enters a full scrollback whose rows are all above the
/// grid costs the oldest row: the other rows move up by one, a row that
/// holds the cell alone becomes the last one and the only one below, and
/// the number of rows stays at the capacity.
pub proof fn lemma_full_store_evicts_oldest(h: HistoryView, capacity: int, carry: Cell)
    requires
        history_fits(h, capacity),
        0 < capacity,
        h.rows.len() == capacity,
        h.pivot == capacity,
        carry.0 != 0,
    ensures
        history_shifted_rightward(h, capacity, carry).rows == h.rows.subrange(1, capacity).push(
            row_starting_with(carry),
        ),
        history_shifted_rightward(h, capacity, carry).rows.len() == capacity,
        rows_above(history_shifted_rightward(h, capacity, carry)) == capacity - 1,
        rows_below(history_shifted_rightward(h, capacity, carry)) == 1,
{
    assert(first_open_row(h.rows, h.pivot) == h.rows.len());
    assert(cascade_right(h.rows, h.pivot, carry) =~= h.rows);
}

// ===== Rows with an open end =====

/// `first_open_row` lies between `from` and the number of rows; the rows
/// before it end in a full cell, and the row it names ends in an empty one.
pub proof fn lemma_first_open_row_is_first(rows: Seq<Seq<Cell>>, from: int)
    requires
        0 <= from <= rows.len(),
    ensures
        from <= first_open_row(rows, from) <= rows.len(),
        forall|j: int|
            from <= j < first_open_row(rows, from) ==> (#[trigger] rows[j]).last().0 != 0,
        first_open_row(rows, from) < rows.len() ==> rows[first_open_row(rows, from)].last().0
            == 0,
    decreases rows.len() - from,
{
    if from < rows.len() && rows[from].last().0 != 0 {
        lemma_first_open_row_is_first(rows, from + 1);
    }
}

// ===== Insertion and deletion =====

/// The grid after room was made at `row` and `column`, as far as the grid
/// took it: the row turned at `column`, and each row after it, up to the
/// first one with an open end, moved right by the last cell of the row
/// before it.
pub open spec fn room_made(grid: Seq<Seq<Cell>>, row: int, column: int) -> Seq<Seq<Cell>> {
    let end = first_open_row(grid, row);
    Seq::new(
        grid.len(),
        |j: int|
            if j == row {
                rotate_right(grid[row], column)
            } else if row < j <= end {
                pushed_front(grid[j], grid[j - 1].last())
            } else {
                grid[j]
            },
    )
}

/// Where the text that an insertion moves ends inside the grid, making
/// room changes the grid to `room_made` and nothing else of the screen.
pub proof fn lemma_room_made(s: ScreenView, row: int, column: int)
    requires
        screen_fits(s),
        0 <= row < HEIGHT,
        0 <= column < WIDTH,
        first_open_row(s.grid, row) < HEIGHT,
    ensures
        shifted_rightward(s, row, column) == (ScreenView {
            grid: room_made(s.grid, row, column),
            ..s
        }),
{
    let grid = s.grid;
    let end = first_open_row(grid, row);
    lemma_first_open_row_is_first(grid, row);
    let first = grid[row].last();
    let turned = grid.update(row, rotate_right(grid[row], column));
    let made = cascade_right(turned, row + 1, first);
    if first.0 != 0 {
        assert forall|j: int| row + 1 <= j < end implies (#[trigger] turned[j]).last().0 != 0 by {
            assert(turned[j] == grid[j]);
        }
        assert(turned[end] == grid[end]);
        lemma_first_open_row(turned, row + 1, end);
        assert(cascade_right_carry(turned, row + 1, first) == grid[end].last());
        assert forall|j: int| 0 <= j < HEIGHT implies made[j] == room_made(
            grid,
            row,
            column,
        )[j] by {
            if row < j <= end {
                assert(turned[j] == grid[j]);
                if j - 1 > row {
                    assert(turned[j - 1] == grid[j - 1]);
                }
            }
        }
    }
    assert(made =~= room_made(grid, row, column));
}

/// Whether an insertion at `row` and `column` leaves a grid from which
/// closing the gap leads back. The text that the insertion moves must end
/// inside the grid, and the rows it runs through must be full up to their
/// end. Of the row where it ends, one of these must hold:
/// - the insertion is in its last column, so that nothing moves;
/// - it has two empty cells at its end, the last of them the empty cell;
/// - it has one empty cell at its end and is the grid's last row, the very
///   row of the insertion;
/// - it has one empty cell at its end, the empty cell, and the row after
///   it holds nothing but the empty cell.
pub open spec fn insertion_reversible(grid: Seq<Seq<Cell>>, row: int, column: int) -> bool {
    let end = first_open_row(grid, row);
    &&& end < grid.len()
    &&& forall|j: int|
        row <= j < end && !(j == row && column == WIDTH - 1) ==> (#[trigger] grid[j])[WIDTH - 2].0
            != 0
    &&& {
        ||| end == row && column == WIDTH - 1
        ||| grid[end][WIDTH - 2].0 == 0 && grid[end].last() == blank()
        ||| grid[end][WIDTH - 2].0 != 0 && end == row && row == grid.len() - 1
        ||| grid[end][WIDTH - 2].0 != 0 && end + 1 < grid.len() && grid[end].last() == blank()
            && forall|i: int| 0 <= i < WIDTH ==> (#[trigger] grid[end + 1][i]) == blank()
    }
}

/// Making room at a place and closing the gap again at the same place
/// gives back the screen as it was, where the insertion is reversible.
pub proof fn lemma_shift_round_trip(s: ScreenView, row: int, column: int)
    requires
        screen_fits(s),
        0 <= row < HEIGHT,
        0 <= column < WIDTH,
        insertion_reversible(s.grid, row, column),
    ensures
        shifted_leftward(shifted_rightward(s, row, column), row, column) == s,
{
    let grid = s.grid;
    let end = first_open_row(grid, row);
    lemma_first_open_row_is_first(grid, row);
    lemma_room_made(s, row, column);
    let made = room_made(grid, row, column);
    assert forall|j: int| 0 <= j < HEIGHT implies (#[trigger] grid[j]).len() == WIDTH by {}
    assert forall|j: int| row <= j < end implies (#[trigger] made[j]).last().0 != 0 by {
        assert(grid[j].last().0 != 0);
        if !(j == row && column == WIDTH - 1) {
            assert(grid[j][WIDTH - 2].0 != 0);
        }
    }
    let stays = end == row && column == WIDTH - 1;
    let stop = if stays || grid[end][WIDTH - 2].0 == 0 {
        end
    } else if end == row && row == HEIGHT - 1 {
        end
    } else {
        end + 1
    };
    if stays || grid[end][WIDTH - 2].0 == 0 {
        assert(made[end].last().0 == 0);
        lemma_first_open_row(made, row, end);
    } else if end == row && row == HEIGHT - 1 {
        assert(made[end].last().0 != 0);
        lemma_first_open_row(made, row, HEIGHT as int);
    } else {
        assert(made[end].last() == grid[end][WIDTH - 2]);
        assert(made[end + 1] == grid[end + 1]);
        assert(grid[end + 1][WIDTH - 1] == blank());
        lemma_first_open_row(made, row, end + 1);
    }
    assert(last_joined_row(made, row) == stop);
    let back = shifted_leftward_grid(made, row, column);
    assert forall|j: int| 0 <= j < HEIGHT implies back[j] == grid[j] by {
        if row <= j <= stop {
            if j < end {
                assert(made[j + 1][0] == grid[j].last());
            }
            if j == end && stop == end + 1 {
                assert(made[j + 1][0] == grid[end + 1][0]);
                assert(grid[end + 1][0] == blank());
            }
            if j == end + 1 {
                assert forall|i: int| 0 <= i < WIDTH implies grid[j][i] == blank() by {}
            }
            assert(back[j] =~= grid[j]);
        } else {
            assert(made[j] == grid[j]);
        }
    }
    assert(back =~= grid);
}

/// Taking out the cell in the last column of a row changes nothing, if
/// that row is the grid's last one or the cell is empty: nothing follows
/// the cell that could move onto its place.
pub proof fn lemma_delete_in_last_column(s: ScreenView, row: int)
    requires
        screen_fits(s),
        0 <= row < HEIGHT,
        row == HEIGHT - 1 || s.grid[row].last().0 == 0,
    ensures
        shifted_leftward(s, row, WIDTH - 1) == s,
{
    lemma_first_open_row_is_first(s.grid, row);
    if s.grid[row].last().0 == 0 {
        lemma_first_open_row(s.grid, row, row);
    }
    assert(last_joined_row(s.grid, row) == row);
    let after = shifted_leftward_grid(s.grid, row, WIDTH - 1);
    assert(s.grid[row].len() == WIDTH);
    assert(after[row] =~= s.grid[row]);
    assert(after =~= s.grid);
}

/// With the cursor on the last cell of the grid, taking out the cell under
/// it changes nothing, whatever the cell and the scrollback hold.
pub proof fn lemma_suppress_at_end(s: ScreenView)
    requires
        screen_fits(s),
        s.cursor_row == HEIGHT - 1,
        s.cursor_column == WIDTH - 1,
    ensures
        suppressed(s) == s,
{
    lemma_delete_in_last_column(s, HEIGHT - 1);
}

// ===== Cursor at the corners =====

/// At the origin, with no row held above, moving the cursor left changes
/// nothing.
pub proof fn lemma_left_at_origin(s: ScreenView)
    requires
        screen_fits(s),
        s.cursor_row == 0,
        s.cursor_column == 0,
        s.history.pivot == 0,
    ensures
        cursor_moved_left(s) == s,
{
    assert(aligned_column(s.grid[0], 0) == 0);
}

/// In the last cell of the grid, with no row waiting below and a full cell
/// before the cursor, moving the cursor right changes nothing.
pub proof fn lemma_right_at_end(s: ScreenView)
    requires
        screen_fits(s),
        s.cursor_row == HEIGHT - 1,
        s.cursor_column == WIDTH - 1,
        s.history.pivot == s.history.rows.len(),
        s.grid[HEIGHT - 1][WIDTH - 2].0 != 0,
    ensures
        cursor_moved_right(s) == s,
{
    assert(aligned_column(s.grid[HEIGHT - 1], WIDTH - 1) == WIDTH - 1);
}

// ===== Plain output =====

/// A screen that has so far only been filled cell by cell: `count` cells
/// were written from the origin on, the cursor stands behind them, the
/// cells from there on are empty, and the scrollback holds nothing.
pub open spec fn plainly_filled(s: ScreenView, count: int) -> bool {
    &&& screen_fits(s)
    &&& 0 <= count < WIDTH * HEIGHT
    &&& s.cursor_row == count / (WIDTH as int)
    &&& s.cursor_column == count % (WIDTH as int)
    &&& s.history.rows.len() == 0
    &&& s.history.pivot == 0
    &&& forall|r: int, c: int|
        0 <= r < HEIGHT && 0 <= c < WIDTH && count <= r * WIDTH + c ==> (#[trigger] s.grid[r][c])
            == blank()
}

/// Writing one byte to a plainly filled screen that has room for it fills
/// the next cell and nothing else.
pub proof fn lemma_plain_write(s: ScreenView, count: int, c: u8)
    requires
        plainly_filled(s, count),
        count + 1 < WIDTH * HEIGHT,
    ensures
        plainly_filled(byte_written(s, c), count + 1),
        byte_written(s, c).input_mode == s.input_mode,
{
    let row = s.cursor_row;
    let column = s.cursor_column;
    let line = s.grid[row];
    assert(line.len() == WIDTH);
    assert forall|i: int| column <= i < WIDTH implies line[i] == blank() by {
        assert(s.grid[row][i] == blank());
    }
    assert(rotate_right(line, column) =~= line);
    assert(s.grid.update(row, line) =~= s.grid);
    assert(line.last() == blank());
    assert(shifted_rightward(s, row, column) == s);
    let after = byte_written(s, c);
    assert forall|r: int, k: int|
        0 <= r < HEIGHT && 0 <= k < WIDTH && count + 1 <= r * WIDTH + k implies (
    #[trigger] after.grid[r][k]) == blank() by {
        assert(s.grid[r][k] == blank());
    }
    assert forall|r: int| 0 <= r < HEIGHT implies (#[trigger] after.grid[r]).len() == WIDTH by {
        assert(s.grid[r].len() == WIDTH);
    }
}

/// The screen after the bytes `cs` were written one by one.
pub open spec fn bytes_written(s: ScreenView, cs: Seq<u8>) -> ScreenView
    decreases cs.len(),
{
    if cs.len() == 0 {
        s
    } else {
        byte_written(bytes_written(s, cs.drop_last()), cs.last())
    }
}

/// A new screen is plainly filled with nothing.
pub proof fn lemma_fresh_is_plain()
    ensures
        plainly_filled(fresh_screen(), 0),
{
}

/// Writing fewer bytes than the grid has cells to a new screen leaves the
/// cursor in the column that is the number of bytes modulo the width, in
/// the row that is their quotient, and the scrollback empty.
pub proof fn lemma_plain_writes(cs: Seq<u8>)
    requires
        cs.len() < WIDTH * HEIGHT,
    ensures
        plainly_filled(bytes_written(fresh_screen(), cs), cs.len() as int),
        bytes_written(fresh_screen(), cs).cursor_column == cs.len() % (WIDTH as nat),
        bytes_written(fresh_screen(), cs).cursor_row == cs.len() / (WIDTH as nat),
        bytes_written(fresh_screen(), cs).history.rows.len() == 0,
    decreases cs.len(),
{
    if cs.len() == 0 {
        lemma_fresh_is_plain();
    } else {
        lemma_plain_writes(cs.drop_last());
        lemma_plain_write(bytes_written(fresh_screen(), cs.drop_last()), cs.len() - 1, cs.last());
    }
}

/// The same of a stream without line feeds that a new screen, which is in
/// normal mode, takes: every byte of it fills one cell.
pub proof fn lemma_plain_stream(bytes: Seq<u8>)
    requires
        bytes.len() < WIDTH * HEIGHT,
        forall|i: int| 0 <= i < bytes.len() ==> bytes[i] != 0x0a,
    ensures
        plainly_filled(bytes_taken(fresh_screen(), bytes), bytes.len() as int),
        !bytes_taken(fresh_screen(), bytes).input_mode,
        bytes_taken(fresh_screen(), bytes).cursor_column == bytes.len() % (WIDTH as nat),
        bytes_taken(fresh_screen(), bytes).cursor_row == bytes.len() / (WIDTH as nat),
        bytes_taken(fresh_screen(), bytes).history.rows.len() == 0,
    decreases bytes.len(),
{
    if bytes.len() == 0 {
        lemma_fresh_is_plain();
    } else {
        let front = bytes.drop_last();
        lemma_plain_stream(front);
        let s = bytes_taken(fresh_screen(), front);
        let c = bytes.last();
        assert(c != 0x0a);
        let drawn: u8 = if is_graphic(c) || is_whitespace(c) {
            c
        } else {
            0xfe
        };
        assert(byte_taken(s, c) == byte_written(s, drawn));
        lemma_plain_write(s, bytes.len() - 1, drawn);
    }
}

/// Writing such a stream to a new screen in one piece leaves the cursor and
/// the scrollback the same way; the cursor's highlight changes no place.
pub proof fn lemma_plain_stream_written(bytes: Seq<u8>)
    requires
        bytes.len() < WIDTH * HEIGHT,
        forall|i: int| 0 <= i < bytes.len() ==> bytes[i] != 0x0a,
    ensures
        stream_written(fresh_screen(), bytes).cursor_column == bytes.len() % (WIDTH as nat),
        stream_written(fresh_screen(), bytes).cursor_row == bytes.len() / (WIDTH as nat),
        stream_written(fresh_screen(), bytes).history.rows.len() == 0,
{
    let start = with_cursor_shown(fresh_screen(), Color::Black);
    assert(start.grid[0] =~= fresh_screen().grid[0]);
    assert(start.grid =~= fresh_screen().grid);
    lemma_plain_stream(bytes);
}

// ===== What every screen keeps =====

/// Whether the cursor stands at the start of its row or behind a full cell.
pub open spec fn cursor_rests(s: ScreenView) -> bool {
    s.cursor_column == 0 || s.grid[s.cursor_row][s.cursor_column - 1].0 != 0
}

/// What a screen keeps through everything that is written to it: its
/// measures, the bounds of its cursor and of its scrollback, and that the
/// cursor never rests behind an empty cell.
pub open spec fn screen_settled(s: ScreenView) -> bool {
    screen_fits(s) && cursor_rests(s)
}

/// The aligned column is the nearest column at or before `column` that is
/// the row's start or has a full cell before it: the cells between the two
/// are empty.
pub proof fn lemma_aligned_column(row: Seq<Cell>, column: int)
    requires
        0 <= column,
    ensures
        0 <= aligned_column(row, column) <= column,
        aligned_column(row, column) == 0 || row[aligned_column(row, column) - 1].0 != 0,
        forall|i: int| aligned_column(row, column) <= i < column ==> (#[trigger] row[i]).0 == 0,
    decreases column,
{
    if 0 < column && row[column - 1].0 == 0 {
        lemma_aligned_column(row, column - 1);
    }
}

/// Aligning the cursor settles a screen that fits.
pub proof fn lemma_left_aligned_settles(s: ScreenView)
    requires
        screen_fits(s),
    ensures
        screen_settled(left_aligned(s)),
        left_aligned(s).grid == s.grid,
        left_aligned(s).history == s.history,
        left_aligned(s).cursor_row == s.cursor_row,
{
    lemma_aligned_column(s.grid[s.cursor_row], s.cursor_column);
}

/// Scrolling up keeps the screen's measures.
pub proof fn lemma_scrolled_up_fits(s: ScreenView)
    requires
        screen_fits(s),
    ensures
        screen_fits(scrolled_up(s)),
        scrolled_up(s).cursor_row == s.cursor_row,
        scrolled_up(s).cursor_column == s.cursor_column,
{
    let lower = history_push_lower(s.history, HISTORY_CAPACITY as int, blank_row());
    assert(lower.len() == WIDTH) by {
        if s.history.pivot < s.history.rows.len() {
            assert(s.history.rows[s.history.pivot].len() == WIDTH);
        }
    }
    assert(s.grid[0].len() == WIDTH);
    lemma_pushed_fits(s.history, HISTORY_CAPACITY as int, s.grid[0]);
    let grid = scrolled_up(s).grid;
    assert forall|r: int| 0 <= r < HEIGHT implies (#[trigger] grid[r]).len() == WIDTH by {
        if r < HEIGHT - 1 {
            assert(grid[r] == s.grid[r + 1]);
        }
    }
}

/// Scrolling down keeps the screen's measures.
pub proof fn lemma_scrolled_down_fits(s: ScreenView)
    requires
        screen_fits(s),
    ensures
        screen_fits(scrolled_down(s)),
        scrolled_down(s).cursor_row == s.cursor_row,
        scrolled_down(s).cursor_column == s.cursor_column,
{
    if 0 < s.history.pivot {
        assert(s.grid[HEIGHT - 1].len() == WIDTH);
        lemma_popped_fits(s.history, HISTORY_CAPACITY as int, s.grid[HEIGHT - 1]);
        assert(s.history.rows[s.history.pivot - 1].len() == WIDTH);
        let grid = scrolled_down(s).grid;
        assert forall|r: int| 0 <= r < HEIGHT implies (#[trigger] grid[r]).len() == WIDTH by {
            if 0 < r {
                assert(grid[r] == s.grid[r - 1]);
            }
        }
    }
}

/// A line break settles a screen that fits.
pub proof fn lemma_new_lined_settles(s: ScreenView)
    requires
        screen_fits(s),
    ensures
        screen_settled(new_lined(s)),
{
    if s.cursor_row + 1 >= HEIGHT {
        lemma_scrolled_up_fits(ScreenView { cursor_column: 0, ..s });
    }
}

/// Making room for a cell keeps the screen's measures.
pub proof fn lemma_shifted_rightward_fits(s: ScreenView, row: int, column: int)
    requires
        screen_fits(s),
        0 <= row < HEIGHT,
        0 <= column < WIDTH,
    ensures
        screen_fits(shifted_rightward(s, row, column)),
{
    let first = s.grid[row].last();
    let turned = s.grid.update(row, rotate_right(s.grid[row], column));
    let left = cascade_right_carry(turned, row + 1, first);
    let moved = ScreenView { grid: cascade_right(turned, row + 1, first), ..s };
    assert forall|r: int| 0 <= r < HEIGHT implies (#[trigger] moved.grid[r]).len() == WIDTH by {
        assert(s.grid[r].len() == WIDTH);
        assert(turned[r].len() == WIDTH);
    }
    assert(screen_fits(moved));
    if left.0 != 0 {
        if s.history.rows.len() - s.history.pivot < HISTORY_CAPACITY {
            lemma_shifted_rightward_history_fits(s.history, HISTORY_CAPACITY as int, left);
        } else {
            lemma_scrolled_up_fits(moved);
            let up = scrolled_up(moved);
            let placed = if 0 < up.cursor_row {
                ScreenView { cursor_row: up.cursor_row - 1, ..up }
            } else {
                left_aligned(up)
            };
            lemma_left_aligned_settles(up);
            assert(screen_fits(placed));
            lemma_shifted_rightward_history_fits(placed.history, HISTORY_CAPACITY as int, left);
        }
    }
}

/// Taking a cell out keeps the screen's measures, and the cells before
/// the place in its row.
pub proof fn lemma_shifted_leftward_fits(s: ScreenView, row: int, column: int)
    requires
        screen_fits(s),
        0 <= row < HEIGHT,
        0 <= column < WIDTH,
    ensures
        screen_fits(shifted_leftward(s, row, column)),
        forall|i: int|
            0 <= i < column ==> shifted_leftward(s, row, column).grid[row][i] == s.grid[row][i],
{
    lemma_first_open_row_is_first(s.grid, row);
    let grid = shifted_leftward_grid(s.grid, row, column);
    assert forall|r: int| 0 <= r < HEIGHT implies (#[trigger] grid[r]).len() == WIDTH by {
        assert(s.grid[r].len() == WIDTH);
    }
    assert(row <= last_joined_row(s.grid, row));
}

/// Writing a byte keeps the screen's measures, and a byte that is not the
/// empty marker leaves the cursor behind a full cell.
pub proof fn lemma_byte_written_settles(s: ScreenView, c: u8)
    requires
        screen_fits(s),
    ensures
        screen_fits(byte_written(s, c)),
        c != 0 ==> screen_settled(byte_written(s, c)),
{
    lemma_shifted_rightward_fits(s, s.cursor_row, s.cursor_column);
    let made = shifted_rightward(s, s.cursor_row, s.cursor_column);
    let put = ScreenView {
        grid: grid_with(made.grid, made.cursor_row, made.cursor_column, Cell(c, made.color)),
        ..made
    };
    assert forall|r: int| 0 <= r < HEIGHT implies (#[trigger] put.grid[r]).len() == WIDTH by {
        assert(made.grid[r].len() == WIDTH);
    }
    assert(screen_fits(put));
    if made.cursor_column + 1 == WIDTH {
        lemma_new_lined_settles(put);
    }
}

/// Every move of the cursor settles a screen that fits.
pub proof fn lemma_cursor_moves_settle(s: ScreenView)
    requires
        screen_fits(s),
    ensures
        screen_settled(cursor_moved_up(s)),
        screen_settled(cursor_moved_down(s)),
        screen_settled(cursor_moved_left(s)),
        screen_settled(cursor_moved_right(s)),
{
    lemma_scrolled_up_fits(s);
    lemma_scrolled_down_fits(s);
    let above = ScreenView { cursor_row: s.cursor_row - 1, ..s };
    let below = ScreenView { cursor_row: s.cursor_row + 1, ..s };
    if 0 < s.cursor_row {
        lemma_left_aligned_settles(above);
        lemma_left_aligned_settles(ScreenView { cursor_column: WIDTH - 1, ..above });
    }
    if s.cursor_row + 1 < HEIGHT {
        lemma_left_aligned_settles(below);
        lemma_left_aligned_settles(ScreenView { cursor_column: 0, ..below });
    }
    lemma_left_aligned_settles(s);
    lemma_left_aligned_settles(scrolled_up(s));
    lemma_left_aligned_settles(scrolled_down(s));
    lemma_left_aligned_settles(ScreenView { cursor_column: WIDTH - 1, ..scrolled_down(s) });
    if 0 < s.cursor_column {
        lemma_left_aligned_settles(ScreenView { cursor_column: s.cursor_column - 1, ..s });
    }
    if s.cursor_column + 1 < WIDTH {
        lemma_left_aligned_settles(ScreenView { cursor_column: s.cursor_column + 1, ..s });
        let start = ScreenView { cursor_column: 0, ..s };
        lemma_scrolled_up_fits(start);
        lemma_left_aligned_settles(start);
        lemma_left_aligned_settles(scrolled_up(start));
        if s.cursor_row + 1 < HEIGHT {
            lemma_left_aligned_settles(ScreenView { cursor_row: s.cursor_row + 1, ..start });
        }
        lemma_left_aligned_settles(cursor_moved_down(start));
    }
}

/// Scrolling the view keeps a settled screen settled.
pub proof fn lemma_view_scrolls_settle(s: ScreenView)
    requires
        screen_settled(s),
    ensures
        screen_settled(view_scrolled_up(s)),
        screen_settled(view_scrolled_down(s)),
{
    lemma_scrolled_up_fits(s);
    lemma_scrolled_down_fits(s);
    let up = scrolled_up(s);
    let down = scrolled_down(s);
    lemma_left_aligned_settles(up);
    lemma_left_aligned_settles(down);
    if 0 < up.cursor_row {
        lemma_left_aligned_settles(ScreenView { cursor_row: up.cursor_row - 1, ..up });
    }
    if down.cursor_row + 1 < HEIGHT {
        lemma_left_aligned_settles(ScreenView { cursor_row: down.cursor_row + 1, ..down });
    }
}

/// Taking out the cell under the cursor, or the one before it, keeps a
/// settled screen settled.
pub proof fn lemma_deletions_settle(s: ScreenView)
    requires
        screen_settled(s),
    ensures
        screen_settled(suppressed(s)),
        screen_settled(deleted(s)),
{
    lemma_shifted_leftward_fits(s, s.cursor_row, s.cursor_column);
    lemma_cursor_moves_settle(s);
    let back = cursor_moved_left(s);
    lemma_shifted_leftward_fits(back, back.cursor_row, back.cursor_column);
}

/// Showing the cursor in a color keeps a settled screen settled.
pub proof fn lemma_cursor_shown_settles(s: ScreenView, color: Color)
    requires
        screen_settled(s),
    ensures
        screen_settled(with_cursor_shown(s, color)),
{
    let shown = with_cursor_shown(s, color);
    assert forall|r: int| 0 <= r < HEIGHT implies (#[trigger] shown.grid[r]).len() == WIDTH by {
        assert(s.grid[r].len() == WIDTH);
    }
}

/// Whatever byte a settled screen takes, it stays settled.
pub proof fn lemma_byte_taken_settles(s: ScreenView, c: u8)
    requires
        screen_settled(s),
    ensures
        screen_settled(byte_taken(s, c)),
{
    lemma_byte_written_settles(s, c);
    lemma_byte_written_settles(s, 0x20);
    lemma_byte_written_settles(s, 0xfe);
    lemma_new_lined_settles(s);
    lemma_cursor_moves_settle(s);
    lemma_view_scrolls_settle(s);
    lemma_deletions_settle(s);
}

/// Whatever bytes a settled screen takes, it stays settled.
pub proof fn lemma_bytes_taken_settle(s: ScreenView, bytes: Seq<u8>)
    requires
        screen_settled(s),
    ensures
        screen_settled(bytes_taken(s, bytes)),
    decreases bytes.len(),
{
    if bytes.len() > 0 {
        lemma_bytes_taken_settle(s, bytes.drop_last());
        lemma_byte_taken_settles(bytes_taken(s, bytes.drop_last()), bytes.last());
    }
}

/// A new screen is settled, and whatever stream is written to a settled
/// screen, it stays settled: the cursor lies in the grid and rests at the
/// start of its row or behind a full cell, and the scrollback keeps within
/// its capacity, its split point among its rows.
pub proof fn lemma_stream_written_settles(s: ScreenView, bytes: Seq<u8>)
    requires
        screen_settled(s),
    ensures
        screen_settled(fresh_screen()),
        screen_settled(stream_written(s, bytes)),
{
    lemma_cursor_shown_settles(s, Color::Black);
    let start = with_cursor_shown(s, Color::Black);
    lemma_bytes_taken_settle(start, bytes);
    lemma_cursor_shown_settles(bytes_taken(start, bytes), Color::Black_on_White);
}

// ===== Text without holes =====

/// Whether the full cells of `row` come before its empty ones.
pub open spec fn row_is_text(row: Seq<Cell>) -> bool {
    forall|i: int, j: int|
        #![trigger row[i], row[j]]
        0 <= i < j < row.len() && row[j].0 != 0 ==> row[i].0 != 0
}

/// Whether each of `rows` is text.
pub open spec fn rows_are_text(rows: Seq<Seq<Cell>>) -> bool {
    forall|r: int| 0 <= r < rows.len() ==> row_is_text(#[trigger] rows[r])
}

/// A settled screen whose rows, in the grid and in the scrollback, have no
/// empty cell before a full one.
pub open spec fn screen_tidy(s: ScreenView) -> bool {
    &&& screen_settled(s)
    &&& rows_are_text(s.grid)
    &&& rows_are_text(s.history.rows)
}

/// On a tidy screen no cell before the cursor, in its row, is empty.
pub proof fn lemma_tidy_cursor(s: ScreenView)
    requires
        screen_tidy(s),
    ensures
        forall|i: int| 0 <= i < s.cursor_column ==> s.grid[s.cursor_row][i].0 != 0,
{
    let row = s.grid[s.cursor_row];
    assert(row_is_text(row));
    assert(row.len() == WIDTH);
    assert forall|i: int| 0 <= i < s.cursor_column implies row[i].0 != 0 by {
        if i < s.cursor_column - 1 {
            assert(row[s.cursor_column - 1].0 != 0);
        }
    }
}

/// A row that a full cell enters at the front stays text.
pub proof fn lemma_pushed_front_text(row: Seq<Cell>, cell: Cell)
    requires
        row_is_text(row),
        cell.0 != 0,
    ensures
        row_is_text(pushed_front(row, cell)),
{
    let after = pushed_front(row, cell);
    assert forall|i: int, j: int|
        #![trigger after[i], after[j]]
        0 <= i < j < after.len() && after[j].0 != 0 implies after[i].0 != 0 by {
        if 0 < i {
            assert(row[j - 1].0 != 0);
            assert(row[i - 1].0 != 0);
        }
    }
}

/// Text with a full cell written behind a full cell, or at its start,
/// stays text.
pub proof fn lemma_updated_text(row: Seq<Cell>, column: int, cell: Cell)
    requires
        row_is_text(row),
        0 <= column < row.len(),
        cell.0 != 0,
        column == 0 || row[column - 1].0 != 0,
    ensures
        row_is_text(row.update(column, cell)),
{
    let after = row.update(column, cell);
    assert forall|i: int, j: int|
        #![trigger after[i], after[j]]
        0 <= i < j < after.len() && after[j].0 != 0 implies after[i].0 != 0 by {
        if i != column {
            if j == column {
                assert(row[column - 1].0 != 0);
                if i < column - 1 {
                    assert(row[i].0 != 0);
                }
            } else {
                assert(row[j].0 != 0);
                assert(row[i].0 != 0);
            }
        }
    }
}

/// Text in which a cell changes its attribute only stays text.
pub proof fn lemma_recolored_text(row: Seq<Cell>, column: int, color: Color)
    requires
        row_is_text(row),
        0 <= column < row.len(),
    ensures
        row_is_text(row.update(column, Cell(row[column].0, color))),
{
    let after = row.update(column, Cell(row[column].0, color));
    assert forall|i: int, j: int|
        #![trigger after[i], after[j]]
        0 <= i < j < after.len() && after[j].0 != 0 implies after[i].0 != 0 by {
        assert(row[j].0 != 0);
        assert(row[i].0 != 0);
    }
}

/// Text that was turned right behind a full cell, or at its start, is text
/// again once a full cell is written at the place of the turn.
pub proof fn lemma_insertion_text(row: Seq<Cell>, column: int, cell: Cell)
    requires
        row_is_text(row),
        0 <= column < row.len(),
        cell.0 != 0,
        column == 0 || row[column - 1].0 != 0,
    ensures
        row_is_text(rotate_right(row, column).update(column, cell)),
{
    let after = rotate_right(row, column).update(column, cell);
    assert forall|i: int, j: int|
        #![trigger after[i], after[j]]
        0 <= i < j < after.len() && after[j].0 != 0 implies after[i].0 != 0 by {
        if i < column {
            assert(row[column - 1].0 != 0);
            if i < column - 1 {
                assert(row[i].0 != 0);
            }
        } else if i > column {
            assert(row[j - 1].0 != 0);
            assert(row[i - 1].0 != 0);
        }
    }
}

/// A row without an empty cell is text however it is turned.
pub proof fn lemma_full_row_turned(row: Seq<Cell>, column: int)
    requires
        row_is_text(row),
        0 < row.len(),
        row.last().0 != 0,
        0 <= column,
    ensures
        forall|i: int| 0 <= i < row.len() ==> (#[trigger] rotate_right(row, column)[i]).0 != 0,
        row_is_text(rotate_right(row, column)),
{
    let after = rotate_right(row, column);
    assert forall|i: int| 0 <= i < row.len() implies (#[trigger] after[i]).0 != 0 by {
        assert(row[row.len() - 1].0 != 0);
        if i < row.len() - 1 {
            assert(row[i].0 != 0);
        }
        if 0 < i {
            assert(row[i - 1].0 != 0);
        }
    }
}

/// Text that is pulled left stays text, if a full cell enters only at the
/// end of a row without an empty cell.
pub proof fn lemma_pulled_left_text(row: Seq<Cell>, start: int, incoming: Cell)
    requires
        row_is_text(row),
        0 <= start < row.len(),
        incoming.0 != 0 ==> row.last().0 != 0,
    ensures
        row_is_text(super::screen::pulled_left(row, start, incoming)),
{
    let after = super::screen::pulled_left(row, start, incoming);
    assert forall|i: int, j: int|
        #![trigger after[i], after[j]]
        0 <= i < j < after.len() && after[j].0 != 0 implies after[i].0 != 0 by {
        if j == row.len() - 1 {
            assert(row[row.len() - 1].0 != 0);
            assert(row[i].0 != 0);
            assert(row[i + 1].0 != 0);
        } else {
            if j < start {
                assert(row[j].0 != 0);
                assert(row[i].0 != 0);
            } else {
                assert(row[j + 1].0 != 0);
                assert(row[i].0 != 0);
                assert(row[i + 1].0 != 0);
            }
        }
    }
}

/// An insertion in front of rows of text leaves rows of text.
pub proof fn lemma_cascade_right_text(rows: Seq<Seq<Cell>>, from: int, carry: Cell)
    requires
        rows_are_text(rows),
        0 <= from <= rows.len(),
    ensures
        rows_are_text(cascade_right(rows, from, carry)),
{
    if carry.0 != 0 {
        lemma_first_open_row_is_first(rows, from);
        let stop = first_open_row(rows, from);
        let after = cascade_right(rows, from, carry);
        assert forall|r: int| 0 <= r < after.len() implies row_is_text(#[trigger] after[r]) by {
            assert(row_is_text(rows[r]));
            if from <= r <= stop {
                if r == from {
                    lemma_pushed_front_text(rows[r], carry);
                } else {
                    assert(rows[r - 1].last().0 != 0);
                    lemma_pushed_front_text(rows[r], rows[r - 1].last());
                }
            }
        }
    }
}

/// A row that starts with a full cell and is empty after it is text.
pub proof fn lemma_row_starting_with_text(cell: Cell)
    ensures
        row_is_text(row_starting_with(cell)),
        row_is_text(blank_row()),
{
}

/// A scrollback of text stays one through an insertion.
pub proof fn lemma_history_shifted_text(h: HistoryView, capacity: int, carry: Cell)
    requires
        history_fits(h, capacity),
        rows_are_text(h.rows),
    ensures
        rows_are_text(history_shifted_rightward(h, capacity, carry).rows),
{
    lemma_cascade_right_text(h.rows, h.pivot, carry);
    let rows = cascade_right(h.rows, h.pivot, carry);
    let left = cascade_right_carry(h.rows, h.pivot, carry);
    lemma_row_starting_with_text(left);
    let after = history_shifted_rightward(h, capacity, carry).rows;
    assert forall|r: int| 0 <= r < after.len() implies row_is_text(#[trigger] after[r]) by {
        if left.0 != 0 {
            if rows.len() < capacity {
                if r < rows.len() {
                    assert(after[r] == rows[r]);
                }
            } else if 0 < h.pivot {
                if r < rows.len() - 1 {
                    assert(after[r] == rows[r + 1]);
                }
            }
        }
    }
}

/// Scrolling keeps the rows of the grid and of the scrollback text.
pub proof fn lemma_scrolls_text(s: ScreenView)
    requires
        screen_fits(s),
        rows_are_text(s.grid),
        rows_are_text(s.history.rows),
    ensures
        rows_are_text(scrolled_up(s).grid),
        rows_are_text(scrolled_up(s).history.rows),
        rows_are_text(scrolled_down(s).grid),
        rows_are_text(scrolled_down(s).history.rows),
{
    lemma_row_starting_with_text(blank());
    let up = scrolled_up(s);
    assert(row_is_text(s.grid[0]));
    assert(row_is_text(s.grid[HEIGHT - 1]));
    assert forall|r: int| 0 <= r < up.grid.len() implies row_is_text(#[trigger] up.grid[r]) by {
        if r < HEIGHT - 1 {
            assert(up.grid[r] == s.grid[r + 1]);
        } else if s.history.pivot < s.history.rows.len() {
            assert(row_is_text(s.history.rows[s.history.pivot]));
        }
    }
    assert forall|r: int| 0 <= r < up.history.rows.len() implies row_is_text(
        #[trigger] up.history.rows[r],
    ) by {
        if s.history.pivot < s.history.rows.len() {
            if r != s.history.pivot {
                assert(up.history.rows[r] == s.history.rows[r]);
            }
        } else if s.history.rows.len() < HISTORY_CAPACITY {
            if r < s.history.rows.len() {
                assert(up.history.rows[r] == s.history.rows[r]);
            }
        } else {
            if r < s.history.rows.len() - 1 {
                assert(up.history.rows[r] == s.history.rows[r + 1]);
            }
        }
    }
    let down = scrolled_down(s);
    if 0 < s.history.pivot {
        assert forall|r: int| 0 <= r < down.grid.len() implies row_is_text(
            #[trigger] down.grid[r],
        ) by {
            if 0 < r {
                assert(down.grid[r] == s.grid[r - 1]);
            } else {
                assert(row_is_text(s.history.rows[s.history.pivot - 1]));
            }
        }
        assert forall|r: int| 0 <= r < down.history.rows.len() implies row_is_text(
            #[trigger] down.history.rows[r],
        ) by {
            if r != s.history.pivot - 1 {
                assert(down.history.rows[r] == s.history.rows[r]);
            }
        }
    }
}

/// Taking a cell out of a grid of text leaves a grid of text.
pub proof fn lemma_shifted_leftward_text(s: ScreenView, row: int, column: int)
    requires
        screen_fits(s),
        rows_are_text(s.grid),
        0 <= row < HEIGHT,
        0 <= column < WIDTH,
    ensures
        rows_are_text(shifted_leftward(s, row, column).grid),
{
    lemma_first_open_row_is_first(s.grid, row);
    let stop = last_joined_row(s.grid, row);
    let after = shifted_leftward_grid(s.grid, row, column);
    assert forall|r: int| 0 <= r < after.len() implies row_is_text(#[trigger] after[r]) by {
        assert(row_is_text(s.grid[r]));
        assert(s.grid[r].len() == WIDTH);
        if row <= r <= stop {
            let start = if r == row {
                column
            } else {
                0
            };
            if r < stop {
                assert(s.grid[r].last().0 != 0);
                lemma_pulled_left_text(s.grid[r], start, s.grid[r + 1][0]);
            } else if s.grid[r].last().0 == 0 {
                lemma_pulled_left_text(s.grid[r], start, blank());
            } else {
                lemma_pulled_left_text(s.grid[r], start, s.grid[r][start]);
            }
        }
    }
}

/// Writing a byte that is not the empty marker keeps a tidy screen tidy.
pub proof fn lemma_byte_written_tidy(s: ScreenView, c: u8)
    requires
        screen_tidy(s),
        c != 0,
    ensures
        screen_tidy(byte_written(s, c)),
{
    lemma_byte_written_settles(s, c);
    let row = s.cursor_row;
    let column = s.cursor_column;
    let line = s.grid[row];
    assert(line.len() == WIDTH);
    assert(row_is_text(line));
    let first = line.last();
    let turned = s.grid.update(row, rotate_right(line, column));
    let left = cascade_right_carry(turned, row + 1, first);
    let moved = ScreenView { grid: cascade_right(turned, row + 1, first), ..s };
    lemma_shifted_rightward_fits(s, row, column);
    let made = shifted_rightward(s, row, column);
    let cell = Cell(c, made.color);
    let put = ScreenView {
        grid: grid_with(made.grid, made.cursor_row, made.cursor_column, cell),
        ..made
    };
    if first.0 == 0 {
        assert(made.grid == turned);
        assert(made.cursor_row == row && made.cursor_column == column);
        lemma_insertion_text(line, column, cell);
        assert forall|r: int| 0 <= r < put.grid.len() implies row_is_text(
            #[trigger] put.grid[r],
        ) by {
            if r != row {
                assert(put.grid[r] == s.grid[r]);
            }
        }
        assert(rows_are_text(made.history.rows));
    } else {
        lemma_full_row_turned(line, column);
        assert forall|r: int| 0 <= r < turned.len() implies row_is_text(#[trigger] turned[r]) by {
            if r != row {
                assert(turned[r] == s.grid[r]);
            }
        }
        lemma_cascade_right_text(turned, row + 1, first);
        assert(moved.grid[row] == turned[row]) by {
            lemma_first_open_row_is_first(turned, row + 1);
        }
        assert forall|r: int| 0 <= r < HEIGHT implies (#[trigger] moved.grid[r]).len()
            == WIDTH by {
            assert(s.grid[r].len() == WIDTH);
            assert(turned[r].len() == WIDTH);
        }
        assert(screen_fits(moved));
        if left.0 == 0 {
        } else if s.history.rows.len() - s.history.pivot < HISTORY_CAPACITY {
            lemma_history_shifted_text(s.history, HISTORY_CAPACITY as int, left);
        } else {
            lemma_scrolled_up_fits(moved);
            lemma_scrolls_text(moved);
            let up = scrolled_up(moved);
            lemma_left_aligned_settles(up);
            let placed = if 0 < up.cursor_row {
                ScreenView { cursor_row: up.cursor_row - 1, ..up }
            } else {
                left_aligned(up)
            };
            if 0 < up.cursor_row {
                assert(up.grid[row - 1] == moved.grid[row]);
            }
            assert(screen_fits(placed));
            lemma_history_shifted_text(placed.history, HISTORY_CAPACITY as int, left);
        }
        assert(rows_are_text(made.grid));
        assert(rows_are_text(made.history.rows));
        assert(cursor_rests(made)) by {
            if !(left.0 != 0 && s.history.rows.len() - s.history.pivot >= HISTORY_CAPACITY) {
                assert(made.grid[row] == turned[row]);
            }
        }
        assert(row_is_text(made.grid[made.cursor_row]));
        assert(made.grid[made.cursor_row].len() == WIDTH);
        lemma_updated_text(made.grid[made.cursor_row], made.cursor_column, cell);
        assert forall|r: int| 0 <= r < put.grid.len() implies row_is_text(
            #[trigger] put.grid[r],
        ) by {
            if r != made.cursor_row {
                assert(put.grid[r] == made.grid[r]);
            }
        }
    }
    assert(rows_are_text(put.grid));
    assert(rows_are_text(put.history.rows));
    assert forall|r: int| 0 <= r < HEIGHT implies (#[trigger] put.grid[r]).len() == WIDTH by {
        assert(made.grid[r].len() == WIDTH);
    }
    assert(screen_fits(put));
    if made.cursor_column + 1 == WIDTH {
        lemma_scrolls_text(ScreenView { cursor_column: 0, ..put });
    }
}

/// Whatever byte a tidy screen takes, it stays tidy.
pub proof fn lemma_byte_taken_tidy(s: ScreenView, c: u8)
    requires
        screen_tidy(s),
    ensures
        screen_tidy(byte_taken(s, c)),
{
    lemma_byte_taken_settles(s, c);
    if c != 0 {
        lemma_byte_written_tidy(s, c);
    }
    lemma_byte_written_tidy(s, 0x20);
    lemma_byte_written_tidy(s, 0xfe);
    lemma_scrolls_text(s);
    lemma_scrolls_text(ScreenView { cursor_column: 0, ..s });
    lemma_shifted_leftward_text(s, s.cursor_row, s.cursor_column);
    lemma_cursor_moves_settle(s);
    let back = cursor_moved_left(s);
    assert(rows_are_text(back.grid) && rows_are_text(back.history.rows));
    lemma_shifted_leftward_text(back, back.cursor_row, back.cursor_column);
}

/// Whatever bytes a tidy screen takes, it stays tidy.
pub proof fn lemma_bytes_taken_tidy(s: ScreenView, bytes: Seq<u8>)
    requires
        screen_tidy(s),
    ensures
        screen_tidy(bytes_taken(s, bytes)),
    decreases bytes.len(),
{
    if bytes.len() > 0 {
        lemma_bytes_taken_tidy(s, bytes.drop_last());
        lemma_byte_taken_tidy(bytes_taken(s, bytes.drop_last()), bytes.last());
    }
}

/// Showing the cursor in a color keeps a tidy screen tidy.
pub proof fn lemma_cursor_shown_tidy(s: ScreenView, color: Color)
    requires
        screen_tidy(s),
    ensures
        screen_tidy(with_cursor_shown(s, color)),
{
    lemma_cursor_shown_settles(s, color);
    let shown = with_cursor_shown(s, color);
    assert(s.grid[s.cursor_row].len() == WIDTH);
    lemma_recolored_text(s.grid[s.cursor_row], s.cursor_column, color);
    assert forall|r: int| 0 <= r < shown.grid.len() implies row_is_text(
        #[trigger] shown.grid[r],
    ) by {
        if r != s.cursor_row {
            assert(shown.grid[r] == s.grid[r]);
        }
    }
}

/// A new screen is tidy, and whatever stream is written to a tidy screen,
/// it stays tidy: in every row the full cells come first, and no cell
/// before the cursor is empty.
pub proof fn lemma_stream_written_tidy(s: ScreenView, bytes: Seq<u8>)
    requires
        screen_tidy(s),
    ensures
        screen_tidy(fresh_screen()),
        screen_tidy(stream_written(s, bytes)),
{
    lemma_cursor_shown_tidy(s, Color::Black);
    let start = with_cursor_shown(s, Color::Black);
    lemma_bytes_taken_tidy(start, bytes);
    lemma_cursor_shown_tidy(bytes_taken(start, bytes), Color::Black_on_White);
    assert forall|r: int| 0 <= r < fresh_screen().grid.len() implies row_is_text(
        #[trigger] fresh_screen().grid[r],
    ) by {
        lemma_row_starting_with_text(blank());
    }
}

/// In the grid's last row, where a full cell falls out into a scrollback
/// that has room for it, closing the gap again gives back the grid as it
/// was: the cell that fell out is still at the place where room was made,
/// and goes back to the row's end.
pub proof fn lemma_shift_round_trip_in_last_row(s: ScreenView, column: int)
    requires
        screen_fits(s),
        0 <= column < WIDTH,
        s.grid[HEIGHT - 1].last().0 != 0,
        column == WIDTH - 1 || s.grid[HEIGHT - 1][WIDTH - 2].0 != 0,
        rows_below(s.history) < HISTORY_CAPACITY,
    ensures
        shifted_leftward(shifted_rightward(s, HEIGHT - 1, column), HEIGHT - 1, column).grid
            == s.grid,
{
    let row = HEIGHT - 1;
    let line = s.grid[row];
    assert(line.len() == WIDTH);
    let turned = s.grid.update(row, rotate_right(line, column));
    assert(cascade_right(turned, row + 1, line.last()) =~= turned);
    let made = shifted_rightward(s, row, column);
    assert(made.grid == turned);
    assert(turned[row].last().0 != 0);
    lemma_first_open_row(turned, row, HEIGHT as int);
    let back = shifted_leftward_grid(turned, row, column);
    assert(back[row] =~= line);
    assert(back =~= s.grid);
}

/// A row whose every cell equals the next one, and whose last cell is
/// `cell`, holds nothing but `cell`.
pub proof fn lemma_constant_row(row: Seq<Cell>, cell: Cell, i: int)
    requires
        0 <= i < row.len(),
        row.last() == cell,
        forall|k: int| 0 <= k < row.len() - 1 ==> #[trigger] row[k] == row[k + 1],
    ensures
        row[i] == cell,
    decreases row.len() - i,
{
    if i < row.len() - 1 {
        lemma_constant_row(row, cell, i + 1);
    }
}

/// In a grid of text, where the text that an insertion moves ends inside
/// the grid, making room and closing the gap again gives back the screen
/// exactly where the insertion is reversible.
pub proof fn lemma_shift_round_trip_exact(s: ScreenView, row: int, column: int)
    requires
        screen_fits(s),
        rows_are_text(s.grid),
        0 <= row < HEIGHT,
        0 <= column < WIDTH,
        first_open_row(s.grid, row) < HEIGHT,
    ensures
        shifted_leftward(shifted_rightward(s, row, column), row, column) == s
            <==> insertion_reversible(s.grid, row, column),
{
    let grid = s.grid;
    let end = first_open_row(grid, row);
    lemma_first_open_row_is_first(grid, row);
    assert forall|j: int| 0 <= j < HEIGHT implies (#[trigger] grid[j]).len() == WIDTH by {}
    assert forall|j: int| row <= j < end implies (#[trigger] grid[j])[WIDTH - 2].0 != 0 by {
        assert(row_is_text(grid[j]));
        assert(grid[j][WIDTH - 1].0 != 0);
    }
    if insertion_reversible(grid, row, column) {
        lemma_shift_round_trip(s, row, column);
    } else {
        lemma_room_made(s, row, column);
        let made = room_made(grid, row, column);
        let back = shifted_leftward_grid(made, row, column);
        assert(shifted_leftward(shifted_rightward(s, row, column), row, column).grid == back);
        assert forall|j: int| row <= j < end implies (#[trigger] made[j]).last().0 != 0 by {
            assert(grid[j].last().0 != 0);
            assert(grid[j][WIDTH - 2].0 != 0);
        }
        assert(made[end].last() == grid[end][WIDTH - 2]);
        lemma_first_open_row_is_first(made, row);
        let open = first_open_row(made, row);
        if grid[end][WIDTH - 2].0 == 0 {
            lemma_first_open_row(made, row, end);
            assert(back[end][WIDTH - 1] == blank());
            assert(back[end] != grid[end]);
        } else if end == HEIGHT - 1 {
            lemma_first_open_row(made, row, HEIGHT as int);
            assert(back[end][WIDTH - 1] == made[end][0]);
            assert(made[end][0] == grid[end - 1].last());
            assert(grid[end - 1].last().0 != 0);
            assert(back[end] != grid[end]);
        } else {
            assert(made[end + 1] == grid[end + 1]);
            assert(row_is_text(grid[end + 1]));
            assert(open > end) by {
                if open <= end {
                    assert(made[open].last().0 == 0);
                }
            }
            assert(back[end][WIDTH - 1] == grid[end + 1][0]);
            if grid[end + 1].last().0 != 0 {
                assert(grid[end + 1][WIDTH - 1].0 != 0);
                assert(grid[end + 1][0].0 != 0);
                assert(back[end] != grid[end]);
            } else {
                lemma_first_open_row(made, row, end + 1);
                if back == grid {
                    let next = grid[end + 1];
                    assert(back[end + 1] == next);
                    assert(back[end][WIDTH - 1] == grid[end][WIDTH - 1]);
                    assert(next[WIDTH - 1] == blank()) by {
                        assert(back[end + 1][WIDTH - 1] == blank());
                    }
                    assert forall|k: int| 0 <= k < next.len() - 1 implies #[trigger] next[k]
                        == next[k + 1] by {
                        assert(back[end + 1][k] == next[k + 1]);
                    }
                    assert forall|i: int| 0 <= i < WIDTH implies (#[trigger] grid[end + 1][i])
                        == blank() by {
                        lemma_constant_row(next, blank(), i);
                    }
                    assert(insertion_reversible(grid, row, column));
                }
            }
        }
    }
}

} // verus!
