//! One text screen: a fixed grid of cells, a cursor, and a bounded
//! scrollback store that the grid scrolls against in both directions.

use vstd::prelude::*;
use super::Color;
use super::WriteError;
use super::theory::{lemma_left_at_origin, lemma_right_at_end, lemma_suppress_at_end};
use vstd::string::StringSliceAdditionalSpecFns;

verus! {

/// Number of rows of the visible grid.
pub const HEIGHT: usize = 25;

/// Number of cells in a row.
pub const WIDTH: usize = 80;

/// Number of rows a screen's scrollback can hold.
pub const HISTORY_CAPACITY: usize = 20;

// ===== Cell =====

/// A character byte and its attribute. A byte of zero marks unused space.
#[derive(Debug, Copy, Clone, PartialEq, Eq, Structural)]
pub struct Cell(pub u8, pub Color);

impl Default for Cell {
    fn default() -> (c: Cell)
        ensures
            c == blank(),
    {
        Cell(0, Color::Black)
    }
}

impl Cell {
    pub fn new_from(other: &Cell) -> (c: Cell)
        ensures
            c == *other,
    {
        Cell(other.0, other.1)
    }
}

/// The empty cell.
pub open spec fn blank() -> Cell {
    Cell(0, Color::Black)
}

/// A row of empty cells.
pub open spec fn blank_row() -> Seq<Cell> {
    Seq::new(WIDTH as nat, |i: int| blank())
}

/// Whether `c` is a printable character other than the space.
pub fn is_ascii_graphic(c: u8) -> (r: bool)
    ensures
        r == is_graphic(c),
{
    0x21 <= c && c <= 0x7e
}

/// Whether `c` is a space, a tab, a line feed, a form feed or a carriage
/// return.
pub fn is_ascii_whitespace(c: u8) -> (r: bool)
    ensures
        r == is_whitespace(c),
{
    c == 0x20 || c == 0x09 || c == 0x0a || c == 0x0c || c == 0x0d
}

// ===== Cursor =====

#[derive(Debug, Copy, Clone, PartialEq, Eq, Structural)]
pub struct Cursor {
    pub row: usize,
    pub column: usize,
}

// ===== Rows =====

/// `row` with the cells from `column` on moved one place right, the last
/// cell coming round to `column`.
pub open spec fn rotate_right(row: Seq<Cell>, column: int) -> Seq<Cell> {
    Seq::new(
        row.len(),
        |i: int|
            if i < column {
                row[i]
            } else if i == column {
                row[row.len() - 1]
            } else {
                row[i - 1]
            },
    )
}

/// `row` with the cells from `column` on moved one place left, the cell at
/// `column` going round to the end.
pub open spec fn rotate_left(row: Seq<Cell>, column: int) -> Seq<Cell> {
    Seq::new(
        row.len(),
        |i: int|
            if i < column {
                row[i]
            } else if i == row.len() - 1 {
                row[column]
            } else {
                row[i + 1]
            },
    )
}

pub fn copy_row(dst: &mut [Cell; WIDTH], src: &[Cell; WIDTH])
    ensures
        final(dst)@ == src@,
{
    let mut column: usize = 0;
    while column < WIDTH
        invariant
            column <= WIDTH,
            forall|i: int| 0 <= i < column ==> dst@[i] == src@[i],
        decreases WIDTH - column,
    {
        dst[column] = src[column];
        column += 1;
    }
    assert(dst@ =~= src@);
}

pub fn right_shift_row(row: &mut [Cell; WIDTH], column: usize)
    ensures
        final(row)@ == rotate_right(old(row)@, column as int),
{
    if column < WIDTH {
        let last_cell = row[WIDTH - 1];
        let mut i: usize = WIDTH - 1;
        while column < i
            invariant
                column <= i < WIDTH,
                forall|j: int| 0 <= j <= i ==> row@[j] == old(row)@[j],
                forall|j: int| i < j < WIDTH ==> row@[j] == old(row)@[j - 1],
            decreases i,
        {
            if row[i - 1] != row[i] {
                row[i] = row[i - 1];
            }
            i -= 1;
        }
        row[column] = last_cell;
    }
    assert(row@ =~= rotate_right(old(row)@, column as int));
}

pub fn left_shift_row(row: &mut [Cell; WIDTH], column: usize)
    ensures
        final(row)@ == rotate_left(old(row)@, column as int),
{
    if column < WIDTH {
        let first_cell = row[column];
        let mut i: usize = column;
        while i + 1 < WIDTH
            invariant
                column <= i < WIDTH,
                forall|j: int| 0 <= j < column ==> row@[j] == old(row)@[j],
                forall|j: int| column <= j < i ==> row@[j] == old(row)@[j + 1],
                forall|j: int| i <= j < WIDTH ==> row@[j] == old(row)@[j],
            decreases WIDTH - i,
        {
            if row[i + 1] != row[i] {
                row[i] = row[i + 1];
            }
            i += 1;
        }
        row[WIDTH - 1] = first_cell;
    }
    assert(row@ =~= rotate_left(old(row)@, column as int));
}

/// Moves `row` one place right as a whole: `cell` enters at the front, and
/// the cell that drops out at the end is returned.
pub fn push_front_row(row: &mut [Cell; WIDTH], cell: Cell) -> (fallen: Cell)
    ensures
        final(row)@ == pushed_front(old(row)@, cell),
        fallen == old(row)@.last(),
{
    right_shift_row(row, 0);
    let fallen = row[0];
    row[0] = cell;
    assert(row@ =~= pushed_front(old(row)@, cell));
    fallen
}

// ===== History =====

/// What a scrollback store holds: its rows, oldest first, and the split
/// point. Rows before `pivot` have scrolled off above the grid; rows from
/// `pivot` on wait below it.
pub struct HistoryView {
    pub rows: Seq<Seq<Cell>>,
    pub pivot: int,
}

/// The store after the grid's top row `upper` has scrolled into it. With
/// rows waiting below, `upper` takes the place of the first of them; with
/// room left it is appended; a full store drops its oldest row.
pub open spec fn history_pushed(h: HistoryView, capacity: int, upper: Seq<Cell>) -> HistoryView {
    if capacity <= 0 {
        h
    } else if h.pivot < h.rows.len() {
        HistoryView { rows: h.rows.update(h.pivot, upper), pivot: h.pivot + 1 }
    } else if h.rows.len() < capacity {
        HistoryView { rows: h.rows.push(upper), pivot: h.pivot + 1 }
    } else {
        HistoryView { rows: h.rows.subrange(1, h.rows.len() as int).push(upper), pivot: h.pivot }
    }
}

/// The row that a push hands back for the bottom of the grid: the first
/// row waiting below, or `lower` unchanged where there is none.
pub open spec fn history_push_lower(h: HistoryView, capacity: int, lower: Seq<Cell>) -> Seq<Cell> {
    if 0 < capacity && h.pivot < h.rows.len() {
        h.rows[h.pivot]
    } else {
        lower
    }
}

/// The store after its newest row above was taken back, the grid's bottom
/// row `lower` stored in its place as the first row waiting below.
pub open spec fn history_popped(h: HistoryView, lower: Seq<Cell>) -> HistoryView {
    if 0 < h.pivot {
        HistoryView { rows: h.rows.update(h.pivot - 1, lower), pivot: h.pivot - 1 }
    } else {
        h
    }
}

/// The row that a pop hands back for the top of the grid.
pub open spec fn history_pop_upper(h: HistoryView, upper: Seq<Cell>) -> Seq<Cell> {
    if 0 < h.pivot {
        h.rows[h.pivot - 1]
    } else {
        upper
    }
}

/// Index of the first row at or after `from` whose last cell is empty, or
/// the number of rows if there is none.
pub open spec fn first_open_row(rows: Seq<Seq<Cell>>, from: int) -> int
    decreases rows.len() - from,
{
    if from < 0 || from >= rows.len() {
        rows.len() as int
    } else if rows[from].last().0 == 0 {
        from
    } else {
        first_open_row(rows, from + 1)
    }
}

/// `row` moved one place right as a whole: `cell` enters at the front and
/// the last cell drops out.
pub open spec fn pushed_front(row: Seq<Cell>, cell: Cell) -> Seq<Cell> {
    Seq::new(row.len(), |i: int| if i == 0 { cell } else { row[i - 1] })
}

/// The rows after `carry` has been inserted in front of row `from`: each
/// row from there on takes the cell that fell out of the row before it,
/// up to and including the first row whose last cell was empty. An empty
/// `carry` changes nothing.
pub open spec fn cascade_right(rows: Seq<Seq<Cell>>, from: int, carry: Cell) -> Seq<Seq<Cell>> {
    if carry.0 == 0 {
        rows
    } else {
        let stop = first_open_row(rows, from);
        Seq::new(
            rows.len(),
            |j: int|
                if from <= j <= stop {
                    pushed_front(rows[j], if j == from { carry } else { rows[j - 1].last() })
                } else {
                    rows[j]
                },
        )
    }
}

/// The cell left over after `cascade_right`: empty where the insertion was
/// absorbed, else the cell that fell out of the last row.
pub open spec fn cascade_right_carry(rows: Seq<Seq<Cell>>, from: int, carry: Cell) -> Cell {
    if carry.0 == 0 {
        carry
    } else {
        let stop = first_open_row(rows, from);
        if stop < rows.len() {
            rows[stop].last()
        } else if from < rows.len() {
            rows.last().last()
        } else {
            carry
        }
    }
}

/// A row that holds `cell` and is empty after it.
pub open spec fn row_starting_with(cell: Cell) -> Seq<Cell> {
    blank_row().update(0, cell)
}

/// The store after `carry` has been inserted in front of the rows waiting
/// below. A cell that falls out of the last of them opens a new row at the
/// end; in a full store that costs the oldest row above, and where there is
/// none above the cell is lost.
pub open spec fn history_shifted_rightward(h: HistoryView, capacity: int, carry: Cell) -> HistoryView {
    let rows = cascade_right(h.rows, h.pivot, carry);
    let left = cascade_right_carry(h.rows, h.pivot, carry);
    if left.0 == 0 {
        HistoryView { rows, pivot: h.pivot }
    } else if rows.len() < capacity {
        HistoryView { rows: rows.push(row_starting_with(left)), pivot: h.pivot }
    } else if 0 < h.pivot {
        HistoryView {
            rows: rows.subrange(1, rows.len() as int).push(row_starting_with(left)),
            pivot: h.pivot - 1,
        }
    } else {
        HistoryView { rows, pivot: h.pivot }
    }
}

/// Number of rows held above the grid.
pub open spec fn rows_above(h: HistoryView) -> int {
    h.pivot
}

/// Number of rows held below the grid.
pub open spec fn rows_below(h: HistoryView) -> int {
    h.rows.len() - h.pivot
}

/// Whether `h` is a possible content of a store of `capacity` rows.
pub open spec fn history_fits(h: HistoryView, capacity: int) -> bool {
    &&& 0 <= h.pivot <= h.rows.len() <= capacity
    &&& forall|k: int| 0 <= k < h.rows.len() ==> (#[trigger] h.rows[k]).len() == WIDTH
}

/// If every row from `from` up to `k` has a full last cell, and `k` is
/// past the end or has an empty last cell, then `k` is the first open row.
pub proof fn lemma_first_open_row(rows: Seq<Seq<Cell>>, from: int, k: int)
    requires
        0 <= from <= k <= rows.len(),
        forall|j: int| from <= j < k ==> (#[trigger] rows[j]).last().0 != 0,
        k < rows.len() ==> rows[k].last().0 == 0,
    ensures
        first_open_row(rows, from) == k,
    decreases k - from,
{
    if from < k {
        assert(rows[from].last().0 != 0);
        lemma_first_open_row(rows, from + 1, k);
    }
}

/// State of an insertion that has worked through the rows `from..idx` of
/// `before`: these rows of `now` have moved right, the others are as they
/// were, and `carry` is the cell waiting to enter row `idx`.
pub open spec fn cascading(
    before: Seq<Seq<Cell>>,
    now: Seq<Seq<Cell>>,
    from: int,
    idx: int,
    first: Cell,
    carry: Cell,
) -> bool {
    &&& now.len() == before.len()
    &&& 0 <= from <= idx <= before.len()
    &&& carry == (if idx == from {
        first
    } else {
        before[idx - 1].last()
    })
    &&& forall|j: int| from <= j < idx - 1 ==> (#[trigger] before[j]).last().0 != 0
    &&& idx > from ==> first.0 != 0
    &&& forall|k: int|
        0 <= k < now.len() ==> #[trigger] now[k] == (if from <= k < idx {
            pushed_front(
                before[k],
                if k == from {
                    first
                } else {
                    before[k - 1].last()
                },
            )
        } else {
            before[k]
        })
}

/// An insertion that cannot go on, because the carry is empty or the rows
/// have run out, has produced `cascade_right` and its left-over cell.
pub proof fn lemma_cascading_done(
    before: Seq<Seq<Cell>>,
    now: Seq<Seq<Cell>>,
    from: int,
    idx: int,
    first: Cell,
    carry: Cell,
)
    requires
        cascading(before, now, from, idx, first, carry),
        carry.0 == 0 || idx == before.len(),
    ensures
        now == cascade_right(before, from, first),
        carry == cascade_right_carry(before, from, first),
{
    if first.0 != 0 {
        if carry.0 == 0 {
            lemma_first_open_row(before, from, idx - 1);
        } else {
            assert forall|j: int| from <= j < idx implies (#[trigger] before[j]).last().0 != 0 by {
                if j == idx - 1 {
                } else {
                }
            }
            lemma_first_open_row(before, from, idx);
        }
    }
    assert(now =~= cascade_right(before, from, first));
}

/// Bounded scrollback: a ring of `N` rows. `head` is the slot of the oldest
/// row, `length` the number of rows held, `pivot` the split between the rows
/// above the grid and those below it.
#[derive(Debug)]
pub struct History<const N: usize> {
    head: usize,
    length: usize,
    pivot: usize,
    circular_buffer: [[Cell; WIDTH]; N],
}

impl<const N: usize> History<N> {
    /// The ring's indices are consistent.
    pub closed spec fn wf(&self) -> bool {
        &&& self.pivot <= self.length <= N
        &&& (self.head < N || (N == 0 && self.head == 0))
    }

    /// Slot of the `k`-th oldest row.
    spec fn slot(&self, k: int) -> int {
        if self.head + k < N {
            self.head + k
        } else {
            self.head + k - N
        }
    }

    pub closed spec fn view(&self) -> HistoryView {
        HistoryView {
            rows: Seq::new(self.length as nat, |k: int| self.circular_buffer[self.slot(k)]@),
            pivot: self.pivot as int,
        }
    }

    /// A consistent store holds at most `N` rows, each `WIDTH` cells wide,
    /// and its split point lies among them.
    pub proof fn lemma_wf_fits(&self)
        requires
            self.wf(),
        ensures
            history_fits(self@, N as int),
    {
    }

    fn slot_of(&self, k: usize) -> (s: usize)
        requires
            self.wf(),
            k < N,
        ensures
            s == self.slot(k as int),
            s < N,
    {
        if k < N - self.head {
            self.head + k
        } else {
            k - (N - self.head)
        }
    }

    pub fn new() -> (h: Self)
        ensures
            h.wf(),
            h@.rows.len() == 0,
            h@.pivot == 0,
    {
        Self { head: 0, length: 0, pivot: 0, circular_buffer: [[Cell(0, Color::Black); WIDTH]; N] }
    }

    /// Number of rows above the grid.
    pub fn get_head_length(&self) -> (n: usize)
        requires
            self.wf(),
        ensures
            n == rows_above(self@),
    {
        self.pivot
    }

    /// Number of rows below the grid.
    pub fn get_tail_length(&self) -> (n: usize)
        requires
            self.wf(),
        ensures
            n == rows_below(self@),
    {
        self.length - self.pivot
    }

    /// Number of rows held.
    pub fn get_length(&self) -> (n: usize)
        requires
            self.wf(),
        ensures
            n == self@.rows.len(),
    {
        self.length
    }

    /// The cell at `column` of the `k`-th oldest row.
    pub fn get_cell(&self, k: usize, column: usize) -> (c: Cell)
        requires
            self.wf(),
            k < self@.rows.len(),
            column < WIDTH,
        ensures
            c == self@.rows[k as int][column as int],
    {
        let s: usize = self.slot_of(k);
        self.circular_buffer[s][column]
    }

    pub fn push_upper_row(&mut self, upper_row: &[Cell; WIDTH], lower_row: &mut [Cell; WIDTH])
        requires
            old(self).wf(),
        ensures
            final(self).wf(),
            final(self)@ == history_pushed(old(self)@, N as int, upper_row@),
            final(lower_row)@ == history_push_lower(old(self)@, N as int, old(lower_row)@),
    {
        if 0 < N {
            let target: usize = if self.pivot < N { self.slot_of(self.pivot) } else { self.head };
            if self.pivot < self.length {
                copy_row(lower_row, &self.circular_buffer[target]);
                self.pivot += 1;
            } else if self.length < N {
                self.length += 1;
                self.pivot += 1;
            } else {
                self.head = if self.head + 1 < N { self.head + 1 } else { 0 };
            }
            copy_row(&mut self.circular_buffer[target], upper_row);
            assert(self@.rows =~~= history_pushed(old(self)@, N as int, upper_row@).rows);
        }
    }

    pub fn pop_upper_row(&mut self, upper_row: &mut [Cell; WIDTH], lower_row: &[Cell; WIDTH])
        requires
            old(self).wf(),
        ensures
            final(self).wf(),
            final(self)@ == history_popped(old(self)@, lower_row@),
            final(upper_row)@ == history_pop_upper(old(self)@, old(upper_row)@),
    {
        if 0 < self.pivot {
            self.pivot -= 1;
            let source: usize = self.slot_of(self.pivot);
            copy_row(upper_row, &self.circular_buffer[source]);
            copy_row(&mut self.circular_buffer[source], lower_row);
            assert(self@.rows =~~= history_popped(old(self)@, lower_row@).rows);
        }
    }

    /// Moves the `k`-th oldest row one place right, `cell` entering at its
    /// front, and returns the cell that fell out at its end.
    fn push_front_at(&mut self, k: usize, cell: Cell) -> (fallen: Cell)
        requires
            old(self).wf(),
            k < old(self).length,
        ensures
            final(self).wf(),
            final(self).head == old(self).head,
            final(self).length == old(self).length,
            final(self).pivot == old(self).pivot,
            final(self)@.rows == old(self)@.rows.update(
                k as int,
                pushed_front(old(self)@.rows[k as int], cell),
            ),
            fallen == old(self)@.rows[k as int].last(),
    {
        let s: usize = self.slot_of(k);
        let fallen = push_front_row(&mut self.circular_buffer[s], cell);
        proof {
            assert forall|j: int| 0 <= j < self.length && j != k implies self@.rows[j] == old(
                self,
            )@.rows[j] by {
                assert(self.slot(j) != s);
            }
            assert(self@.rows =~= old(self)@.rows.update(
                k as int,
                pushed_front(old(self)@.rows[k as int], cell),
            ));
        }
        fallen
    }

    /// Overwrites slot `s` with a row that holds `cell` and nothing else.
    fn start_row_at(&mut self, s: usize, cell: Cell)
        requires
            s < N,
        ensures
            final(self).head == old(self).head,
            final(self).length == old(self).length,
            final(self).pivot == old(self).pivot,
            final(self).circular_buffer@[s as int]@ == row_starting_with(cell),
            forall|t: int|
                0 <= t < N && t != s ==> final(self).circular_buffer@[t] == old(
                    self,
                ).circular_buffer@[t],
    {
        let empty_row = [Cell(0, Color::Black);WIDTH];
        copy_row(&mut self.circular_buffer[s], &empty_row);
        self.circular_buffer[s][0] = cell;
        assert(self.circular_buffer@[s as int]@ =~= row_starting_with(cell));
    }

    /// Opens a row for `cell` after the last row held: in a free slot, or
    /// in the slot of the oldest row above. Where there is neither, the
    /// cell is dropped.
    fn open_row(&mut self, cell: Cell)
        requires
            old(self).wf(),
        ensures
            final(self).wf(),
            final(self)@ == (if old(self)@.rows.len() < N {
                HistoryView {
                    rows: old(self)@.rows.push(row_starting_with(cell)),
                    pivot: old(self)@.pivot,
                }
            } else if 0 < old(self)@.pivot {
                HistoryView {
                    rows: old(self)@.rows.subrange(1, old(self)@.rows.len() as int).push(
                        row_starting_with(cell),
                    ),
                    pivot: old(self)@.pivot - 1,
                }
            } else {
                old(self)@
            }),
    {
        let ghost shifted = self@.rows;
        if self.length < N {
            let s: usize = self.slot_of(self.length);
            self.start_row_at(s, cell);
            self.length += 1;
            proof {
                assert forall|j: int| 0 <= j < self.length - 1 implies self@.rows[j]
                    == shifted[j] by {
                    assert(self.slot(j) != s);
                }
                assert(self@.rows =~= shifted.push(row_starting_with(cell)));
            }
        } else if 0 < self.pivot {
            self.pivot -= 1;
            let s: usize = self.head;
            self.start_row_at(s, cell);
            self.head = if self.head + 1 < N {
                self.head + 1
            } else {
                0
            };
            proof {
                assert forall|j: int| 0 <= j < self.length - 1 implies self@.rows[j]
                    == shifted[j + 1] by {
                    assert(self.slot(j) != s);
                    assert(self.slot(j) == old(self).slot(j + 1));
                }
                assert(self@.rows =~= shifted.subrange(1, shifted.len() as int).push(
                    row_starting_with(cell),
                ));
            }
        }
    }

    /// Inserts `above_end_of_line`, the cell that fell out of the grid's
    /// last row, in front of the rows waiting below.
    pub fn shift_rightward(&mut self, above_end_of_line: Cell)
        requires
            old(self).wf(),
        ensures
            final(self).wf(),
            final(self)@ == history_shifted_rightward(old(self)@, N as int, above_end_of_line),
    {
        let ghost before = self@.rows;
        let ghost from = self.pivot as int;
        let mut carry = above_end_of_line;
        let mut idx: usize = self.pivot;
        while carry.0 != 0 && idx < self.get_length()
            invariant
                self.wf(),
                self@.pivot == from,
                from == old(self)@.pivot,
                before == old(self)@.rows,
                cascading(before, self@.rows, from, idx as int, above_end_of_line, carry),
            decreases before.len() - idx,
        {
            carry = self.push_front_at(idx, carry);
            idx += 1;
            assert(self@.rows.len() == before.len());
        }
        proof {
            lemma_cascading_done(before, self@.rows, from, idx as int, above_end_of_line, carry);
        }
        if carry.0 != 0 {
            self.open_row(carry);
        }
    }
}

// ===== Screen =====

/// What a screen holds: the visible grid as `HEIGHT` rows of `WIDTH` cells,
/// the cursor, the drawing color, the mode and the scrollback.
pub struct ScreenView {
    pub grid: Seq<Seq<Cell>>,
    pub cursor_row: int,
    pub cursor_column: int,
    pub color: Color,
    pub input_mode: bool,
    pub history: HistoryView,
}

/// Whether `s` is a possible content of a screen.
pub open spec fn screen_fits(s: ScreenView) -> bool {
    &&& s.grid.len() == HEIGHT
    &&& forall|r: int| 0 <= r < HEIGHT ==> (#[trigger] s.grid[r]).len() == WIDTH
    &&& 0 <= s.cursor_row < HEIGHT
    &&& 0 <= s.cursor_column < WIDTH
    &&& history_fits(s.history, HISTORY_CAPACITY as int)
}

/// A grid of empty cells.
pub open spec fn cleared_grid() -> Seq<Seq<Cell>> {
    Seq::new(HEIGHT as nat, |r: int| blank_row())
}

/// A screen as it is created: empty, in normal mode, cursor at the origin.
pub open spec fn fresh_screen() -> ScreenView {
    ScreenView {
        grid: cleared_grid(),
        cursor_row: 0,
        cursor_column: 0,
        color: Color::Black,
        input_mode: false,
        history: HistoryView { rows: Seq::empty(), pivot: 0 },
    }
}

/// The color after `color` in the rainbow cycle.
pub open spec fn next_rainbow_color(color: Color) -> Color {
    match color {
        Color::Black => Color::White,
        Color::White => Color::Red,
        Color::Red => Color::Yellow,
        Color::Yellow => Color::Green,
        Color::Green => Color::Cyan,
        Color::Cyan => Color::Blue,
        Color::Blue => Color::Magenta,
        Color::Magenta => Color::Black,
        Color::Black_on_White => Color::Black_on_White,
    }
}

/// The screen scrolled by one row toward its end: the top row goes into
/// the scrollback, and the first row waiting below, or an empty row, comes
/// in at the bottom.
pub open spec fn scrolled_up(s: ScreenView) -> ScreenView {
    ScreenView {
        grid: s.grid.subrange(1, HEIGHT as int).push(
            history_push_lower(s.history, HISTORY_CAPACITY as int, blank_row()),
        ),
        history: history_pushed(s.history, HISTORY_CAPACITY as int, s.grid[0]),
        ..s
    }
}

/// The screen scrolled by one row toward its start: the newest row above
/// comes back in at the top, and the bottom row goes to wait below. With
/// nothing above, nothing moves.
pub open spec fn scrolled_down(s: ScreenView) -> ScreenView {
    if 0 < s.history.pivot {
        ScreenView {
            grid: seq![s.history.rows[s.history.pivot - 1]] + s.grid.subrange(0, HEIGHT - 1),
            history: history_popped(s.history, s.grid[HEIGHT - 1]),
            ..s
        }
    } else {
        s
    }
}

/// The column nearest to `column`, going left, that is the row's start or
/// has a full cell before it.
pub open spec fn aligned_column(row: Seq<Cell>, column: int) -> int
    decreases column,
{
    if 0 < column && row[column - 1].0 == 0 {
        aligned_column(row, column - 1)
    } else {
        column
    }
}

/// The screen with its cursor drawn back over the empty cells before it.
pub open spec fn left_aligned(s: ScreenView) -> ScreenView {
    ScreenView { cursor_column: aligned_column(s.grid[s.cursor_row], s.cursor_column), ..s }
}

/// The screen after a line break: the cursor at the start of the next row,
/// the screen scrolling up where it stood in the last one.
pub open spec fn new_lined(s: ScreenView) -> ScreenView {
    if s.cursor_row + 1 < HEIGHT {
        ScreenView { cursor_row: s.cursor_row + 1, cursor_column: 0, ..s }
    } else {
        scrolled_up(ScreenView { cursor_column: 0, ..s })
    }
}

/// The screen after room was made at `row` and `column` for one cell. The
/// cells from there to the row's end move right, the last one coming round
/// to `column`, where the caller is to write. While the cell that fell out
/// is full it is inserted in front of the next row. One that falls out of
/// the last row goes to the rows waiting below; where the scrollback has
/// only such rows, the grid first scrolls up by one and the cursor follows.
pub open spec fn shifted_rightward(s: ScreenView, row: int, column: int) -> ScreenView {
    let first = s.grid[row].last();
    let turned = s.grid.update(row, rotate_right(s.grid[row], column));
    let left = cascade_right_carry(turned, row + 1, first);
    let moved = ScreenView { grid: cascade_right(turned, row + 1, first), ..s };
    if left.0 == 0 {
        moved
    } else if s.history.rows.len() - s.history.pivot < HISTORY_CAPACITY {
        ScreenView {
            history: history_shifted_rightward(s.history, HISTORY_CAPACITY as int, left),
            ..moved
        }
    } else {
        let up = scrolled_up(moved);
        let placed = if 0 < up.cursor_row {
            ScreenView { cursor_row: up.cursor_row - 1, ..up }
        } else {
            left_aligned(up)
        };
        ScreenView {
            history: history_shifted_rightward(placed.history, HISTORY_CAPACITY as int, left),
            ..placed
        }
    }
}

/// `row` with the cells after `start` moved one place left, `incoming`
/// entering at the end.
pub open spec fn pulled_left(row: Seq<Cell>, start: int, incoming: Cell) -> Seq<Cell> {
    Seq::new(
        row.len(),
        |i: int|
            if i < start {
                row[i]
            } else if i == row.len() - 1 {
                incoming
            } else {
                row[i + 1]
            },
    )
}

/// The last row that a deletion at `row` reaches: the first row from there
/// on whose last cell is empty, or the last row of the grid.
pub open spec fn last_joined_row(grid: Seq<Seq<Cell>>, row: int) -> int {
    let open = first_open_row(grid, row);
    if open < grid.len() {
        open
    } else {
        grid.len() - 1
    }
}

/// The grid after the cell at `row` and `column` was taken out. What
/// follows it moves one place left, each row taking the first cell of the
/// row below at its end, down to the last joined row. That row ends in
/// the empty cell if it ended in an empty one and something moved in it;
/// else its own cell stays at its end: the one that went round in the
/// grid's last row, or the one that was there where the place is the last
/// column, after which nothing follows.
pub open spec fn shifted_leftward_grid(grid: Seq<Seq<Cell>>, row: int, column: int) -> Seq<
    Seq<Cell>,
> {
    let stop = last_joined_row(grid, row);
    Seq::new(
        grid.len(),
        |j: int|
            if row <= j <= stop {
                let start = if j == row {
                    column
                } else {
                    0
                };
                pulled_left(
                    grid[j],
                    start,
                    if j < stop {
                        grid[j + 1][0]
                    } else if grid[j].last().0 == 0 && start < grid[j].len() - 1 {
                        blank()
                    } else {
                        grid[j][start]
                    },
                )
            } else {
                grid[j]
            },
    )
}

pub open spec fn shifted_leftward(s: ScreenView, row: int, column: int) -> ScreenView {
    ScreenView { grid: shifted_leftward_grid(s.grid, row, column), ..s }
}

/// `grid` with `cell` at `row` and `column`.
pub open spec fn grid_with(grid: Seq<Seq<Cell>>, row: int, column: int, cell: Cell) -> Seq<
    Seq<Cell>,
> {
    grid.update(row, grid[row].update(column, cell))
}

/// The screen after one byte was inserted at the cursor in the current
/// color, the cursor moving on and wrapping at the row's end.
pub open spec fn byte_written(s: ScreenView, c: u8) -> ScreenView {
    let made = shifted_rightward(s, s.cursor_row, s.cursor_column);
    let put = ScreenView {
        grid: grid_with(made.grid, made.cursor_row, made.cursor_column, Cell(c, made.color)),
        ..made
    };
    if made.cursor_column + 1 == WIDTH {
        new_lined(put)
    } else {
        ScreenView { cursor_column: made.cursor_column + 1, ..put }
    }
}

pub open spec fn cursor_moved_up(s: ScreenView) -> ScreenView {
    left_aligned(
        if 0 < s.cursor_row {
            ScreenView { cursor_row: s.cursor_row - 1, ..s }
        } else {
            scrolled_down(s)
        },
    )
}

pub open spec fn cursor_moved_down(s: ScreenView) -> ScreenView {
    left_aligned(
        if s.cursor_row + 1 < HEIGHT {
            ScreenView { cursor_row: s.cursor_row + 1, ..s }
        } else if s.history.pivot < s.history.rows.len() {
            scrolled_up(s)
        } else {
            s
        },
    )
}

/// The cursor one cell on. From an empty cell it goes to the start of the
/// next row, if there is one in the grid or below it; from the last column
/// likewise, the screen scrolling up in the last row.
pub open spec fn cursor_moved_right(s: ScreenView) -> ScreenView {
    left_aligned(
        if s.cursor_column + 1 < WIDTH {
            if s.grid[s.cursor_row][s.cursor_column].0 == 0 {
                if s.cursor_row + 1 < HEIGHT || s.history.pivot < s.history.rows.len() {
                    cursor_moved_down(ScreenView { cursor_column: 0, ..s })
                } else {
                    s
                }
            } else {
                ScreenView { cursor_column: s.cursor_column + 1, ..s }
            }
        } else if s.cursor_row + 1 < HEIGHT {
            ScreenView { cursor_row: s.cursor_row + 1, cursor_column: 0, ..s }
        } else if s.history.pivot < s.history.rows.len() {
            scrolled_up(s)
        } else {
            s
        },
    )
}

/// The cursor one cell back. From the first column it goes to the end of
/// the row before, the screen scrolling down in the first row if a row is
/// held above.
pub open spec fn cursor_moved_left(s: ScreenView) -> ScreenView {
    left_aligned(
        if 0 < s.cursor_column {
            ScreenView { cursor_column: s.cursor_column - 1, ..s }
        } else if 0 < s.cursor_row {
            ScreenView { cursor_row: s.cursor_row - 1, cursor_column: WIDTH - 1, ..s }
        } else if 0 < s.history.pivot {
            ScreenView { cursor_column: WIDTH - 1, ..scrolled_down(s) }
        } else {
            s
        },
    )
}

/// The screen after the cell under the cursor was taken out.
pub open spec fn suppressed(s: ScreenView) -> ScreenView {
    shifted_leftward(s, s.cursor_row, s.cursor_column)
}

/// The screen after the cell before the cursor was taken out. At the
/// origin with no row held above there is no such cell.
pub open spec fn deleted(s: ScreenView) -> ScreenView {
    if s.cursor_row == 0 && s.cursor_column == 0 && s.history.pivot <= 0 {
        s
    } else {
        suppressed(cursor_moved_left(s))
    }
}

/// Whether `c` is a printable character other than the space.
pub open spec fn is_graphic(c: u8) -> bool {
    0x21 <= c <= 0x7e
}

/// Whether `c` is a space, a tab, a line feed, a form feed or a carriage
/// return.
pub open spec fn is_whitespace(c: u8) -> bool {
    c == 0x20 || c == 0x09 || c == 0x0a || c == 0x0c || c == 0x0d
}

/// The screen after the view moved one row toward the start of the text,
/// the cursor staying on its row of text where the grid allows. With no
/// row held above, nothing moves.
pub open spec fn view_scrolled_up(s: ScreenView) -> ScreenView {
    if 0 < s.history.pivot {
        let down = scrolled_down(s);
        left_aligned(
            if down.cursor_row + 1 < HEIGHT {
                ScreenView { cursor_row: down.cursor_row + 1, ..down }
            } else {
                down
            },
        )
    } else {
        s
    }
}

/// The screen after the view moved one row toward the end of the text.
/// With no row waiting below, nothing moves.
pub open spec fn view_scrolled_down(s: ScreenView) -> ScreenView {
    if s.history.pivot < s.history.rows.len() {
        let up = scrolled_up(s);
        left_aligned(
            if 0 < up.cursor_row {
                ScreenView { cursor_row: up.cursor_row - 1, ..up }
            } else {
                up
            },
        )
    } else {
        s
    }
}

/// The screen after it has taken one byte of a stream. A printable byte is
/// inserted at the cursor and a line feed breaks the line. In input mode
/// eight control bytes edit and navigate, and other white space is
/// inserted as a space; in normal mode white space is inserted as it is.
/// Any other byte is inserted as the placeholder `0xfe`.
pub open spec fn byte_taken(s: ScreenView, c: u8) -> ScreenView {
    if is_graphic(c) {
        byte_written(s, c)
    } else if c == 0x0a {
        new_lined(s)
    } else if s.input_mode {
        if c == 0x08 {
            deleted(s)
        } else if c == 0x7f {
            suppressed(s)
        } else if c == 0x18 {
            cursor_moved_up(s)
        } else if c == 0x19 {
            cursor_moved_down(s)
        } else if c == 0x1a {
            cursor_moved_right(s)
        } else if c == 0x1b {
            cursor_moved_left(s)
        } else if c == 0x1e {
            view_scrolled_up(s)
        } else if c == 0x1f {
            view_scrolled_down(s)
        } else if is_whitespace(c) {
            byte_written(s, 0x20)
        } else {
            byte_written(s, 0xfe)
        }
    } else if is_whitespace(c) {
        byte_written(s, c)
    } else {
        byte_written(s, 0xfe)
    }
}

/// The screen after it has taken `bytes` one by one.
pub open spec fn bytes_taken(s: ScreenView, bytes: Seq<u8>) -> ScreenView
    decreases bytes.len(),
{
    if bytes.len() == 0 {
        s
    } else {
        byte_taken(bytes_taken(s, bytes.drop_last()), bytes.last())
    }
}

/// The screen with the cell under the cursor shown in `color`.
pub open spec fn with_cursor_shown(s: ScreenView, color: Color) -> ScreenView {
    ScreenView {
        grid: grid_with(
            s.grid,
            s.cursor_row,
            s.cursor_column,
            Cell(s.grid[s.cursor_row][s.cursor_column].0, color),
        ),
        ..s
    }
}

/// The screen after a whole stream was written: the cursor's highlight is
/// taken off the cell it stood on, the bytes are taken, and the cell under
/// the cursor's new place is highlighted.
pub open spec fn stream_written(s: ScreenView, bytes: Seq<u8>) -> ScreenView {
    with_cursor_shown(
        bytes_taken(with_cursor_shown(s, Color::Black), bytes),
        Color::Black_on_White,
    )
}

/// The screen after one line of the banner: the line, a line feed, and a
/// step of the rainbow.
pub open spec fn banner_line_written(s: ScreenView, line: Seq<u8>) -> ScreenView {
    let written = stream_written(stream_written(s, line), "\n".spec_bytes());
    ScreenView { color: next_rainbow_color(written.color), ..written }
}

/// The screen after the banner: eight lines, the first of them empty,
/// each in the next color of the rainbow.
pub open spec fn banner_written(s: ScreenView) -> ScreenView {
    let s1 = banner_line_written(s, "".spec_bytes());
    let s2 = banner_line_written(s1, "        :::      ::::::::".spec_bytes());
    let s3 = banner_line_written(s2, "      :+:      :+:    :+:".spec_bytes());
    let s4 = banner_line_written(s3, "    +:+ +:+         +:+".spec_bytes());
    let s5 = banner_line_written(s4, "  +#+  +:+       +#+".spec_bytes());
    let s6 = banner_line_written(s5, "+#+#+#+#+#+   +#+".spec_bytes());
    let s7 = banner_line_written(s6, "     #+#    #+#".spec_bytes());
    banner_line_written(s7, "    ###   ########.fr".spec_bytes())
}

#[derive(Debug)]
pub struct Screen {
    cursor: Cursor,
    color: Color,
    history: History<HISTORY_CAPACITY>,
    buff: [[Cell; WIDTH]; HEIGHT],
    input_mode: bool,
    addr: usize,
}

impl Screen {
    /// Number of cells of the grid.
    pub const LENGTH: usize = 2000;

    /// Number of bytes the grid takes in display memory.
    pub const SIZE: usize = 4000;

    pub closed spec fn view(&self) -> ScreenView {
        ScreenView {
            grid: Seq::new(HEIGHT as nat, |r: int| self.buff[r]@),
            cursor_row: self.cursor.row as int,
            cursor_column: self.cursor.column as int,
            color: self.color,
            input_mode: self.input_mode,
            history: self.history@,
        }
    }

    /// The cursor lies in the grid and the scrollback is consistent.
    pub closed spec fn wf(&self) -> bool {
        &&& self.cursor.row < HEIGHT
        &&& self.cursor.column < WIDTH
        &&& self.history.wf()
    }

    /// Address of the display memory that this screen stands for.
    pub closed spec fn base_address(&self) -> usize {
        self.addr
    }

    pub proof fn lemma_wf_fits(&self)
        requires
            self.wf(),
        ensures
            screen_fits(self@),
    {
        self.history.lemma_wf_fits();
    }

    pub fn new(addr: usize) -> (s: Self)
        ensures
            s.wf(),
            s@ == fresh_screen(),
            s.base_address() == addr,
    {
        let mut instance = Self {
            cursor: Cursor { row: 0, column: 0 },
            color: Color::Black,
            history: History::new(),
            buff: [[Cell(0, Color::Black);WIDTH];HEIGHT],
            input_mode: false,
            addr,
        };
        instance.clear();
        assert(instance@.history.rows =~= Seq::empty());
        instance
    }

    pub fn set_color(&mut self, color: Color)
        ensures
            final(self).wf() == old(self).wf(),
            final(self).base_address() == old(self).base_address(),
            final(self)@ == (ScreenView { color, ..old(self)@ }),
    {
        self.color = color;
    }

    pub fn set_input_mode(&mut self, input_mode: bool)
        ensures
            final(self).wf() == old(self).wf(),
            final(self).base_address() == old(self).base_address(),
            final(self)@ == (ScreenView { input_mode, ..old(self)@ }),
    {
        self.input_mode = input_mode;
    }

    pub fn set_next_rainbow_color(&mut self)
        ensures
            final(self).wf() == old(self).wf(),
            final(self).base_address() == old(self).base_address(),
            final(self)@ == (ScreenView {
                color: next_rainbow_color(old(self)@.color),
                ..old(self)@
            }),
    {
        self.color =
        match self.color {
            Color::Black => Color::White,
            Color::White => Color::Red,
            Color::Red => Color::Yellow,
            Color::Yellow => Color::Green,
            Color::Green => Color::Cyan,
            Color::Cyan => Color::Blue,
            Color::Blue => Color::Magenta,
            Color::Magenta => Color::Black,
            _ => self.color,
        }
    }

    /// Address of the display memory that this screen stands for.
    pub fn get_address(&self) -> (a: usize)
        ensures
            a == self.base_address(),
    {
        self.addr
    }

    pub fn get_cursor(&self) -> (c: Cursor)
        ensures
            c.row == self@.cursor_row,
            c.column == self@.cursor_column,
    {
        self.cursor
    }

    pub fn get_color(&self) -> (c: Color)
        ensures
            c == self@.color,
    {
        self.color
    }

    pub fn get_input_mode(&self) -> (m: bool)
        ensures
            m == self@.input_mode,
    {
        self.input_mode
    }

    /// The cell at `row` and `column` of the grid.
    pub fn get_cell(&self, row: usize, column: usize) -> (c: Cell)
        requires
            row < HEIGHT,
            column < WIDTH,
        ensures
            c == self@.grid[row as int][column as int],
    {
        self.buff[row][column]
    }

    /// The scrollback of this screen.
    pub fn get_history(&self) -> (h: &History<HISTORY_CAPACITY>)
        ensures
            h@ == self@.history,
            self.wf() ==> h.wf(),
    {
        &self.history
    }

    /// Empties every cell of the grid.
    pub fn clear(&mut self)
        ensures
            final(self).wf() == old(self).wf(),
            final(self).base_address() == old(self).base_address(),
            final(self)@ == (ScreenView { grid: cleared_grid(), ..old(self)@ }),
    {
        let default_cell = Cell(0, Color::Black);
        let mut row: usize = 0;
        while row < HEIGHT
            invariant
                row <= HEIGHT,
                default_cell == blank(),
                self.cursor == old(self).cursor,
                self.color == old(self).color,
                self.history == old(self).history,
                self.input_mode == old(self).input_mode,
                self.addr == old(self).addr,
                forall|r: int| 0 <= r < row ==> #[trigger] self.buff[r]@ == blank_row(),
            decreases HEIGHT - row,
        {
            let mut column: usize = 0;
            while column < WIDTH
                invariant
                    row < HEIGHT,
                    column <= WIDTH,
                    default_cell == blank(),
                    self.cursor == old(self).cursor,
                    self.color == old(self).color,
                    self.history == old(self).history,
                    self.input_mode == old(self).input_mode,
                    self.addr == old(self).addr,
                    forall|r: int| 0 <= r < row ==> #[trigger] self.buff[r]@ == blank_row(),
                    forall|c: int| 0 <= c < column ==> self.buff[row as int]@[c] == blank(),
                decreases WIDTH - column,
            {
                self.buff[row][column] = default_cell;
                column += 1;
            }
            assert(self.buff[row as int]@ =~= blank_row());
            row += 1;
        }
        assert(self@.grid =~= cleared_grid());
    }

    /// Scrolls the grid one row up against the scrollback.
    pub fn shift_upward(&mut self)
        requires
            old(self).wf(),
        ensures
            final(self).wf(),
            final(self).base_address() == old(self).base_address(),
            final(self)@ == scrolled_up(old(self)@),
    {
        let mut lower_row = [Cell(0, Color::Black);WIDTH];
        assert(lower_row@ =~= blank_row());
        self.history.push_upper_row(&self.buff[0], &mut lower_row);
        let mut row: usize = 0;
        while row + 1 < HEIGHT
            invariant
                row < HEIGHT,
                self.cursor == old(self).cursor,
                self.color == old(self).color,
                self.input_mode == old(self).input_mode,
                self.addr == old(self).addr,
                self.history.wf(),
                self.history@ == history_pushed(
                    old(self).history@,
                    HISTORY_CAPACITY as int,
                    old(self).buff[0]@,
                ),
                forall|r: int| 0 <= r < row ==> #[trigger] self.buff[r]@ == old(self).buff[r + 1]@,
                forall|r: int| row <= r < HEIGHT ==> #[trigger] self.buff[r]@ == old(self).buff[r]@,
            decreases HEIGHT - row,
        {
            let below = self.buff[row + 1];
            copy_row(&mut self.buff[row], &below);
            row += 1;
        }
        copy_row(&mut self.buff[HEIGHT - 1], &lower_row);
        assert(self@.grid =~= scrolled_up(old(self)@).grid);
    }

    /// Scrolls the grid one row down against the scrollback, if any row is
    /// held above.
    pub fn shift_downward(&mut self)
        requires
            old(self).wf(),
        ensures
            final(self).wf(),
            final(self).base_address() == old(self).base_address(),
            final(self)@ == scrolled_down(old(self)@),
    {
        if 0 < self.history.get_head_length() {
            let mut upper_row = [Cell(0, Color::Black);WIDTH];
            self.history.pop_upper_row(&mut upper_row, &self.buff[HEIGHT - 1]);
            let mut row: usize = HEIGHT - 1;
            while 0 < row
                invariant
                    row < HEIGHT,
                    self.cursor == old(self).cursor,
                    self.color == old(self).color,
                    self.input_mode == old(self).input_mode,
                    self.addr == old(self).addr,
                    self.history.wf(),
                    self.history@ == history_popped(
                        old(self).history@,
                        old(self).buff[HEIGHT - 1]@,
                    ),
                    forall|r: int|
                        row < r < HEIGHT ==> #[trigger] self.buff[r]@ == old(self).buff[r - 1]@,
                    forall|r: int| 0 <= r <= row ==> #[trigger] self.buff[r]@ == old(self).buff[r]@,
                decreases row,
            {
                let above = self.buff[row - 1];
                copy_row(&mut self.buff[row], &above);
                row -= 1;
            }
            copy_row(&mut self.buff[0], &upper_row);
            assert(self@.grid =~= scrolled_down(old(self)@).grid);
        }
    }

    /// Moves the cursor to the start of the next row, scrolling up where it
    /// stands in the last one.
    pub fn write_new_line(&mut self)
        requires
            old(self).wf(),
        ensures
            final(self).wf(),
            final(self).base_address() == old(self).base_address(),
            final(self)@ == new_lined(old(self)@),
    {
        self.cursor.column = 0;
        if self.cursor.row + 1 < HEIGHT {
            self.cursor.row += 1;
        } else {
            self.shift_upward();
        }
    }

    /// Draws the cursor back over the empty cells before it.
    pub fn left_align_cursor(&mut self)
        requires
            old(self).wf(),
        ensures
            final(self).wf(),
            final(self).base_address() == old(self).base_address(),
            final(self)@ == left_aligned(old(self)@),
    {
        while 0 < self.cursor.column && self.buff[self.cursor.row][self.cursor.column - 1].0 == 0
            invariant
                self.wf(),
                self.cursor.row == old(self).cursor.row,
                self.cursor.column <= old(self).cursor.column,
                self.color == old(self).color,
                self.input_mode == old(self).input_mode,
                self.addr == old(self).addr,
                self.history == old(self).history,
                self.buff == old(self).buff,
                aligned_column(self@.grid[self@.cursor_row], self.cursor.column as int)
                    == aligned_column(
                    old(self)@.grid[old(self)@.cursor_row],
                    old(self).cursor.column as int,
                ),
            decreases self.cursor.column,
        {
            self.cursor.column -= 1;
        }
    }

    /// Turns the cells of `row` from `column` on one place right.
    fn turn_row_right(&mut self, row: usize, column: usize)
        requires
            old(self).wf(),
            row < HEIGHT,
        ensures
            final(self).wf(),
            final(self).base_address() == old(self).base_address(),
            final(self)@ == (ScreenView {
                grid: old(self)@.grid.update(
                    row as int,
                    rotate_right(old(self)@.grid[row as int], column as int),
                ),
                ..old(self)@
            }),
    {
        right_shift_row(&mut self.buff[row], column);
        assert(self@.grid =~= old(self)@.grid.update(
            row as int,
            rotate_right(old(self)@.grid[row as int], column as int),
        ));
    }

    /// Turns the cells of `row` from `column` on one place left.
    fn turn_row_left(&mut self, row: usize, column: usize)
        requires
            old(self).wf(),
            row < HEIGHT,
        ensures
            final(self).wf(),
            final(self).base_address() == old(self).base_address(),
            final(self)@ == (ScreenView {
                grid: old(self)@.grid.update(
                    row as int,
                    rotate_left(old(self)@.grid[row as int], column as int),
                ),
                ..old(self)@
            }),
    {
        left_shift_row(&mut self.buff[row], column);
        assert(self@.grid =~= old(self)@.grid.update(
            row as int,
            rotate_left(old(self)@.grid[row as int], column as int),
        ));
    }

    /// Moves `row` one place right, `cell` entering at its front, and
    /// returns the cell that fell out.
    fn push_front_in(&mut self, row: usize, cell: Cell) -> (fallen: Cell)
        requires
            old(self).wf(),
            row < HEIGHT,
        ensures
            final(self).wf(),
            final(self).base_address() == old(self).base_address(),
            final(self)@ == (ScreenView {
                grid: old(self)@.grid.update(
                    row as int,
                    pushed_front(old(self)@.grid[row as int], cell),
                ),
                ..old(self)@
            }),
            fallen == old(self)@.grid[row as int].last(),
    {
        let fallen = push_front_row(&mut self.buff[row], cell);
        assert(self@.grid =~= old(self)@.grid.update(
            row as int,
            pushed_front(old(self)@.grid[row as int], cell),
        ));
        fallen
    }

    /// Overwrites the cell at `row` and `column`.
    fn put_cell(&mut self, row: usize, column: usize, cell: Cell)
        requires
            old(self).wf(),
            row < HEIGHT,
            column < WIDTH,
        ensures
            final(self).wf(),
            final(self).base_address() == old(self).base_address(),
            final(self)@ == (ScreenView {
                grid: grid_with(old(self)@.grid, row as int, column as int, cell),
                ..old(self)@
            }),
    {
        self.buff[row][column] = cell;
        assert(self@.grid[row as int] =~= old(self)@.grid[row as int].update(column as int, cell));
        assert(self@.grid =~= grid_with(old(self)@.grid, row as int, column as int, cell));
    }

    /// Makes room for one cell at `row` and `column`.
    pub fn shift_rightward(&mut self, row: usize, column: usize)
        requires
            old(self).wf(),
            row < HEIGHT,
            column < WIDTH,
        ensures
            final(self).wf(),
            final(self).base_address() == old(self).base_address(),
            final(self)@ == shifted_rightward(old(self)@, row as int, column as int),
    {
        let ghost first = self@.grid[row as int].last();
        self.turn_row_right(row, column);
        let ghost turned = self@.grid;
        let mut above_end_of_line = Cell::new_from(&self.buff[row][column]);
        let mut current: usize = row;
        proof {
            assert(above_end_of_line == turned[row as int][column as int]);
            self.lemma_wf_fits();
            old(self).lemma_wf_fits();
            assert(old(self)@.grid[row as int].len() == WIDTH);
            assert(above_end_of_line == first);
        }
        while above_end_of_line.0 != 0 && current + 1 < HEIGHT
            invariant
                self.wf(),
                row <= current < HEIGHT,
                self.base_address() == old(self).base_address(),
                self@ == (ScreenView { grid: self@.grid, ..old(self)@ }),
                turned.len() == HEIGHT,
                cascading(turned, self@.grid, row + 1, current + 1, first, above_end_of_line),
            decreases HEIGHT - current,
        {
            current += 1;
            above_end_of_line = self.push_front_in(current, above_end_of_line);
        }
        proof {
            lemma_cascading_done(
                turned,
                self@.grid,
                row + 1,
                current + 1,
                first,
                above_end_of_line,
            );
        }
        if above_end_of_line.0 != 0 {
            if 0 < HISTORY_CAPACITY - self.history.get_tail_length() {
                self.history.shift_rightward(above_end_of_line);
            } else {
                self.shift_upward();
                if 0 < self.cursor.row {
                    self.cursor.row -= 1;
                } else {
                    self.left_align_cursor();
                }
                self.history.shift_rightward(above_end_of_line);
            }
        }
    }

    /// Takes out the cell at `row` and `column`, closing the gap.
    pub fn shift_leftward(&mut self, row: usize, column: usize)
        requires
            old(self).wf(),
            row < HEIGHT,
            column < WIDTH,
        ensures
            final(self).wf(),
            final(self).base_address() == old(self).base_address(),
            final(self)@ == shifted_leftward(old(self)@, row as int, column as int),
    {
        let ghost before = self@.grid;
        proof {
            self.lemma_wf_fits();
        }
        let mut current_end_of_line = Cell::new_from(&self.buff[row][WIDTH - 1]);
        self.turn_row_left(row, column);
        let mut current: usize = row;
        while current_end_of_line.0 != 0 && current + 1 < HEIGHT
            invariant
                self.wf(),
                row <= current < HEIGHT,
                column < WIDTH,
                self.base_address() == old(self).base_address(),
                self@ == (ScreenView { grid: self@.grid, ..old(self)@ }),
                before == old(self)@.grid,
                screen_fits(old(self)@),
                self@.grid.len() == HEIGHT,
                current_end_of_line == before[current as int].last(),
                forall|j: int| row <= j < current ==> (#[trigger] before[j]).last().0 != 0,
                forall|j: int|
                    0 <= j < HEIGHT ==> #[trigger] self@.grid[j] == (if row <= j < current {
                        pulled_left(
                            before[j],
                            if j == row {
                                column as int
                            } else {
                                0
                            },
                            before[j + 1][0],
                        )
                    } else if j == current {
                        rotate_left(
                            before[j],
                            if j == row {
                                column as int
                            } else {
                                0
                            },
                        )
                    } else {
                        before[j]
                    }),
            decreases HEIGHT - current,
        {
            let below_start_of_line = Cell::new_from(&self.buff[current + 1][0]);
            let ghost turned = self@.grid[current as int];
            proof {
                assert(self@.grid[current + 1] == before[current + 1]);
                assert(below_start_of_line == self@.grid[current + 1][0]);
            }
            self.put_cell(current, WIDTH - 1, below_start_of_line);
            proof {
                assert(turned.update(WIDTH - 1, below_start_of_line) =~= pulled_left(
                    before[current as int],
                    if current == row {
                        column as int
                    } else {
                        0
                    },
                    before[current + 1][0],
                ));
            }
            current += 1;
            current_end_of_line = Cell::new_from(&self.buff[current][WIDTH - 1]);
            self.turn_row_left(current, 0);
        }
        let ghost start = if current == row {
            column as int
        } else {
            0
        };
        let ghost turned = self@.grid[current as int];
        let from: usize = if current == row {
            column
        } else {
            0
        };
        if current_end_of_line.0 == 0 {
            proof {
                lemma_first_open_row(before, row as int, current as int);
            }
            if from + 1 < WIDTH {
                self.put_cell(current, WIDTH - 1, Cell(0, Color::Black));
                proof {
                    assert(turned.update(WIDTH - 1, blank()) =~= pulled_left(
                        before[current as int],
                        start,
                        blank(),
                    ));
                }
            } else {
                proof {
                    assert(turned =~= pulled_left(
                        before[current as int],
                        start,
                        before[current as int][start],
                    ));
                }
            }
        } else {
            proof {
                lemma_first_open_row(before, row as int, HEIGHT as int);
                assert(turned =~= pulled_left(
                    before[current as int],
                    start,
                    before[current as int][start],
                ));
            }
        }
        assert(self@.grid =~= shifted_leftward_grid(before, row as int, column as int));
    }

    /// Inserts `c` at the cursor in the current color and moves the cursor
    /// on, to the next row after the last column.
    pub fn write_byte(&mut self, c: u8)
        requires
            old(self).wf(),
        ensures
            final(self).wf(),
            final(self).base_address() == old(self).base_address(),
            final(self)@ == byte_written(old(self)@, c),
    {
        self.shift_rightward(self.cursor.row, self.cursor.column);
        self.put_cell(self.cursor.row, self.cursor.column, Cell(c, self.color));
        if self.cursor.column + 1 == WIDTH {
            self.write_new_line();
        } else {
            self.cursor.column += 1;
        }
    }

    /// Takes out the cell under the cursor. On the last cell of the grid
    /// nothing follows that could move, and nothing changes.
    pub fn suppr_byte(&mut self)
        requires
            old(self).wf(),
        ensures
            final(self).wf(),
            final(self).base_address() == old(self).base_address(),
            final(self)@ == suppressed(old(self)@),
            old(self)@.cursor_row == HEIGHT - 1 && old(self)@.cursor_column == WIDTH - 1
                ==> final(self)@ == old(self)@,
    {
        proof {
            self.lemma_wf_fits();
            if self@.cursor_row == HEIGHT - 1 && self@.cursor_column == WIDTH - 1 {
                lemma_suppress_at_end(self@);
            }
        }
        self.shift_leftward(self.cursor.row, self.cursor.column);
    }

    /// Takes out the cell before the cursor, which moves onto its place.
    pub fn del_byte(&mut self)
        requires
            old(self).wf(),
        ensures
            final(self).wf(),
            final(self).base_address() == old(self).base_address(),
            final(self)@ == deleted(old(self)@),
            old(self)@.cursor_row == 0 && old(self)@.cursor_column == 0 && rows_above(
                old(self)@.history,
            ) == 0 ==> final(self)@ == old(self)@,
    {
        if 0 < self.cursor.row || 0 < self.cursor.column || 0 < self.history.get_head_length() {
            self.move_cursor_left();
            self.shift_leftward(self.cursor.row, self.cursor.column);
        }
    }

    pub fn move_cursor_up(&mut self)
        requires
            old(self).wf(),
        ensures
            final(self).wf(),
            final(self).base_address() == old(self).base_address(),
            final(self)@ == cursor_moved_up(old(self)@),
    {
        if 0 < self.cursor.row {
            self.cursor.row -= 1;
        } else if 0 < self.history.get_head_length() {
            self.shift_downward();
        }
        self.left_align_cursor();
    }

    pub fn move_cursor_down(&mut self)
        requires
            old(self).wf(),
        ensures
            final(self).wf(),
            final(self).base_address() == old(self).base_address(),
            final(self)@ == cursor_moved_down(old(self)@),
    {
        if self.cursor.row + 1 < HEIGHT {
            self.cursor.row += 1;
        } else if 0 < self.history.get_tail_length() {
            self.shift_upward();
        }
        self.left_align_cursor();
    }

    pub fn move_cursor_right(&mut self)
        requires
            old(self).wf(),
        ensures
            final(self).wf(),
            final(self).base_address() == old(self).base_address(),
            final(self)@ == cursor_moved_right(old(self)@),
            old(self)@.cursor_row == HEIGHT - 1 && old(self)@.cursor_column == WIDTH - 1
                && rows_below(old(self)@.history) == 0 && old(self)@.grid[HEIGHT - 1][WIDTH
                - 2].0 != 0 ==> final(self)@ == old(self)@,
    {
        proof {
            self.lemma_wf_fits();
            if self@.cursor_row == HEIGHT - 1 && self@.cursor_column == WIDTH - 1 && rows_below(
                self@.history,
            ) == 0 && self@.grid[HEIGHT - 1][WIDTH - 2].0 != 0 {
                lemma_right_at_end(self@);
            }
        }
        if self.cursor.column + 1 < WIDTH {
            if 0 == self.buff[self.cursor.row][self.cursor.column].0 {
                if self.cursor.row + 1 < HEIGHT || 0 < self.history.get_tail_length() {
                    self.cursor.column = 0;
                    self.move_cursor_down();
                }
            } else {
                self.cursor.column += 1;
            }
        } else if self.cursor.row + 1 < HEIGHT {
            self.cursor.row += 1;
            self.cursor.column = 0;
        } else if 0 < self.history.get_tail_length() {
            self.shift_upward();
        }
        self.left_align_cursor();
    }

    pub fn move_cursor_left(&mut self)
        requires
            old(self).wf(),
        ensures
            final(self).wf(),
            final(self).base_address() == old(self).base_address(),
            final(self)@ == cursor_moved_left(old(self)@),
            old(self)@.cursor_row == 0 && old(self)@.cursor_column == 0 && rows_above(
                old(self)@.history,
            ) == 0 ==> final(self)@ == old(self)@,
    {
        proof {
            self.lemma_wf_fits();
            if self@.cursor_row == 0 && self@.cursor_column == 0 && rows_above(self@.history)
                == 0 {
                lemma_left_at_origin(self@);
            }
        }
        if 0 < self.cursor.column {
            self.cursor.column -= 1;
        } else if 0 < self.cursor.row {
            self.cursor.row -= 1;
            self.cursor.column = WIDTH - 1;
        } else if 0 < self.history.get_head_length() {
            self.shift_downward();
            self.cursor.column = WIDTH - 1;
        }
        self.left_align_cursor();
    }

    /// Shows the cell under the cursor in `color`.
    fn show_cursor(&mut self, color: Color)
        requires
            old(self).wf(),
        ensures
            final(self).wf(),
            final(self).base_address() == old(self).base_address(),
            final(self)@ == with_cursor_shown(old(self)@, color),
    {
        let under = self.buff[self.cursor.row][self.cursor.column];
        self.put_cell(self.cursor.row, self.cursor.column, Cell(under.0, color));
    }

    /// Moves the view one row toward the start of the text.
    pub fn scroll_up(&mut self)
        requires
            old(self).wf(),
        ensures
            final(self).wf(),
            final(self).base_address() == old(self).base_address(),
            final(self)@ == view_scrolled_up(old(self)@),
    {
        if 0 < self.history.get_head_length() {
            self.shift_downward();
            if self.cursor.row + 1 < HEIGHT {
                self.cursor.row += 1;
            }
            self.left_align_cursor();
        }
    }

    /// Moves the view one row toward the end of the text.
    pub fn scroll_down(&mut self)
        requires
            old(self).wf(),
        ensures
            final(self).wf(),
            final(self).base_address() == old(self).base_address(),
            final(self)@ == view_scrolled_down(old(self)@),
    {
        if 0 < self.history.get_tail_length() {
            self.shift_upward();
            if 0 < self.cursor.row {
                self.cursor.row -= 1;
            }
            self.left_align_cursor();
        }
    }

    /// Takes one byte of a stream: draws it, or obeys it.
    pub fn take_byte(&mut self, c: u8)
        requires
            old(self).wf(),
        ensures
            final(self).wf(),
            final(self).base_address() == old(self).base_address(),
            final(self)@ == byte_taken(old(self)@, c),
    {
        if is_ascii_graphic(c) {
            self.write_byte(c);
        } else if 0x0a == c {
            self.write_new_line();
        } else if self.input_mode {
            if 0x08 == c {
                self.del_byte();
            } else if 0x7f == c {
                self.suppr_byte();
            } else if 0x18 == c {
                self.move_cursor_up();
            } else if 0x19 == c {
                self.move_cursor_down();
            } else if 0x1a == c {
                self.move_cursor_right();
            } else if 0x1b == c {
                self.move_cursor_left();
            } else if 0x1e == c {
                self.scroll_up();
            } else if 0x1f == c {
                self.scroll_down();
            } else if is_ascii_whitespace(c) {
                self.write_byte(0x20);
            } else {
                self.write_byte(0xfe);
            }
        } else if is_ascii_whitespace(c) {
            self.write_byte(c);
        } else {
            self.write_byte(0xfe);
        }
    }

    /// Writes a stream of bytes. The cursor's highlight moves once, from
    /// the cell where the cursor stood to the cell where it comes to rest.
    pub fn write_bytes(&mut self, bytes: &[u8])
        requires
            old(self).wf(),
        ensures
            final(self).wf(),
            final(self).base_address() == old(self).base_address(),
            final(self)@ == stream_written(old(self)@, bytes@),
    {
        self.show_cursor(Color::Black);
        let ghost start = self@;
        let mut i: usize = 0;
        while i < bytes.len()
            invariant
                self.wf(),
                self.base_address() == old(self).base_address(),
                i <= bytes.len(),
                self@ == bytes_taken(start, bytes@.subrange(0, i as int)),
            decreases bytes.len() - i,
        {
            proof {
                assert(bytes@.subrange(0, i + 1).drop_last() =~= bytes@.subrange(0, i as int));
            }
            self.take_byte(bytes[i]);
            i += 1;
        }
        assert(bytes@.subrange(0, i as int) =~= bytes@);
        self.show_cursor(Color::Black_on_White);
    }

    /// Writes the bytes of `s`.
    pub fn write_str(&mut self, s: &str) -> (r: Result<(), WriteError>)
        requires
            old(self).wf(),
        ensures
            r is Ok,
            final(self).wf(),
            final(self).base_address() == old(self).base_address(),
            final(self)@ == stream_written(old(self)@, s.spec_bytes()),
    {
        self.write_bytes(s.as_bytes());
        Ok(())
    }

    /// Writes one line of the banner and steps the rainbow.
    fn print_banner_line(&mut self, line: &str)
        requires
            old(self).wf(),
        ensures
            final(self).wf(),
            final(self).base_address() == old(self).base_address(),
            final(self)@ == banner_line_written(old(self)@, line.spec_bytes()),
    {
        let _ = self.write_str(line);
        let _ = self.write_str("\n");
        self.set_next_rainbow_color();
    }

    /// Writes the banner, each line in the next color of the rainbow.
    pub fn print_rainbow_42(&mut self)
        requires
            old(self).wf(),
        ensures
            final(self).wf(),
            final(self).base_address() == old(self).base_address(),
            final(self)@ == banner_written(old(self)@),
    {
        self.print_banner_line("");
        self.print_banner_line("        :::      ::::::::");
        self.print_banner_line("      :+:      :+:    :+:");
        self.print_banner_line("    +:+ +:+         +:+");
        self.print_banner_line("  +#+  +:+       +#+");
        self.print_banner_line("+#+#+#+#+#+   +#+");
        self.print_banner_line("     #+#    #+#");
        self.print_banner_line("    ###   ########.fr");
    }
}

} // verus!
