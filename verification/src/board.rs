//! The Kakuro board: a rectangular grid of cells plus the cursor, with
//! wraparound navigation and the play operations.

use crate::cell::Cell;
use vstd::prelude::*;

verus! {

/// A playable Kakuro board.
///
/// The grid is rectangular and its shape never changes after construction;
/// only cell contents and the cursor move during play. The cursor always
/// indexes a valid cell.
#[derive(Clone)]
pub struct Board {
    /// Grid of cells, row major.
    pub grid: Vec<Vec<Cell>>,
    /// Number of rows in the grid.
    pub rows: usize,
    /// Number of columns in the grid.
    pub cols: usize,
    /// Cursor row index.
    pub cursor_row: usize,
    /// Cursor column index.
    pub cursor_col: usize,
}

impl View for Board {
    type V = Seq<Seq<Cell>>;

    open spec fn view(&self) -> Seq<Seq<Cell>> {
        Seq::new(self.grid@.len(), |r: int| self.grid@[r]@)
    }
}

/// The cursor coordinate one step forward, wrapping from the last index to
/// the first.
pub open spec fn wrap_inc(i: int, n: int) -> int {
    if i < n - 1 {
        i + 1
    } else {
        0
    }
}

/// The cursor coordinate one step backward, wrapping from the first index to
/// the last.
pub open spec fn wrap_dec(i: int, n: int) -> int {
    if i > 0 {
        i - 1
    } else {
        n - 1
    }
}

impl Board {
    /// The grid is a non-empty rectangle of well-formed cells, its dimensions
    /// fit the rendering coordinate space, and the cursor is inside it.
    pub open spec fn wf(self) -> bool {
        &&& 1 <= self.rows <= 0xFFFF_FFFF
        &&& 1 <= self.cols <= 0xFFFF_FFFF
        &&& self.grid@.len() == self.rows
        &&& forall|r: int| 0 <= r < self.rows ==> (#[trigger] self.grid@[r])@.len() == self.cols
        &&& forall|r: int, c: int|
            0 <= r < self.rows && 0 <= c < self.cols ==> (#[trigger] self@[r][c]).wf()
        &&& self.cursor_row < self.rows
        &&& self.cursor_col < self.cols
    }

    /// Builds a board from a rectangular grid with the cursor at the origin.
    pub fn new(grid: Vec<Vec<Cell>>, rows: usize, cols: usize) -> (b: Board)
        requires
            1 <= rows <= 0xFFFF_FFFF,
            1 <= cols <= 0xFFFF_FFFF,
            grid@.len() == rows,
            forall|r: int| 0 <= r < rows ==> (#[trigger] grid@[r])@.len() == cols,
            forall|r: int, c: int|
                0 <= r < rows && 0 <= c < cols ==> (#[trigger] grid@[r]@[c]).wf(),
        ensures
            b.grid == grid,
            b.rows == rows,
            b.cols == cols,
            b.cursor_row == 0,
            b.cursor_col == 0,
            b.wf(),
    {
        Board { grid, rows, cols, cursor_row: 0, cursor_col: 0 }
    }

    /// Returns a reference to the cell at `(row, col)`.
    pub fn cell(&self, row: usize, col: usize) -> (c: &Cell)
        requires
            self.wf(),
            row < self.rows,
            col < self.cols,
        ensures
            *c == self@[row as int][col as int],
    {
        &self.grid[row][col]
    }

    /// Returns a mutable reference to the cell at `(row, col)`.
    pub fn cell_mut(&mut self, row: usize, col: usize) -> (c: &mut Cell)
        requires
            old(self).wf(),
            row < old(self).rows,
            col < old(self).cols,
        ensures
            *c == old(self)@[row as int][col as int],
            final(self).rows == old(self).rows,
            final(self).cols == old(self).cols,
            final(self).cursor_row == old(self).cursor_row,
            final(self).cursor_col == old(self).cursor_col,
            final(self)@.len() == old(self)@.len(),
            forall|r: int| 0 <= r < old(self).rows ==> (#[trigger] final(self)@[r]).len()
                == old(self)@[r].len(),
            forall|r: int, c: int|
                0 <= r < old(self).rows && 0 <= c < old(self).cols && !(r == row && c == col)
                    ==> (#[trigger] final(self)@[r][c]) == old(self)@[r][c],
            final(self)@[row as int][col as int] == *final(c),
    {
        let row_ref = &mut self.grid[row];
        &mut row_ref[col]
    }

    /// Returns a mutable reference to the cell under the cursor.
    pub fn cur_cell(&mut self) -> (c: &mut Cell)
        requires
            old(self).wf(),
        ensures
            *c == old(self)@[old(self).cursor_row as int][old(self).cursor_col as int],
            final(self).rows == old(self).rows,
            final(self).cols == old(self).cols,
            final(self).cursor_row == old(self).cursor_row,
            final(self).cursor_col == old(self).cursor_col,
            final(self)@.len() == old(self)@.len(),
            forall|r: int| 0 <= r < old(self).rows ==> (#[trigger] final(self)@[r]).len()
                == old(self)@[r].len(),
            forall|r: int, c: int|
                0 <= r < old(self).rows && 0 <= c < old(self).cols && !(r
                    == old(self).cursor_row && c == old(self).cursor_col)
                    ==> (#[trigger] final(self)@[r][c]) == old(self)@[r][c],
            final(self)@[old(self).cursor_row as int][old(self).cursor_col as int] == *final(c),
    {
        let row = self.cursor_row;
        let col = self.cursor_col;
        let row_ref = &mut self.grid[row];
        &mut row_ref[col]
    }

    /// Moves the cursor one column to the right, wrapping to the first
    /// column past the last one.
    pub fn right(&mut self)
        requires
            old(self).wf(),
        ensures
            final(self).cursor_col as int == wrap_inc(
                old(self).cursor_col as int,
                old(self).cols as int,
            ),
            final(self).cursor_row == old(self).cursor_row,
            final(self).grid == old(self).grid,
            final(self).rows == old(self).rows,
            final(self).cols == old(self).cols,
            final(self).wf(),
    {
        self.cursor_col = if self.cursor_col < self.cols - 1 {
            self.cursor_col + 1
        } else {
            0
        };
        proof {
            assert(self@ =~= old(self)@);
        }
    }

    /// Moves the cursor one column to the left, wrapping to the last column
    /// past the first one.
    pub fn left(&mut self)
        requires
            old(self).wf(),
        ensures
            final(self).cursor_col as int == wrap_dec(
                old(self).cursor_col as int,
                old(self).cols as int,
            ),
            final(self).cursor_row == old(self).cursor_row,
            final(self).grid == old(self).grid,
            final(self).rows == old(self).rows,
            final(self).cols == old(self).cols,
            final(self).wf(),
    {
        self.cursor_col = if self.cursor_col > 0 {
            self.cursor_col - 1
        } else {
            self.cols - 1
        };
        proof {
            assert(self@ =~= old(self)@);
        }
    }

    /// Moves the cursor one row up, wrapping to the last row past the first
    /// one.
    pub fn up(&mut self)
        requires
            old(self).wf(),
        ensures
            final(self).cursor_row as int == wrap_dec(
                old(self).cursor_row as int,
                old(self).rows as int,
            ),
            final(self).cursor_col == old(self).cursor_col,
            final(self).grid == old(self).grid,
            final(self).rows == old(self).rows,
            final(self).cols == old(self).cols,
            final(self).wf(),
    {
        self.cursor_row = if self.cursor_row > 0 {
            self.cursor_row - 1
        } else {
            self.rows - 1
        };
        proof {
            assert(self@ =~= old(self)@);
        }
    }

    /// Moves the cursor one row down, wrapping to the first row past the
    /// last one.
    pub fn down(&mut self)
        requires
            old(self).wf(),
        ensures
            final(self).cursor_row as int == wrap_inc(
                old(self).cursor_row as int,
                old(self).rows as int,
            ),
            final(self).cursor_col == old(self).cursor_col,
            final(self).grid == old(self).grid,
            final(self).rows == old(self).rows,
            final(self).cols == old(self).cols,
            final(self).wf(),
    {
        self.cursor_row = if self.cursor_row < self.rows - 1 {
            self.cursor_row + 1
        } else {
            0
        };
        proof {
            assert(self@ =~= old(self)@);
        }
    }

    /// Clears the digit under the cursor; a clue cell is left untouched.
    pub fn backspace(&mut self)
        requires
            old(self).wf(),
        ensures
            final(self).wf(),
            final(self).rows == old(self).rows,
            final(self).cols == old(self).cols,
            final(self).cursor_row == old(self).cursor_row,
            final(self).cursor_col == old(self).cursor_col,
            final(self)@.len() == old(self)@.len(),
            forall|r: int| 0 <= r < old(self).rows ==> (#[trigger] final(self)@[r]).len()
                == old(self)@[r].len(),
            forall|r: int, c: int|
                0 <= r < old(self).rows && 0 <= c < old(self).cols && !(r
                    == old(self).cursor_row && c == old(self).cursor_col)
                    ==> (#[trigger] final(self)@[r][c]) == old(self)@[r][c],
            old(self)@[old(self).cursor_row as int][old(self).cursor_col as int].is_clue
                ==> *final(self) == *old(self),
            !old(self)@[old(self).cursor_row as int][old(self).cursor_col as int].is_clue
                ==> final(self)@[old(self).cursor_row as int][old(self).cursor_col as int] == (Cell {
                value: None,
                ..old(self)@[old(self).cursor_row as int][old(self).cursor_col as int]
            }),
    {
        let row = self.cursor_row;
        let col = self.cursor_col;
        if !self.cell(row, col).is_clue() {
            self.cur_cell().set_value(None);
            proof {
                assert forall|r: int|
                    0 <= r < self.rows implies (#[trigger] self.grid@[r])@.len() == self.cols by {
                    assert(self@[r].len() == old(self)@[r].len());
                    assert(old(self).grid@[r]@.len() == old(self).cols);
                }
                assert forall|r: int, c: int|
                    0 <= r < old(self).rows && 0 <= c < old(self).cols implies (#[trigger] self@[r][c]).wf() by {
                    assert(old(self)@[r][c].wf());
                    if !(r == row && c == col) {
                        assert(self@[r][c] == old(self)@[r][c]);
                    }
                }
            }
        }
    }

    /// Writes the digit for key `c` into the cell under the cursor; a clue
    /// cell is left untouched.
    pub fn number(&mut self, c: char)
        requires
            old(self).wf(),
            '1' <= c <= '9',
        ensures
            final(self).wf(),
            final(self).rows == old(self).rows,
            final(self).cols == old(self).cols,
            final(self).cursor_row == old(self).cursor_row,
            final(self).cursor_col == old(self).cursor_col,
            final(self)@.len() == old(self)@.len(),
            forall|r: int| 0 <= r < old(self).rows ==> (#[trigger] final(self)@[r]).len()
                == old(self)@[r].len(),
            forall|r2: int, c2: int|
                0 <= r2 < old(self).rows && 0 <= c2 < old(self).cols && !(r2
                    == old(self).cursor_row && c2 == old(self).cursor_col)
                    ==> (#[trigger] final(self)@[r2][c2]) == old(self)@[r2][c2],
            old(self)@[old(self).cursor_row as int][old(self).cursor_col as int].is_clue
                ==> *final(self) == *old(self),
            !old(self)@[old(self).cursor_row as int][old(self).cursor_col as int].is_clue
                ==> final(self)@[old(self).cursor_row as int][old(self).cursor_col as int] == (Cell {
                value: Some((c as int - 48) as u8),
                ..old(self)@[old(self).cursor_row as int][old(self).cursor_col as int]
            }),
    {
        let row = self.cursor_row;
        let col = self.cursor_col;
        if !self.cell(row, col).is_clue() {
            let d: u8 = (c as u8) - 48;
            self.cur_cell().set_value(Some(d));
            proof {
                assert forall|r: int|
                    0 <= r < self.rows implies (#[trigger] self.grid@[r])@.len() == self.cols by {
                    assert(self@[r].len() == old(self)@[r].len());
                    assert(old(self).grid@[r]@.len() == old(self).cols);
                }
                assert forall|r: int, c2: int|
                    0 <= r < old(self).rows && 0 <= c2 < old(self).cols implies (#[trigger] self@[r][c2]).wf() by {
                    assert(old(self)@[r][c2].wf());
                    if !(r == row && c2 == col) {
                        assert(self@[r][c2] == old(self)@[r][c2]);
                    }
                }
            }
        }
    }
}

} // verus!
