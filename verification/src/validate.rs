//! The run-based validator: the mathematical model of a run, its sum and
//! duplicate constraints, and the `check` pass that recomputes every clue
//! cell's correctness flags.

use crate::board::Board;
use crate::cell::Cell;
use vstd::prelude::*;

verus! {

/// The digit a cell contributes to its run: an empty playable cell (and a
/// clue cell) contributes zero.
pub open spec fn cell_digit(c: Cell) -> u8 {
    match c.value {
        Some(v) => v,
        None => 0,
    }
}

/// The index just past the run that starts at `i` in `line`: the first index
/// at or after `i` holding a clue cell, or the end of the line.
pub open spec fn run_end(line: Seq<Cell>, i: int) -> int
    recommends
        0 <= i <= line.len(),
    decreases line.len() - i,
{
    if i >= line.len() || line[i].is_clue {
        i
    } else {
        run_end(line, i + 1)
    }
}

/// The digits of the run that starts at `i` in `line`.
pub open spec fn run_digits(line: Seq<Cell>, i: int) -> Seq<u8> {
    Seq::new((run_end(line, i) - i) as nat, |k: int| cell_digit(line[i + k]))
}

/// Whether some digit occurs twice in `vals`.
pub open spec fn has_dup(vals: Seq<u8>) -> bool {
    exists|i: int, j: int| 0 <= i < j < vals.len() && vals[i] == vals[j]
}

/// The sum of `vals`.
pub open spec fn seq_sum(vals: Seq<u8>) -> int
    decreases vals.len(),
{
    if vals.len() == 0 {
        0
    } else {
        seq_sum(vals.drop_last()) + vals.last()
    }
}

/// Whether a run with digits `vals` breaks the constraint of a clue with
/// target `target`: a repeated digit, or a sum other than the target.
pub open spec fn run_bad(vals: Seq<u8>, target: u16) -> bool {
    has_dup(vals) || seq_sum(vals) != target as int
}

/// Column `c` of the grid, as a line of cells.
pub open spec fn col_line(g: Seq<Seq<Cell>>, c: int) -> Seq<Cell> {
    Seq::new(g.len(), |r: int| g[r][c])
}

/// Whether the across run owned by the clue cell at `(r, c)` breaks its
/// constraint. A clue without an across target owns no across run.
pub open spec fn a_bad(g: Seq<Seq<Cell>>, r: int, c: int) -> bool {
    match g[r][c].across_sum {
        Some(t) => run_bad(run_digits(g[r], c + 1), t),
        None => false,
    }
}

/// Whether the down run owned by the clue cell at `(r, c)` breaks its
/// constraint. A clue without a down target owns no down run.
pub open spec fn d_bad(g: Seq<Seq<Cell>>, r: int, c: int) -> bool {
    match g[r][c].down_sum {
        Some(t) => run_bad(run_digits(col_line(g, c), r + 1), t),
        None => false,
    }
}

/// Whether the cell at `(r, c)` raises no complaint: a clue cell must have
/// both of its runs satisfy their constraints.
pub open spec fn cell_ok(g: Seq<Seq<Cell>>, r: int, c: int) -> bool {
    g[r][c].is_clue ==> !a_bad(g, r, c) && !d_bad(g, r, c)
}

/// Whether every run of the board satisfies its clue's constraint.
pub open spec fn board_correct(g: Seq<Seq<Cell>>, rows: int, cols: int) -> bool {
    forall|r: int, c: int| 0 <= r < rows && 0 <= c < cols ==> #[trigger] cell_ok(g, r, c)
}

/// The cell at `(r, c)` as one validation pass over `g` leaves it: each
/// direction's flag is recomputed when the cell is a clue with a target in
/// that direction, and untouched otherwise.
pub open spec fn checked_cell(g: Seq<Seq<Cell>>, r: int, c: int) -> Cell {
    Cell {
        a_incorrect: if g[r][c].is_clue && g[r][c].across_sum is Some {
            a_bad(g, r, c)
        } else {
            g[r][c].a_incorrect
        },
        d_incorrect: if g[r][c].is_clue && g[r][c].down_sum is Some {
            d_bad(g, r, c)
        } else {
            g[r][c].d_incorrect
        },
        ..g[r][c]
    }
}

/// Whether two cells agree on everything the validator reads: the variant,
/// the digit and the sum targets (the verdict flags may differ).
pub open spec fn same_cell_content(c1: Cell, c2: Cell) -> bool {
    &&& c1.is_clue == c2.is_clue
    &&& c1.value == c2.value
    &&& c1.across_sum == c2.across_sum
    &&& c1.down_sum == c2.down_sum
}

/// Whether two grids of the same `rows x cols` shape agree cell by cell on
/// everything the validator reads.
pub open spec fn same_content(g1: Seq<Seq<Cell>>, g2: Seq<Seq<Cell>>, rows: int, cols: int) -> bool {
    &&& g1.len() == rows
    &&& g2.len() == rows
    &&& forall|r: int|
        0 <= r < rows ==> (#[trigger] g1[r]).len() == cols && (#[trigger] g2[r]).len() == cols
    &&& forall|r: int, c: int|
        0 <= r < rows && 0 <= c < cols ==> same_cell_content(
            #[trigger] g1[r][c],
            #[trigger] g2[r][c],
        )
}

/// Whether every cell strictly before `(r, c)` in row-major order raises no
/// complaint.
pub open spec fn prefix_ok(g: Seq<Seq<Cell>>, cols: int, r: int, c: int) -> bool {
    forall|r2: int, c2: int|
        0 <= r2 && 0 <= c2 < cols && (r2 < r || (r2 == r && c2 < c)) ==> #[trigger] cell_ok(
            g,
            r2,
            c2,
        )
}

/// The end of a run lies between its start and the end of the line, every
/// cell inside the run is playable, and the cell at the end (if any) is a
/// clue.
pub proof fn lemma_run_end(line: Seq<Cell>, i: int)
    requires
        0 <= i <= line.len(),
    ensures
        i <= run_end(line, i) <= line.len(),
        forall|k: int| i <= k < run_end(line, i) ==> !(#[trigger] line[k]).is_clue,
        run_end(line, i) < line.len() ==> line[run_end(line, i)].is_clue,
    decreases line.len() - i,
{
    if i < line.len() && !line[i].is_clue {
        lemma_run_end(line, i + 1);
    }
}

/// An index bounding a stretch of playable cells that is closed off by a
/// clue or the end of the line is exactly the end of the run.
pub proof fn lemma_run_end_at(line: Seq<Cell>, i: int, e: int)
    requires
        0 <= i <= e <= line.len(),
        forall|k: int| i <= k < e ==> !(#[trigger] line[k]).is_clue,
        e == line.len() || line[e].is_clue,
    ensures
        run_end(line, i) == e,
    decreases e - i,
{
    if i < e {
        lemma_run_end_at(line, i + 1, e);
    }
}

/// Two lines that agree on what the validator reads have the same runs.
pub proof fn lemma_run_same(l1: Seq<Cell>, l2: Seq<Cell>, i: int)
    requires
        l1.len() == l2.len(),
        0 <= i <= l1.len(),
        forall|k: int|
            0 <= k < l1.len() ==> same_cell_content(#[trigger] l1[k], #[trigger] l2[k]),
    ensures
        run_end(l1, i) == run_end(l2, i),
        run_digits(l1, i) == run_digits(l2, i),
    decreases l1.len() - i,
{
    if i < l1.len() && !l1[i].is_clue {
        lemma_run_same(l1, l2, i + 1);
    }
    lemma_run_end(l1, i);
    assert(run_digits(l1, i) =~= run_digits(l2, i));
}

/// Two grids that agree on what the validator reads have the same verdict on
/// every run.
pub proof fn lemma_bads_same(g1: Seq<Seq<Cell>>, g2: Seq<Seq<Cell>>, rows: int, cols: int, r: int, c: int)
    requires
        same_content(g1, g2, rows, cols),
        0 <= r < rows,
        0 <= c < cols,
    ensures
        a_bad(g1, r, c) == a_bad(g2, r, c),
        d_bad(g1, r, c) == d_bad(g2, r, c),
        cell_ok(g1, r, c) == cell_ok(g2, r, c),
{
    assert forall|k: int|
        0 <= k < g1[r].len() implies same_cell_content(#[trigger] g1[r][k], #[trigger] g2[r][k]) by {}
    lemma_run_same(g1[r], g2[r], c + 1);
    assert(col_line(g1, c).len() == col_line(g2, c).len());
    assert forall|k: int|
        0 <= k < col_line(g1, c).len() implies same_cell_content(
        #[trigger] col_line(g1, c)[k],
        #[trigger] col_line(g2, c)[k],
    ) by {
        assert(col_line(g1, c)[k] == g1[k][c]);
        assert(col_line(g2, c)[k] == g2[k][c]);
    }
    lemma_run_same(col_line(g1, c), col_line(g2, c), r + 1);
}

/// Reports whether some digit occurs twice in `vals`.
fn has_dup_vec(vals: &Vec<u8>) -> (b: bool)
    ensures
        b == has_dup(vals@),
{
    let n = vals.len();
    let mut j: usize = 0;
    while j < n
        invariant
            0 <= j <= n,
            n == vals@.len(),
            forall|a: int, b2: int| 0 <= a < b2 < j ==> vals@[a] != vals@[b2],
        decreases n - j,
    {
        let mut i: usize = 0;
        while i < j
            invariant
                0 <= i <= j < n,
                n == vals@.len(),
                forall|a: int, b2: int| 0 <= a < b2 < j ==> vals@[a] != vals@[b2],
                forall|a: int| 0 <= a < i ==> vals@[a] != vals@[j as int],
            decreases j - i,
        {
            if vals[i] == vals[j] {
                proof {
                    assert(vals@[i as int] == vals@[j as int]);
                }
                return true;
            }
            i += 1;
        }
        j += 1;
    }
    false
}

/// Sums the digits of a run.
fn sum_digits(vals: &Vec<u8>) -> (s: u64)
    requires
        vals@.len() <= 0xFFFF_FFFF,
        forall|k: int| 0 <= k < vals@.len() ==> vals@[k] <= 9,
    ensures
        s as int == seq_sum(vals@),
{
    let n = vals.len();
    let mut s: u64 = 0;
    let mut k: usize = 0;
    while k < n
        invariant
            0 <= k <= n,
            n == vals@.len(),
            vals@.len() <= 0xFFFF_FFFF,
            forall|k2: int| 0 <= k2 < vals@.len() ==> vals@[k2] <= 9,
            s as int == seq_sum(vals@.take(k as int)),
            s <= 9 * k,
        decreases n - k,
    {
        proof {
            assert(vals@.take(k as int + 1).drop_last() =~= vals@.take(k as int));
            assert(vals@.take(k as int + 1).last() == vals@[k as int]);
        }
        s = s + (vals[k] as u64);
        k += 1;
    }
    proof {
        assert(vals@.take(vals@.len() as int) =~= vals@);
    }
    s
}

/// Reports whether a run with digits `vals` breaks the constraint of a clue
/// with target `target`.
fn digits_bad(vals: &Vec<u8>, target: u16) -> (b: bool)
    requires
        vals@.len() <= 0xFFFF_FFFF,
        forall|k: int| 0 <= k < vals@.len() ==> vals@[k] <= 9,
    ensures
        b == run_bad(vals@, target),
{
    if has_dup_vec(vals) {
        return true;
    }
    let s = sum_digits(vals);
    s != (target as u64)
}

impl Board {
    /// Collects the digits of the across run that starts at `(r, start)`.
    fn collect_across(&self, r: usize, start: usize) -> (vals: Vec<u8>)
        requires
            self.wf(),
            r < self.rows,
            start <= self.cols,
        ensures
            vals@ == run_digits(self@[r as int], start as int),
            vals@.len() <= self.cols,
            forall|k: int| 0 <= k < vals@.len() ==> vals@[k] <= 9,
    {
        let mut vals: Vec<u8> = Vec::new();
        let mut c2: usize = start;
        proof {
            assert(self@[r as int] == self.grid@[r as int]@);
        }
        while c2 < self.cols && !self.grid[r][c2].is_clue
            invariant
                self.wf(),
                r < self.rows,
                start <= c2 <= self.cols,
                self@[r as int] == self.grid@[r as int]@,
                forall|k: int| start <= k < c2 ==> !(#[trigger] self@[r as int][k]).is_clue,
                vals@.len() == c2 - start,
                forall|k: int|
                    0 <= k < vals@.len() ==> (#[trigger] vals@[k]) == cell_digit(
                        self@[r as int][start + k],
                    ),
            decreases self.cols - c2,
        {
            let cell = &self.grid[r][c2];
            let v: u8 = match cell.value {
                Some(d) => d,
                None => 0,
            };
            vals.push(v);
            proof {
                assert(self@[r as int][c2 as int].wf());
            }
            c2 += 1;
        }
        proof {
            lemma_run_end_at(self@[r as int], start as int, c2 as int);
            assert(vals@ =~= run_digits(self@[r as int], start as int));
            assert forall|k: int| 0 <= k < vals@.len() implies vals@[k] <= 9 by {
                assert(self@[r as int][start + k].wf());
            }
        }
        vals
    }

    /// Collects the digits of the down run that starts at `(start, c)`.
    fn collect_down(&self, start: usize, c: usize) -> (vals: Vec<u8>)
        requires
            self.wf(),
            start <= self.rows,
            c < self.cols,
        ensures
            vals@ == run_digits(col_line(self@, c as int), start as int),
            vals@.len() <= self.rows,
            forall|k: int| 0 <= k < vals@.len() ==> vals@[k] <= 9,
    {
        let mut vals: Vec<u8> = Vec::new();
        let mut r2: usize = start;
        let ghost line = col_line(self@, c as int);
        proof {
            assert(line.len() == self.rows);
        }
        while r2 < self.rows && !self.grid[r2][c].is_clue
            invariant
                self.wf(),
                c < self.cols,
                start <= r2 <= self.rows,
                line == col_line(self@, c as int),
                line.len() == self.rows,
                forall|k: int| 0 <= k < line.len() ==> (#[trigger] line[k]) == self@[k][c as int],
                forall|k: int| start <= k < r2 ==> !(#[trigger] line[k]).is_clue,
                vals@.len() == r2 - start,
                forall|k: int|
                    0 <= k < vals@.len() ==> (#[trigger] vals@[k]) == cell_digit(line[start + k]),
            decreases self.rows - r2,
        {
            let cell = &self.grid[r2][c];
            let v: u8 = match cell.value {
                Some(d) => d,
                None => 0,
            };
            vals.push(v);
            proof {
                assert(self@[r2 as int][c as int].wf());
                assert(line[r2 as int] == self@[r2 as int][c as int]);
            }
            r2 += 1;
        }
        proof {
            lemma_run_end_at(line, start as int, r2 as int);
            assert(vals@ =~= run_digits(line, start as int));
            assert forall|k: int| 0 <= k < vals@.len() implies vals@[k] <= 9 by {
                assert(line[start + k] == self@[start + k][c as int]);
                assert(self@[start + k][c as int].wf());
            }
        }
        vals
    }

    /// Writes the across verdict into the clue cell at `(row, col)`.
    fn set_a_flag(&mut self, row: usize, col: usize, bad: bool)
        requires
            old(self).wf(),
            row < old(self).rows,
            col < old(self).cols,
            old(self)@[row as int][col as int].is_clue,
        ensures
            final(self).wf(),
            final(self).rows == old(self).rows,
            final(self).cols == old(self).cols,
            final(self).cursor_row == old(self).cursor_row,
            final(self).cursor_col == old(self).cursor_col,
            final(self)@.len() == old(self)@.len(),
            forall|r: int| 0 <= r < old(self).rows ==> (#[trigger] final(self)@[r]).len()
                == old(self)@[r].len(),
            forall|r: int, c: int|
                0 <= r < old(self).rows && 0 <= c < old(self).cols && !(r == row && c == col)
                    ==> (#[trigger] final(self)@[r][c]) == old(self)@[r][c],
            final(self)@[row as int][col as int] == (Cell {
                a_incorrect: bad,
                ..old(self)@[row as int][col as int]
            }),
    {
        let m = self.cell_mut(row, col);
        m.set_a_incorrect(bad);
        proof {
            assert forall|r: int|
                0 <= r < self.rows implies (#[trigger] self.grid@[r])@.len() == self.cols by {
                assert(self@[r].len() == old(self)@[r].len());
                assert(old(self).grid@[r]@.len() == old(self).cols);
            }
            assert forall|r: int, c: int|
                0 <= r < old(self).rows && 0 <= c < old(self).cols implies (#[trigger] self@[r][c]).wf() by {
                assert(old(self)@[r][c].wf());
                if !(r == row && c == col) {
                    assert(self@[r][c] == old(self)@[r][c]);
                }
            }
        }
    }

    /// Recomputes every clue cell's correctness flags from the current grid
    /// contents, independently for each direction that declares a target,
    /// and reports whether the whole board is correct.
    ///
    /// The pass keeps everything but the flags untouched, and returns `true`
    /// exactly when no flag was set: every run holds pairwise distinct
    /// digits (an empty playable cell counting as the digit zero) that add
    /// up to its clue's target.
    pub fn check(&mut self) -> (correct: bool)
        requires
            old(self).wf(),
        ensures
            final(self).wf(),
            final(self).rows == old(self).rows,
            final(self).cols == old(self).cols,
            final(self).cursor_row == old(self).cursor_row,
            final(self).cursor_col == old(self).cursor_col,
            final(self)@.len() == old(self)@.len(),
            forall|r: int| 0 <= r < old(self).rows ==> (#[trigger] final(self)@[r]).len()
                == old(self)@[r].len(),
            forall|r: int, c: int|
                0 <= r < old(self).rows && 0 <= c < old(self).cols
                    ==> (#[trigger] final(self)@[r][c]) == checked_cell(old(self)@, r, c),
            correct == board_correct(old(self)@, old(self).rows as int, old(self).cols as int),
    {
        let ghost g0 = old(self)@;
        let rows: usize = self.rows;
        let cols: usize = self.cols;
        let ghost rows_i: int = rows as int;
        let ghost cols_i: int = cols as int;
        let mut correct: bool = true;
        let mut r: usize = 0;
        while r < rows
            invariant
                self.wf(),
                rows == self.rows,
                cols == self.cols,
                self.rows == old(self).rows,
                self.cols == old(self).cols,
                self.cursor_row == old(self).cursor_row,
                self.cursor_col == old(self).cursor_col,
                g0 == old(self)@,
                rows_i == rows as int,
                cols_i == cols as int,
                same_content(g0, self@, rows_i, cols_i),
                0 <= r <= rows,
                forall|r2: int, c2: int|
                    0 <= r2 < rows_i && 0 <= c2 < cols_i && r2 < r
                        ==> (#[trigger] self@[r2][c2]) == checked_cell(g0, r2, c2),
                forall|r2: int, c2: int|
                    0 <= r2 < rows_i && 0 <= c2 < cols_i && r2 >= r
                        ==> (#[trigger] self@[r2][c2]) == g0[r2][c2],
                correct == prefix_ok(g0, cols_i, r as int, 0),
            decreases rows - r,
        {
            let mut c: usize = 0;
            while c < cols
                invariant
                    self.wf(),
                    rows == self.rows,
                    cols == self.cols,
                    self.rows == old(self).rows,
                    self.cols == old(self).cols,
                    self.cursor_row == old(self).cursor_row,
                    self.cursor_col == old(self).cursor_col,
                    g0 == old(self)@,
                    rows_i == rows as int,
                    cols_i == cols as int,
                    same_content(g0, self@, rows_i, cols_i),
                    0 <= r < rows,
                    0 <= c <= cols,
                    forall|r2: int, c2: int|
                        0 <= r2 < rows_i && 0 <= c2 < cols_i && (r2 < r || (r2 == r && c2 < c))
                            ==> (#[trigger] self@[r2][c2]) == checked_cell(g0, r2, c2),
                    forall|r2: int, c2: int|
                        0 <= r2 < rows_i && 0 <= c2 < cols_i && (r2 > r || (r2 == r && c2 >= c))
                            ==> (#[trigger] self@[r2][c2]) == g0[r2][c2],
                    correct == prefix_ok(g0, cols_i, r as int, c as int),
                decreases cols - c,
            {
                let ghost sb = self@;
                let ghost rr: int = r as int;
                let ghost cc: int = c as int;
                let ghost correct0 = correct;
                let a_sum: Option<u16> = self.cell(r, c).across_sum();
                let d_sum: Option<u16> = self.cell(r, c).down_sum();
                proof {
                    assert(self@[rr][cc].wf());
                    lemma_bads_same(g0, self@, rows_i, cols_i, rr, cc);
                }
                let a_bad_now: bool = match a_sum {
                    Some(t) => {
                        let vals = self.collect_across(r, c + 1);
                        let bad = digits_bad(&vals, t);
                        proof {
                            assert(a_bad(self@, rr, cc) == bad);
                        }
                        bad
                    },
                    None => false,
                };
                let d_bad_now: bool = match d_sum {
                    Some(t) => {
                        let vals = self.collect_down(r + 1, c);
                        let bad = digits_bad(&vals, t);
                        proof {
                            assert(d_bad(self@, rr, cc) == bad);
                        }
                        bad
                    },
                    None => false,
                };
                proof {
                    assert(a_bad_now == a_bad(g0, rr, cc));
                    assert(d_bad_now == d_bad(g0, rr, cc));
                }
                if a_sum.is_some() {
                    self.set_a_flag(r, c, a_bad_now);
                    if a_bad_now {
                        correct = false;
                    }
                }
                let ghost s1 = self@;
                if d_sum.is_some() {
                    self.set_d_flag(r, c, d_bad_now);
                    if d_bad_now {
                        correct = false;
                    }
                }
                proof {
                    // The cell just processed now carries its recomputed flags.
                    assert(self@[rr][cc] == checked_cell(g0, rr, cc));
                    // Every other cell is exactly as it was.
                    assert forall|r2: int, c2: int|
                        0 <= r2 < rows_i && 0 <= c2 < cols_i && !(r2 == rr && c2 == cc)
                            implies (#[trigger] self@[r2][c2]) == sb[r2][c2] by {
                        assert(self@[r2][c2] == s1[r2][c2]);
                        assert(s1[r2][c2] == sb[r2][c2]);
                    }
                    assert forall|r2: int, c2: int|
                        0 <= r2 < rows_i && 0 <= c2 < cols_i implies same_cell_content(
                        #[trigger] g0[r2][c2],
                        #[trigger] self@[r2][c2],
                    ) by {
                        assert(same_cell_content(g0[r2][c2], sb[r2][c2]));
                        if r2 == rr && c2 == cc {
                            assert(same_cell_content(sb[r2][c2], self@[r2][c2]));
                        }
                    }
                    assert forall|r2: int| 0 <= r2 < rows_i implies (#[trigger] self@[r2]).len()
                        == cols_i by {
                        assert(self@[r2].len() == s1[r2].len());
                        assert(s1[r2].len() == sb[r2].len());
                    }
                    assert(self@.len() == s1.len());
                    assert(s1.len() == sb.len());
                    assert forall|r2: int|
                        0 <= r2 < rows_i implies (#[trigger] g0[r2]).len() == cols_i by {
                        assert(sb[r2].len() == cols_i);
                    }
                    assert(same_content(g0, self@, rows_i, cols_i));
                    // The running verdict extends by exactly this cell's verdict.
                    assert(correct == (correct0 && cell_ok(g0, rr, cc)));
                    assert(prefix_ok(g0, cols_i, rr, cc + 1) == (prefix_ok(g0, cols_i, rr, cc)
                        && cell_ok(g0, rr, cc))) by {
                        if prefix_ok(g0, cols_i, rr, cc) && cell_ok(g0, rr, cc) {
                            assert forall|r2: int, c2: int|
                                0 <= r2 && 0 <= c2 < cols_i && (r2 < rr || (r2 == rr && c2 < cc
                                    + 1)) implies #[trigger] cell_ok(g0, r2, c2) by {
                                if !(r2 == rr && c2 == cc) {
                                    assert(r2 < rr || (r2 == rr && c2 < cc));
                                }
                            }
                        }
                        if prefix_ok(g0, cols_i, rr, cc + 1) {
                            assert(cell_ok(g0, rr, cc));
                        }
                    }
                }
                c += 1;
            }
            proof {
                let ghost rr: int = r as int;
                assert(prefix_ok(g0, cols_i, rr, cols_i) == prefix_ok(g0, cols_i, rr + 1, 0)) by {
                    if prefix_ok(g0, cols_i, rr, cols_i) {
                        assert forall|r2: int, c2: int|
                            0 <= r2 && 0 <= c2 < cols_i && (r2 < rr + 1 || (r2 == rr + 1 && c2
                                < 0)) implies #[trigger] cell_ok(g0, r2, c2) by {
                            assert(r2 < rr || (r2 == rr && c2 < cols_i));
                        }
                    }
                    if prefix_ok(g0, cols_i, rr + 1, 0) {
                        assert forall|r2: int, c2: int|
                            0 <= r2 && 0 <= c2 < cols_i && (r2 < rr || (r2 == rr && c2 < cols_i))
                                implies #[trigger] cell_ok(g0, r2, c2) by {
                            assert(r2 < rr + 1);
                        }
                    }
                }
            }
            r += 1;
        }
        proof {
            assert(prefix_ok(g0, cols_i, rows_i, 0) == board_correct(g0, rows_i, cols_i)) by {
                if prefix_ok(g0, cols_i, rows_i, 0) {
                    assert forall|r2: int, c2: int|
                        0 <= r2 < rows_i && 0 <= c2 < cols_i implies #[trigger] cell_ok(
                        g0,
                        r2,
                        c2,
                    ) by {
                        assert(r2 < rows_i);
                    }
                }
                if board_correct(g0, rows_i, cols_i) {
                    assert forall|r2: int, c2: int|
                        0 <= r2 && 0 <= c2 < cols_i && (r2 < rows_i || (r2 == rows_i && c2 < 0))
                            implies #[trigger] cell_ok(g0, r2, c2) by {}
                }
            }
        }
        correct
    }

    /// Writes the down verdict into the clue cell at `(row, col)`.
    fn set_d_flag(&mut self, row: usize, col: usize, bad: bool)
        requires
            old(self).wf(),
            row < old(self).rows,
            col < old(self).cols,
            old(self)@[row as int][col as int].is_clue,
        ensures
            final(self).wf(),
            final(self).rows == old(self).rows,
            final(self).cols == old(self).cols,
            final(self).cursor_row == old(self).cursor_row,
            final(self).cursor_col == old(self).cursor_col,
            final(self)@.len() == old(self)@.len(),
            forall|r: int| 0 <= r < old(self).rows ==> (#[trigger] final(self)@[r]).len()
                == old(self)@[r].len(),
            forall|r: int, c: int|
                0 <= r < old(self).rows && 0 <= c < old(self).cols && !(r == row && c == col)
                    ==> (#[trigger] final(self)@[r][c]) == old(self)@[r][c],
            final(self)@[row as int][col as int] == (Cell {
                d_incorrect: bad,
                ..old(self)@[row as int][col as int]
            }),
    {
        let m = self.cell_mut(row, col);
        m.set_d_incorrect(bad);
        proof {
            assert forall|r: int|
                0 <= r < self.rows implies (#[trigger] self.grid@[r])@.len() == self.cols by {
                assert(self@[r].len() == old(self)@[r].len());
                assert(old(self).grid@[r]@.len() == old(self).cols);
            }
            assert forall|r: int, c: int|
                0 <= r < old(self).rows && 0 <= c < old(self).cols implies (#[trigger] self@[r][c]).wf() by {
                assert(old(self)@[r][c].wf());
                if !(r == row && c == col) {
                    assert(self@[r][c] == old(self)@[r][c]);
                }
            }
        }
    }
}

} // verus!
