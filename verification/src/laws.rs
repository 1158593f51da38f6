//! Properties of the navigation and validation model, stated and proved
//! once for every board.

use crate::board::wrap_dec;
use crate::board::wrap_inc;
use crate::cell::Cell;
use crate::validate::board_correct;
use crate::validate::cell_digit;
use crate::validate::cell_ok;
use crate::validate::checked_cell;
use crate::validate::has_dup;
use crate::validate::lemma_run_end;
use crate::validate::run_bad;
use crate::validate::run_digits;
use crate::validate::run_end;
use crate::validate::seq_sum;
use vstd::prelude::*;

verus! {

/// The cursor coordinate after `steps` forward steps with wraparound.
pub open spec fn wrap_inc_n(i: int, n: int, steps: nat) -> int
    decreases steps,
{
    if steps == 0 {
        i
    } else {
        wrap_inc(wrap_inc_n(i, n, (steps - 1) as nat), n)
    }
}

/// The cursor coordinate after `steps` backward steps with wraparound.
pub open spec fn wrap_dec_n(i: int, n: int, steps: nat) -> int
    decreases steps,
{
    if steps == 0 {
        i
    } else {
        wrap_dec(wrap_dec_n(i, n, (steps - 1) as nat), n)
    }
}

proof fn lemma_wrap_inc_n_closed(i: int, n: int, steps: nat)
    requires
        0 <= i < n,
        steps <= n,
    ensures
        wrap_inc_n(i, n, steps) == if i + steps < n {
            i + steps
        } else {
            i + steps - n
        },
    decreases steps,
{
    if steps > 0 {
        lemma_wrap_inc_n_closed(i, n, (steps - 1) as nat);
    }
}

proof fn lemma_wrap_dec_n_closed(i: int, n: int, steps: nat)
    requires
        0 <= i < n,
        steps <= n,
    ensures
        wrap_dec_n(i, n, steps) == if i - steps >= 0 {
            i - steps
        } else {
            i - steps + n
        },
    decreases steps,
{
    if steps > 0 {
        lemma_wrap_dec_n_closed(i, n, (steps - 1) as nat);
    }
}

/// Stepping the cursor forward as many times as the dimension holds indices
/// brings it back to where it started; likewise stepping backward. Applied
/// to columns this covers `right` and `left`, applied to rows `down` and
/// `up`.
pub proof fn lemma_wraparound_cycle(i: int, n: int)
    requires
        0 <= i < n,
    ensures
        wrap_inc_n(i, n, n as nat) == i,
        wrap_dec_n(i, n, n as nat) == i,
{
    lemma_wrap_inc_n_closed(i, n, n as nat);
    lemma_wrap_dec_n_closed(i, n, n as nat);
}

/// Whether `vals` are pairwise distinct digits that add up to `target`.
pub open spec fn run_solved(vals: Seq<u8>, target: u16) -> bool {
    &&& forall|i: int, j: int| 0 <= i < j < vals.len() ==> vals[i] != vals[j]
    &&& seq_sum(vals) == target as int
}

/// A run holding pairwise distinct digits that add up to the clue's target
/// satisfies the clue's constraint: validation clears its flag.
pub proof fn lemma_solved_run_ok(vals: Seq<u8>, target: u16)
    requires
        run_solved(vals, target),
    ensures
        !run_bad(vals, target),
{
}

/// Two positions of one run sharing a digit make the run break its clue's
/// constraint, whatever the target: validation flags it whether or not the
/// sum happens to match.
pub proof fn lemma_duplicate_run_bad(vals: Seq<u8>, target: u16, i: int, j: int)
    requires
        0 <= i < j < vals.len(),
        vals[i] == vals[j],
    ensures
        run_bad(vals, target),
{
    assert(has_dup(vals));
}

/// Two empty playable cells inside one run count as duplicate zero digits,
/// so the run breaks its clue's constraint even before it is fully filled.
pub proof fn lemma_empty_cells_duplicate(line: Seq<Cell>, start: int, c1: int, c2: int, target: u16)
    requires
        0 <= start <= line.len(),
        start <= c1 < c2 < run_end(line, start),
        line[c1].value is None,
        line[c2].value is None,
    ensures
        run_bad(run_digits(line, start), target),
{
    lemma_run_end(line, start);
    let vals = run_digits(line, start);
    assert(vals[c1 - start] == cell_digit(line[c1]));
    assert(vals[c2 - start] == cell_digit(line[c2]));
    lemma_duplicate_run_bad(vals, target, c1 - start, c2 - start);
}

/// Whether the across run owned by the clue at `(r, c)` is correctly and
/// fully solved. A clue without an across target asks for nothing.
pub open spec fn across_solved(g: Seq<Seq<Cell>>, r: int, c: int) -> bool {
    match g[r][c].across_sum {
        Some(t) => run_solved(run_digits(g[r], c + 1), t),
        None => true,
    }
}

/// Whether the down run owned by the clue at `(r, c)` is correctly and
/// fully solved. A clue without a down target asks for nothing.
pub open spec fn down_solved(g: Seq<Seq<Cell>>, r: int, c: int) -> bool {
    match g[r][c].down_sum {
        Some(t) => run_solved(run_digits(crate::validate::col_line(g, c), r + 1), t),
        None => true,
    }
}

/// A board whose every run holds pairwise distinct digits adding up to its
/// clue's target is correct: validation reports success, and a clue cell
/// whose flags were clear comes out of the pass unchanged, flags still
/// clear.
pub proof fn lemma_solved_board_correct(g: Seq<Seq<Cell>>, rows: int, cols: int)
    requires
        forall|r: int, c: int|
            0 <= r < rows && 0 <= c < cols && (#[trigger] g[r][c]).is_clue ==> across_solved(
                g,
                r,
                c,
            ) && down_solved(g, r, c),
    ensures
        board_correct(g, rows, cols),
        forall|r: int, c: int|
            0 <= r < rows && 0 <= c < cols && !g[r][c].a_incorrect && !g[r][c].d_incorrect
                ==> #[trigger] checked_cell(g, r, c) == g[r][c],
{
    assert forall|r: int, c: int| 0 <= r < rows && 0 <= c < cols implies #[trigger] cell_ok(
        g,
        r,
        c,
    ) by {
        if g[r][c].is_clue {
            match g[r][c].across_sum {
                Some(t) => {
                    lemma_solved_run_ok(run_digits(g[r], c + 1), t);
                },
                None => {},
            }
            match g[r][c].down_sum {
                Some(t) => {
                    lemma_solved_run_ok(run_digits(crate::validate::col_line(g, c), r + 1), t);
                },
                None => {},
            }
        }
    }
    assert forall|r: int, c: int|
        0 <= r < rows && 0 <= c < cols && !g[r][c].a_incorrect && !g[r][c].d_incorrect
            implies #[trigger] checked_cell(g, r, c) == g[r][c] by {
        assert(cell_ok(g, r, c));
    }
}

} // verus!
