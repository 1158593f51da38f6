//! Key dispatch: the decision step of the play loop and of the level menu.
//!
//! The loops themselves only read one key, hand it here, and perform the
//! returned action; every decision about the board is taken and verified
//! in this module.

use crate::board::Board;
use crate::board::wrap_dec;
use crate::board::wrap_inc;
use crate::cell::Cell;
use crate::validate::board_correct;
use crate::validate::checked_cell;
use vstd::prelude::*;

verus! {

/// One keyboard event, as the play loop distinguishes them.
#[derive(Clone, Copy, PartialEq, Eq, Debug)]
pub enum Key {
    /// The right arrow key.
    Right,
    /// The left arrow key.
    Left,
    /// The up arrow key.
    Up,
    /// The down arrow key.
    Down,
    /// The backspace key.
    Backspace,
    /// The enter key.
    Enter,
    /// The escape key.
    Esc,
    /// A character key.
    Char(char),
    /// Any other key.
    Other,
}

/// What the level menu does with one key press.
#[derive(Clone, Copy, PartialEq, Eq, Debug)]
pub enum MenuAction {
    /// Leave the menu.
    Quit,
    /// Play the level with this index.
    Play(usize),
    /// Stay at the menu and wait for the next key.
    Stay,
}

/// Whether `b1` is `b0` with the cursor moved to `(row, col)` and nothing
/// else touched.
pub open spec fn moved_to(b0: Board, b1: Board, row: int, col: int) -> bool {
    &&& b1.grid == b0.grid
    &&& b1.rows == b0.rows
    &&& b1.cols == b0.cols
    &&& b1.cursor_row as int == row
    &&& b1.cursor_col as int == col
}

/// Whether `b1` is `b0` with `v` written into the cell under the cursor:
/// a playable cell holds `v` afterwards, a clue cell leaves the board
/// entirely unchanged.
pub open spec fn digit_entered(b0: Board, b1: Board, v: Option<u8>) -> bool {
    &&& b1.rows == b0.rows
    &&& b1.cols == b0.cols
    &&& b1.cursor_row == b0.cursor_row
    &&& b1.cursor_col == b0.cursor_col
    &&& b1@.len() == b0@.len()
    &&& forall|r: int| 0 <= r < b0.rows ==> (#[trigger] b1@[r]).len() == b0@[r].len()
    &&& forall|r: int, c: int|
        0 <= r < b0.rows && 0 <= c < b0.cols && !(r == b0.cursor_row && c == b0.cursor_col)
            ==> (#[trigger] b1@[r][c]) == b0@[r][c]
    &&& b0@[b0.cursor_row as int][b0.cursor_col as int].is_clue ==> b1 == b0
    &&& !b0@[b0.cursor_row as int][b0.cursor_col as int].is_clue
        ==> b1@[b0.cursor_row as int][b0.cursor_col as int] == (Cell {
        value: v,
        ..b0@[b0.cursor_row as int][b0.cursor_col as int]
    })
}

/// Whether `b1` is `b0` after one validation pass: every clue cell carries
/// its recomputed flags and nothing else moved.
pub open spec fn validated(b0: Board, b1: Board) -> bool {
    &&& b1.rows == b0.rows
    &&& b1.cols == b0.cols
    &&& b1.cursor_row == b0.cursor_row
    &&& b1.cursor_col == b0.cursor_col
    &&& b1@.len() == b0@.len()
    &&& forall|r: int| 0 <= r < b0.rows ==> (#[trigger] b1@[r]).len() == b0@[r].len()
    &&& forall|r: int, c: int|
        0 <= r < b0.rows && 0 <= c < b0.cols ==> (#[trigger] b1@[r][c]) == checked_cell(
            b0@,
            r,
            c,
        )
}

impl Board {
    /// Applies one key press to the board: the dispatch step of the play
    /// loop.
    ///
    /// Returns `(leave, solved)`: `leave` holds exactly for the escape key,
    /// and `solved` is recomputed by a validation pass on enter and carried
    /// through unchanged by every other key. Arrows move the cursor with
    /// wraparound, backspace clears the cell under the cursor, the digit
    /// keys `1` to `9` write their digit there, and everything else is
    /// ignored.
    pub fn key_press(&mut self, k: Key, win: bool) -> (r: (bool, bool))
        requires
            old(self).wf(),
        ensures
            final(self).wf(),
            r.0 == (k is Esc),
            match k {
                Key::Right => moved_to(
                    *old(self),
                    *final(self),
                    old(self).cursor_row as int,
                    wrap_inc(old(self).cursor_col as int, old(self).cols as int),
                ) && r.1 == win,
                Key::Left => moved_to(
                    *old(self),
                    *final(self),
                    old(self).cursor_row as int,
                    wrap_dec(old(self).cursor_col as int, old(self).cols as int),
                ) && r.1 == win,
                Key::Up => moved_to(
                    *old(self),
                    *final(self),
                    wrap_dec(old(self).cursor_row as int, old(self).rows as int),
                    old(self).cursor_col as int,
                ) && r.1 == win,
                Key::Down => moved_to(
                    *old(self),
                    *final(self),
                    wrap_inc(old(self).cursor_row as int, old(self).rows as int),
                    old(self).cursor_col as int,
                ) && r.1 == win,
                Key::Backspace => digit_entered(*old(self), *final(self), None) && r.1 == win,
                Key::Enter => validated(*old(self), *final(self)) && r.1 == board_correct(
                    old(self)@,
                    old(self).rows as int,
                    old(self).cols as int,
                ),
                Key::Char(ch) => r.1 == win && if '1' <= ch && ch <= '9' {
                    digit_entered(*old(self), *final(self), Some((ch as int - 48) as u8))
                } else {
                    *final(self) == *old(self)
                },
                Key::Esc => *final(self) == *old(self) && r.1 == win,
                Key::Other => *final(self) == *old(self) && r.1 == win,
            },
    {
        match k {
            Key::Right => {
                self.right();
                (false, win)
            },
            Key::Left => {
                self.left();
                (false, win)
            },
            Key::Up => {
                self.up();
                (false, win)
            },
            Key::Down => {
                self.down();
                (false, win)
            },
            Key::Backspace => {
                self.backspace();
                (false, win)
            },
            Key::Enter => {
                let solved = self.check();
                (false, solved)
            },
            Key::Char(ch) => {
                let code: u32 = ch as u32;
                if 49 <= code && code <= 57 {
                    self.number(ch);
                }
                (false, win)
            },
            Key::Esc => (true, win),
            Key::Other => (false, win),
        }
    }
}

/// Decides what the level menu does with one key press: `q` leaves, a digit
/// key `1` to `9` naming one of the `n_levels` levels starts it, and every
/// other key is ignored.
pub fn menu_action(k: Key, n_levels: usize) -> (a: MenuAction)
    ensures
        match k {
            Key::Char(ch) => if ch == 'q' {
                a is Quit
            } else if '1' <= ch && ch <= '9' && ch as int - 49 < n_levels {
                a matches MenuAction::Play(i) && i as int == ch as int - 49
            } else {
                a is Stay
            },
            _ => a is Stay,
        },
{
    match k {
        Key::Char(ch) => {
            if ch == 'q' {
                MenuAction::Quit
            } else {
                let code: u32 = ch as u32;
                if 49 <= code && code <= 57 {
                    let idx: usize = (code - 49) as usize;
                    if idx < n_levels {
                        MenuAction::Play(idx)
                    } else {
                        MenuAction::Stay
                    }
                } else {
                    MenuAction::Stay
                }
            }
        },
        _ => MenuAction::Stay,
    }
}

} // verus!
