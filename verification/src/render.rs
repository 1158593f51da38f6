//! The rendering pass: a deterministic, side-effect-free mapping from a
//! board snapshot to the sequence of positioned terminal writes that draws
//! it. Executing the writes is left to the caller.

use crate::board::Board;
use crate::cell::clue_left_chars;
use crate::cell::clue_right_chars;
use crate::cell::play_bot_chars;
use crate::cell::play_mid_chars;
use crate::cell::play_top_chars;
use crate::cell::Cell;
use crate::text::dec_len;
use vstd::prelude::*;
use vstd::string::StringExecFns;

verus! {

/// How one piece of text is styled on screen.
#[derive(Clone, Copy, PartialEq, Eq, Debug)]
pub enum Style {
    /// Default styling.
    Plain,
    /// Alert background, for a sum target flagged incorrect.
    Alert,
    /// Bold, for the key names in the help line.
    Bold,
}

/// One positioned terminal write.
#[derive(Clone, Debug)]
pub struct DrawOp {
    /// Screen column of the first character.
    pub x: u16,
    /// Screen row.
    pub y: u16,
    /// The text to write.
    pub text: String,
    /// How the text is styled.
    pub style: Style,
}

/// The mathematical image of one positioned write.
pub ghost struct DrawOpV {
    /// Screen column of the first character.
    pub x: int,
    /// Screen row.
    pub y: int,
    /// The characters written.
    pub text: Seq<char>,
    /// How they are styled.
    pub style: Style,
}

impl View for DrawOp {
    type V = DrawOpV;

    open spec fn view(&self) -> DrawOpV {
        DrawOpV { x: self.x as int, y: self.y as int, text: self.text@, style: self.style }
    }
}

/// The image of a whole operation list.
pub open spec fn ops_view(ops: Seq<DrawOp>) -> Seq<DrawOpV> {
    ops.map_values(|o: DrawOp| o@)
}

/// The screen column where the block of grid column `c` starts: each cell
/// block is five columns of content plus a two-column separator gap.
pub open spec fn origin_x(c: int) -> int {
    7 * c
}

/// The screen row where the block of grid row `r` starts: each cell block
/// is three rows tall.
pub open spec fn origin_y(r: int) -> int {
    3 * r
}

/// The writes that draw a clue cell standing at grid position `(r, c)`:
/// blank top and bottom rows, and a content row showing the right-justified
/// down target, a separator, and the left-justified across target, each
/// target on an alert background when its run is flagged incorrect. A clue
/// with no targets draws blank.
pub open spec fn clue_ops(cell: Cell, r: int, c: int) -> Seq<DrawOpV> {
    let x = origin_x(c);
    let y = origin_y(r);
    if cell.across_sum is None && cell.down_sum is None {
        seq![
            DrawOpV { x: x, y: y, text: "     "@, style: Style::Plain },
            DrawOpV { x: x, y: y + 1, text: "       "@, style: Style::Plain },
            DrawOpV { x: x, y: y + 2, text: "     "@, style: Style::Plain },
        ]
    } else {
        let left = clue_left_chars(cell);
        let right = clue_right_chars(cell);
        seq![
            DrawOpV { x: x, y: y, text: "     "@, style: Style::Plain },
            DrawOpV { x: x, y: y + 1, text: " "@, style: Style::Plain },
            DrawOpV {
                x: x + 1,
                y: y + 1,
                text: left,
                style: if cell.d_incorrect {
                    Style::Alert
                } else {
                    Style::Plain
                },
            },
            DrawOpV { x: x + 1 + left.len(), y: y + 1, text: "\\"@, style: Style::Plain },
            DrawOpV {
                x: x + 2 + left.len(),
                y: y + 1,
                text: right,
                style: if cell.a_incorrect {
                    Style::Alert
                } else {
                    Style::Plain
                },
            },
            DrawOpV {
                x: x + 2 + left.len() + right.len(),
                y: y + 1,
                text: " "@,
                style: Style::Plain,
            },
            DrawOpV { x: x, y: y + 2, text: "     "@, style: Style::Plain },
        ]
    }
}

/// The writes that draw a playable cell standing at grid position `(r, c)`:
/// the three rows of its bordered box.
pub open spec fn play_ops(cell: Cell, r: int, c: int) -> Seq<DrawOpV> {
    let x = origin_x(c);
    let y = origin_y(r);
    seq![
        DrawOpV { x: x, y: y, text: play_top_chars(), style: Style::Plain },
        DrawOpV { x: x, y: y + 1, text: play_mid_chars(cell), style: Style::Plain },
        DrawOpV { x: x, y: y + 2, text: play_bot_chars(), style: Style::Plain },
    ]
}

/// The writes that draw the cell `cell` standing at grid position `(r, c)`.
pub open spec fn cell_ops(cell: Cell, r: int, c: int) -> Seq<DrawOpV> {
    if cell.is_clue {
        clue_ops(cell, r, c)
    } else {
        play_ops(cell, r, c)
    }
}

/// The writes that draw the first `c` cells of grid row `r`, left to right.
pub open spec fn row_ops_upto(g: Seq<Seq<Cell>>, r: int, c: int) -> Seq<DrawOpV>
    decreases c,
{
    if c <= 0 {
        Seq::empty()
    } else {
        row_ops_upto(g, r, c - 1) + cell_ops(g[r][c - 1], r, c - 1)
    }
}

/// The writes that draw the first `r` full rows of the grid, top to bottom.
pub open spec fn grid_ops_upto(g: Seq<Seq<Cell>>, cols: int, r: int) -> Seq<DrawOpV>
    decreases r,
{
    if r <= 0 {
        Seq::empty()
    } else {
        grid_ops_upto(g, cols, r - 1) + row_ops_upto(g, r - 1, cols)
    }
}

/// The writes that draw the help line one screen row below the grid.
pub open spec fn help_ops(rows: int) -> Seq<DrawOpV> {
    let y = 3 * rows + 1;
    seq![
        DrawOpV { x: 0, y: y, text: "esc"@, style: Style::Bold },
        DrawOpV { x: 3, y: y, text: ": home | "@, style: Style::Plain },
        DrawOpV { x: 12, y: y, text: "return"@, style: Style::Bold },
        DrawOpV { x: 18, y: y, text: ": check"@, style: Style::Plain },
    ]
}

/// The writes that draw a whole board: every cell in row-major order, then
/// the help line.
pub open spec fn board_ops(g: Seq<Seq<Cell>>, rows: int, cols: int) -> Seq<DrawOpV> {
    grid_ops_upto(g, cols, rows) + help_ops(rows)
}

/// Appends one write to the list.
fn push_op(ops: &mut Vec<DrawOp>, x: u16, y: u16, text: String, style: Style)
    ensures
        ops_view(final(ops)@) == ops_view(old(ops)@).push(
            (DrawOpV { x: x as int, y: y as int, text: text@, style: style }),
        ),
{
    let ghost t = text@;
    ops.push(DrawOp { x, y, text, style });
    proof {
        assert(ops_view(ops@) =~= ops_view(old(ops)@).push(
            DrawOpV { x: x as int, y: y as int, text: t, style: style },
        ));
    }
}

/// Appends the writes that draw `cell` standing at grid position `(r, c)`.
fn emit_cell(ops: &mut Vec<DrawOp>, cell: &Cell, r: usize, c: usize)
    requires
        cell.wf(),
        7 * (c as int) + 20 <= 0xFFFF,
        3 * (r as int) + 2 <= 0xFFFF,
    ensures
        ops_view(final(ops)@) == ops_view(old(ops)@) + cell_ops(*cell, r as int, c as int),
{
    let x: u16 = 7 * (c as u16);
    let y: u16 = 3 * (r as u16);
    if cell.is_clue() {
        push_op(ops, x, y, String::from_str("     "), Style::Plain);
        if cell.across_sum().is_none() && cell.down_sum().is_none() {
            push_op(ops, x, y + 1, String::from_str("       "), Style::Plain);
        } else {
            let (left, right) = cell.clue_string();
            let left_len: u16 = match cell.down_sum() {
                None => 2,
                Some(d) => {
                    let n = dec_len(d);
                    if n < 2 {
                        2
                    } else {
                        n
                    }
                },
            };
            let right_len: u16 = match cell.across_sum() {
                None => 2,
                Some(a) => {
                    let n = dec_len(a);
                    if n < 2 {
                        2
                    } else {
                        n
                    }
                },
            };
            proof {
                assert(left@.len() == left_len as int);
                assert(right@.len() == right_len as int);
            }
            let d_style = if cell.is_d_incorrect() {
                Style::Alert
            } else {
                Style::Plain
            };
            let a_style = if cell.is_a_incorrect() {
                Style::Alert
            } else {
                Style::Plain
            };
            push_op(ops, x, y + 1, String::from_str(" "), Style::Plain);
            push_op(ops, x + 1, y + 1, left, d_style);
            push_op(ops, x + 1 + left_len, y + 1, String::from_str("\\"), Style::Plain);
            push_op(ops, x + 2 + left_len, y + 1, right, a_style);
            push_op(ops, x + 2 + left_len + right_len, y + 1, String::from_str(" "), Style::Plain);
        }
        push_op(ops, x, y + 2, String::from_str("     "), Style::Plain);
        proof {
            assert(ops_view(ops@) =~= ops_view(old(ops)@) + clue_ops(*cell, r as int, c as int));
        }
    } else {
        let (top, mid, bot) = cell.play_strings();
        push_op(ops, x, y, top, Style::Plain);
        push_op(ops, x, y + 1, mid, Style::Plain);
        push_op(ops, x, y + 2, bot, Style::Plain);
        proof {
            assert(ops_view(ops@) =~= ops_view(old(ops)@) + play_ops(*cell, r as int, c as int));
        }
    }
}

impl Board {
    /// Computes the writes that draw this board: every cell in row-major
    /// order, then the help line. The dimension bounds keep every screen
    /// coordinate inside the terminal coordinate space.
    pub fn render_ops(&self) -> (ops: Vec<DrawOp>)
        requires
            self.wf(),
            7 * (self.cols as int) + 20 <= 0xFFFF,
            3 * (self.rows as int) + 2 <= 0xFFFF,
        ensures
            ops_view(ops@) == board_ops(self@, self.rows as int, self.cols as int),
    {
        let ghost g = self@;
        let rows: usize = self.rows;
        let cols: usize = self.cols;
        let ghost cols_i: int = cols as int;
        let mut ops: Vec<DrawOp> = Vec::new();
        let mut r: usize = 0;
        proof {
            assert(ops_view(ops@) =~= grid_ops_upto(g, cols_i, 0));
        }
        while r < rows
            invariant
                self.wf(),
                g == self@,
                rows == self.rows,
                cols == self.cols,
                cols_i == cols as int,
                7 * (cols as int) + 20 <= 0xFFFF,
                3 * (rows as int) + 2 <= 0xFFFF,
                0 <= r <= rows,
                ops_view(ops@) == grid_ops_upto(g, cols_i, r as int),
            decreases rows - r,
        {
            let mut c: usize = 0;
            while c < cols
                invariant
                    self.wf(),
                    g == self@,
                    rows == self.rows,
                    cols == self.cols,
                    cols_i == cols as int,
                    7 * (cols as int) + 20 <= 0xFFFF,
                    3 * (rows as int) + 2 <= 0xFFFF,
                    0 <= r < rows,
                    0 <= c <= cols,
                    ops_view(ops@) == grid_ops_upto(g, cols_i, r as int) + row_ops_upto(
                        g,
                        r as int,
                        c as int,
                    ),
                decreases cols - c,
            {
                let cell = self.cell(r, c);
                emit_cell(&mut ops, cell, r, c);
                proof {
                    assert(ops_view(ops@) =~= grid_ops_upto(g, cols_i, r as int) + row_ops_upto(
                        g,
                        r as int,
                        c as int + 1,
                    ));
                }
                c += 1;
            }
            proof {
                assert(ops_view(ops@) =~= grid_ops_upto(g, cols_i, r as int + 1));
            }
            r += 1;
        }
        let help_y: u16 = 3 * (rows as u16) + 1;
        push_op(&mut ops, 0, help_y, String::from_str("esc"), Style::Bold);
        push_op(&mut ops, 3, help_y, String::from_str(": home | "), Style::Plain);
        push_op(&mut ops, 12, help_y, String::from_str("return"), Style::Bold);
        push_op(&mut ops, 18, help_y, String::from_str(": check"), Style::Plain);
        proof {
            assert(ops_view(ops@) =~= board_ops(g, rows as int, cols_i));
        }
        ops
    }

    /// The screen position of the content character of the cell under the
    /// cursor, where the terminal cursor is parked after a draw.
    pub fn cursor_screen_pos(&self) -> (p: (u16, u16))
        requires
            self.wf(),
            7 * (self.cols as int) + 20 <= 0xFFFF,
            3 * (self.rows as int) + 2 <= 0xFFFF,
        ensures
            p.0 as int == origin_x(self.cursor_col as int) + 3,
            p.1 as int == origin_y(self.cursor_row as int) + 1,
    {
        (7 * (self.cursor_col as u16) + 3, 3 * (self.cursor_row as u16) + 1)
    }

    /// Whether the terminal cursor should blink after a draw: only over a
    /// playable cell, since clue cells cannot be edited.
    pub fn cursor_blinks(&self) -> (b: bool)
        requires
            self.wf(),
        ensures
            b == !self@[self.cursor_row as int][self.cursor_col as int].is_clue,
    {
        !self.cell(self.cursor_row, self.cursor_col).is_clue()
    }
}

} // verus!
