//! The built-in puzzle layouts.

use crate::board::Board;
use crate::cell::Cell;
use vstd::prelude::*;

verus! {

/// Builds the list of playable levels: a label and a freshly constructed
/// well-formed board for each, smallest first.
pub fn levels() -> (lvls: Vec<(&'static str, Board)>)
    ensures
        lvls@.len() == 3,
        forall|i: int|
            0 <= i < lvls@.len() ==> (#[trigger] lvls@[i]).1.wf() && lvls@[i].1.cursor_row == 0
                && lvls@[i].1.cursor_col == 0,
        lvls@[0].0@ == "Level 1 (3 x 3)"@,
        lvls@[1].0@ == "Level 2 (5 x 5)"@,
        lvls@[2].0@ == "Level 3 (8 x 8)"@,
        lvls@[0].1.rows == 3 && lvls@[0].1.cols == 3,
        lvls@[1].1.rows == 5 && lvls@[1].1.cols == 5,
        lvls@[2].1.rows == 8 && lvls@[2].1.cols == 8,
{
    let board1 = vec![
        vec![
            Cell::new_clue(None, None),
            Cell::new_clue(None, None),
            Cell::new_clue(None, Some(30)),
            Cell::new_clue(None, Some(10)),
            Cell::new_clue(None, None),
            Cell::new_clue(None, None),
            Cell::new_clue(None, Some(3)),
            Cell::new_clue(None, Some(13)),
        ],
        vec![
            Cell::new_clue(None, None),
            Cell::new_clue(Some(7), Some(17)),
            Cell::new_play(),
            Cell::new_play(),
            Cell::new_clue(None, None),
            Cell::new_clue(Some(10), Some(10)),
            Cell::new_play(),
            Cell::new_play(),
        ],
        vec![
            Cell::new_clue(Some(24), None),
            Cell::new_play(),
            Cell::new_play(),
            Cell::new_play(),
            Cell::new_clue(Some(7), Some(23)),
            Cell::new_play(),
            Cell::new_play(),
            Cell::new_play(),
        ],
        vec![
            Cell::new_clue(Some(17), None),
            Cell::new_play(),
            Cell::new_play(),
            Cell::new_clue(Some(10), Some(8)),
            Cell::new_play(),
            Cell::new_play(),
            Cell::new_clue(None, Some(30)),
            Cell::new_clue(None, None),
        ],
        vec![
            Cell::new_clue(None, None),
            Cell::new_clue(Some(35), None),
            Cell::new_play(),
            Cell::new_play(),
            Cell::new_play(),
            Cell::new_play(),
            Cell::new_play(),
            Cell::new_clue(None, Some(10)),
        ],
        vec![
            Cell::new_clue(None, None),
            Cell::new_clue(None, Some(4)),
            Cell::new_clue(Some(10), Some(13)),
            Cell::new_play(),
            Cell::new_play(),
            Cell::new_clue(Some(7), Some(15)),
            Cell::new_play(),
            Cell::new_play(),
        ],
        vec![
            Cell::new_clue(Some(7), None),
            Cell::new_play(),
            Cell::new_play(),
            Cell::new_play(),
            Cell::new_clue(Some(24), None),
            Cell::new_play(),
            Cell::new_play(),
            Cell::new_play(),
        ],
        vec![
            Cell::new_clue(Some(12), None),
            Cell::new_play(),
            Cell::new_play(),
            Cell::new_clue(None, None),
            Cell::new_clue(Some(16), None),
            Cell::new_play(),
            Cell::new_play(),
            Cell::new_clue(None, None),
        ],
    ];

    let board2 = vec![
        vec![
            Cell::new_clue(None, None),
            Cell::new_clue(None, Some(3)),
            Cell::new_clue(None, Some(14)),
            Cell::new_clue(None, None),
            Cell::new_clue(None, None),
        ],
        vec![
            Cell::new_clue(Some(9), None),
            Cell::new_play(),
            Cell::new_play(),
            Cell::new_clue(None, Some(13)),
            Cell::new_clue(None, None),
        ],
        vec![
            Cell::new_clue(Some(7), None),
            Cell::new_play(),
            Cell::new_play(),
            Cell::new_play(),
            Cell::new_clue(None, Some(9)),
        ],
        vec![
            Cell::new_clue(None, None),
            Cell::new_clue(Some(6), None),
            Cell::new_play(),
            Cell::new_play(),
            Cell::new_play(),
        ],
        vec![
            Cell::new_clue(None, None),
            Cell::new_clue(None, None),
            Cell::new_clue(Some(17), None),
            Cell::new_play(),
            Cell::new_play(),
        ],
    ];

    let board3 = vec![
        vec![
            Cell::new_clue(None, None),
            Cell::new_clue(None, Some(12)),
            Cell::new_clue(None, Some(3)),
        ],
        vec![
            Cell::new_clue(Some(9), None),
            Cell::new_play(),
            Cell::new_play(),
        ],
        vec![
            Cell::new_clue(Some(6), None),
            Cell::new_play(),
            Cell::new_play(),
        ],
    ];

    let lvls = vec![
        ("Level 1 (3 x 3)", Board::new(board3, 3, 3)),
        ("Level 2 (5 x 5)", Board::new(board2, 5, 5)),
        ("Level 3 (8 x 8)", Board::new(board1, 8, 8)),
    ];
    lvls
}

} // verus!
