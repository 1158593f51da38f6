use kakuro::Board;
use kakuro::Cell;

fn sample_board() -> Board {
    let grid = vec![
        vec![
            Cell::new_clue(Some(4), None),
            Cell::new_play(),
            Cell::new_play(),
        ],
        vec![
            Cell::new_clue(None, Some(7)),
            Cell::new_play(),
            Cell::new_play(),
        ],
    ];
    Board::new(grid, 2, 3)
}

#[test]
fn test_board_creation_and_access() {
    let board = sample_board();
    assert_eq!(board.rows, 2);
    assert_eq!(board.cols, 3);
    assert!(board.cell(0, 0).is_clue());
    assert!(!board.cell(0, 1).is_clue());
}

#[test]
fn test_cursor_and_cell_mut() {
    let mut board = sample_board();
    board.cursor_row = 1;
    board.cursor_col = 2;
    board.cell_mut(1, 2).set_value(Some(5));
    assert_eq!(board.cell(1, 2).value(), Some(5));
    board.cur_cell().set_value(None);
    let val = board.cur_cell().value();
    assert_eq!(val, None);
}

#[test]
fn test_cursor_wraps() {
    let mut board = sample_board();
    board.cursor_col = board.cols - 1;
    board.right();
    assert_eq!(board.cursor_col, 0);
    board.left();
    assert_eq!(board.cursor_col, board.cols - 1);
    board.cursor_row = board.rows - 1;
    board.down();
    assert_eq!(board.cursor_row, 0);
    board.up();
    assert_eq!(board.cursor_row, board.rows - 1);
}

#[test]
fn test_check_across_sum() {
    let mut board = sample_board();
    board.cell_mut(0, 1).set_value(Some(2));
    board.cell_mut(0, 2).set_value(Some(2));
    board.check();
    // Should be incorrect because sum is 4, but digits repeat
    assert!(board.cell(0, 0).is_a_incorrect());
}

#[test]
fn test_key_response() {
    let mut board = sample_board();

    {
        let cur = board.cur_cell();
        assert_eq!(cur.value, None);
        assert_eq!(cur.across_sum, Some(4));
        assert_eq!(cur.down_sum, None);
    }
    {
        board.right();
        assert_eq!(board.cur_cell().value, None);
        assert_eq!(board.cur_cell().across_sum, None);
        assert_eq!(board.cur_cell().down_sum, None);
    }
    {
        board.number('7');
        assert_eq!(board.cur_cell().value, Some(7_u8));
        assert_eq!(board.cur_cell().across_sum, None);
        assert_eq!(board.cur_cell().down_sum, None);
    }
    {
        board.backspace();
        assert_eq!(board.cur_cell().value, None);
        assert_eq!(board.cur_cell().across_sum, None);
        assert_eq!(board.cur_cell().down_sum, None);
    }
    {
        board.down();
        assert_eq!(board.cur_cell().value, None);
        assert_eq!(board.cur_cell().across_sum, None);
        assert_eq!(board.cur_cell().down_sum, None);
    }

    {
        board.number('8');
        assert_eq!(board.cur_cell().value, Some(8_u8));
        assert_eq!(board.cur_cell().across_sum, None);
        assert_eq!(board.cur_cell().down_sum, None);
    }

    {
        board.left();
        assert_eq!(board.cur_cell().value, None);
        assert_eq!(board.cur_cell().across_sum, None);
        assert_eq!(board.cur_cell().down_sum, Some(7));
    }

    {
        board.left();
        assert_eq!(board.cur_cell().value, None);
        assert_eq!(board.cur_cell().across_sum, None);
        assert_eq!(board.cur_cell().down_sum, None);
    }
    {
        board.right();
        assert_eq!(board.cur_cell().value, None);
        assert_eq!(board.cur_cell().across_sum, None);
        assert_eq!(board.cur_cell().down_sum, Some(7));
    }
    {
        board.down();
        assert_eq!(board.cur_cell().value, None);
        assert_eq!(board.cur_cell().across_sum, Some(4));
        assert_eq!(board.cur_cell().down_sum, None);
    }

    {
        board.up();
        assert_eq!(board.cur_cell().value, None);
        assert_eq!(board.cur_cell().across_sum, None);
        assert_eq!(board.cur_cell().down_sum, Some(7));
    }
}

#[test]
fn test_check_duplicates() {
    let board = vec![
        vec![
            Cell::new_clue(None, None),
            Cell::new_clue(None, Some(8)),
            Cell::new_clue(None, Some(8)),
        ],
        vec![
            Cell::new_clue(Some(8), None),
            Cell::new_play(),
            Cell::new_play(),
        ],
        vec![
            Cell::new_clue(Some(8), None),
            Cell::new_play(),
            Cell::new_play(),
        ],
    ];

    let mut board = Board::new(board, 3, 3);
    board.cell_mut(1, 1).set_value(Some(4));
    board.cell_mut(2, 1).set_value(Some(4));
    board.cell_mut(1, 2).set_value(Some(4));
    board.cell_mut(2, 2).set_value(Some(4));

    assert!(!board.check())
}

#[test]
fn test_check_down_sum() {
    let grid = vec![
        vec![Cell::new_clue(None, Some(7))],
        vec![Cell::new_play()],
        vec![Cell::new_play()],
    ];
    let mut board = Board::new(grid, 3, 1);
    board.cell_mut(1, 0).set_value(Some(3));
    board.cell_mut(2, 0).set_value(Some(4));
    assert!(board.check());
    board.cell_mut(2, 0).set_value(Some(3));
    assert!(!board.check());
}

#[test]
fn test_check_both_sums() {
    let grid = vec![
        vec![
            Cell::new_clue(Some(7), Some(7)),
            Cell::new_play(),
            Cell::new_play(),
        ],
        vec![Cell::new_play(), Cell::new_play(), Cell::new_play()],
    ];
    let mut board = Board::new(grid, 2, 3);
    board.cell_mut(0, 1).set_value(Some(3));
    board.cell_mut(0, 2).set_value(Some(4));
    board.cell_mut(1, 0).set_value(Some(7));
    assert!(board.check());
    board.cell_mut(0, 2).set_value(Some(3));
    assert!(!board.check());
}

#[test]
fn test_clue_cells_not_mutated() {
    let mut board = sample_board();
    board.cursor_row = 0;
    board.cursor_col = 0; // clue cell
    board.number('5');
    assert_eq!(board.cur_cell().value(), None);
    board.backspace();
    assert_eq!(board.cur_cell().value(), None);
}

#[test]
fn test_check_with_empty_cells() {
    let mut board = sample_board();
    board.cell_mut(0, 1).set_value(Some(2));
    // board.cell_mut(0, 2) left empty
    assert!(!board.check());
}

#[test]
fn test_duplicate_flags_even_when_sum_matches() {
    // Across target 2 with digits [2, 2]: the partial sum up to the repeated
    // digit happens to equal the target, but the duplicate alone must flag
    // the run.
    let grid = vec![
        vec![
            Cell::new_clue(Some(2), None),
            Cell::new_play(),
            Cell::new_play(),
        ],
    ];
    let mut board = Board::new(grid, 1, 3);
    board.cell_mut(0, 1).set_value(Some(2));
    board.cell_mut(0, 2).set_value(Some(2));
    assert!(!board.check());
    assert!(board.cell(0, 0).is_a_incorrect());
}

#[test]
fn test_two_empty_cells_count_as_duplicates() {
    // Both playable cells of the down run are empty: they count as
    // duplicate zeroes, so the run is flagged before the sum is even close.
    let grid = vec![
        vec![Cell::new_clue(None, Some(7))],
        vec![Cell::new_play()],
        vec![Cell::new_play()],
    ];
    let mut board = Board::new(grid, 3, 1);
    assert!(!board.check());
    assert!(board.cell(0, 0).is_d_incorrect());
}

#[test]
fn test_cursor_full_cycle_returns() {
    let mut board = sample_board();
    board.cursor_row = 1;
    board.cursor_col = 1;
    for _ in 0..board.cols {
        board.right();
    }
    assert_eq!(board.cursor_col, 1);
    for _ in 0..board.cols {
        board.left();
    }
    assert_eq!(board.cursor_col, 1);
    for _ in 0..board.rows {
        board.down();
    }
    assert_eq!(board.cursor_row, 1);
    for _ in 0..board.rows {
        board.up();
    }
    assert_eq!(board.cursor_row, 1);
}

#[test]
fn test_check_round_trip_clears_flags() {
    // Fill every run of the 3 x 3 level correctly: check() reports success
    // and leaves every flag clear.
    let grid = vec![
        vec![
            Cell::new_clue(None, None),
            Cell::new_clue(None, Some(12)),
            Cell::new_clue(None, Some(3)),
        ],
        vec![
            Cell::new_clue(Some(9), None),
            Cell::new_play(),
            Cell::new_play(),
        ],
        vec![
            Cell::new_clue(Some(6), None),
            Cell::new_play(),
            Cell::new_play(),
        ],
    ];
    let mut board = Board::new(grid, 3, 3);
    board.cell_mut(1, 1).set_value(Some(8));
    board.cell_mut(1, 2).set_value(Some(1));
    board.cell_mut(2, 1).set_value(Some(4));
    board.cell_mut(2, 2).set_value(Some(2));
    assert!(board.check());
    for r in 0..3 {
        for c in 0..3 {
            assert!(!board.cell(r, c).is_a_incorrect());
            assert!(!board.cell(r, c).is_d_incorrect());
        }
    }
}
