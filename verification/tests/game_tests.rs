use kakuro::levels;
use kakuro::menu_action;
use kakuro::Board;
use kakuro::Cell;
use kakuro::Key;
use kakuro::MenuAction;
use kakuro::Style;

fn column_board() -> Board {
    let grid = vec![
        vec![Cell::new_clue(None, Some(7))],
        vec![Cell::new_play()],
        vec![Cell::new_play()],
    ];
    Board::new(grid, 3, 1)
}

#[test]
fn test_key_press_plays_a_column() {
    // The end-to-end scenario: fill the down run with 3 and 4, validate,
    // then overwrite the 4 with a duplicate 3 and validate again.
    let mut board = column_board();
    let (quit, win) = board.key_press(Key::Down, false);
    assert!(!quit);
    assert!(!win);
    let (quit, win) = board.key_press(Key::Char('3'), win);
    assert!(!quit);
    assert!(!win);
    let (quit, win) = board.key_press(Key::Down, win);
    assert!(!quit);
    assert!(!win);
    let (quit, win) = board.key_press(Key::Char('4'), win);
    assert!(!quit);
    assert!(!win);
    let (quit, win) = board.key_press(Key::Enter, win);
    assert!(!quit);
    assert!(win);
    assert!(!board.cell(0, 0).is_d_incorrect());
    let (quit, win) = board.key_press(Key::Char('3'), win);
    assert!(!quit);
    assert!(win);
    let (quit, win) = board.key_press(Key::Enter, win);
    assert!(!quit);
    assert!(!win);
    assert!(board.cell(0, 0).is_d_incorrect());
    let (quit, _win) = board.key_press(Key::Esc, false);
    assert!(quit);
}

#[test]
fn test_key_press_ignores_other_keys() {
    let mut board = column_board();
    let (quit, win) = board.key_press(Key::Char('0'), false);
    assert!(!quit);
    assert!(!win);
    let (quit, win) = board.key_press(Key::Char('x'), false);
    assert!(!quit);
    assert!(!win);
    let (quit, win) = board.key_press(Key::Other, false);
    assert!(!quit);
    assert!(!win);
    assert_eq!(board.cursor_row, 0);
    assert_eq!(board.cursor_col, 0);
    assert_eq!(board.cell(1, 0).value(), None);
    assert_eq!(board.cell(2, 0).value(), None);
}

#[test]
fn test_menu_action_dispatch() {
    assert_eq!(menu_action(Key::Char('q'), 3), MenuAction::Quit);
    assert_eq!(menu_action(Key::Char('1'), 3), MenuAction::Play(0));
    assert_eq!(menu_action(Key::Char('3'), 3), MenuAction::Play(2));
    assert_eq!(menu_action(Key::Char('9'), 3), MenuAction::Stay);
    assert_eq!(menu_action(Key::Char('0'), 3), MenuAction::Stay);
    assert_eq!(menu_action(Key::Char('a'), 3), MenuAction::Stay);
    assert_eq!(menu_action(Key::Enter, 3), MenuAction::Stay);
    assert_eq!(menu_action(Key::Esc, 3), MenuAction::Stay);
}

#[test]
fn test_levels_shapes() {
    let lvls = levels();
    assert_eq!(lvls.len(), 3);
    assert_eq!(lvls[0].0, "Level 1 (3 x 3)");
    assert_eq!(lvls[1].0, "Level 2 (5 x 5)");
    assert_eq!(lvls[2].0, "Level 3 (8 x 8)");
    assert_eq!(lvls[0].1.rows, 3);
    assert_eq!(lvls[0].1.cols, 3);
    assert_eq!(lvls[1].1.rows, 5);
    assert_eq!(lvls[1].1.cols, 5);
    assert_eq!(lvls[2].1.rows, 8);
    assert_eq!(lvls[2].1.cols, 8);
    assert!(lvls[0].1.cell(0, 1).is_clue());
    assert_eq!(lvls[0].1.cell(0, 1).down_sum(), Some(12));
    assert!(!lvls[0].1.cell(1, 1).is_clue());
}

#[test]
fn test_render_ops_column_board() {
    let mut board = column_board();
    board.cell_mut(1, 0).set_value(Some(3));
    let ops = board.render_ops();
    // Clue cell block: three blank-or-content rows split into seven writes,
    // two playable boxes of three writes each, then four help-line writes.
    assert_eq!(ops.len(), 7 + 3 + 3 + 4);
    assert_eq!(ops[0].x, 0);
    assert_eq!(ops[0].y, 0);
    assert_eq!(ops[0].text, "     ");
    assert_eq!(ops[0].style, Style::Plain);
    // The clue content row: right-justified down target after a space.
    assert_eq!(ops[1].text, " ");
    assert_eq!(ops[2].x, 1);
    assert_eq!(ops[2].y, 1);
    assert_eq!(ops[2].text, " 7");
    assert_eq!(ops[2].style, Style::Plain);
    assert_eq!(ops[3].x, 3);
    assert_eq!(ops[3].text, "\\");
    assert_eq!(ops[4].x, 4);
    assert_eq!(ops[4].text, "  ");
    assert_eq!(ops[5].x, 6);
    assert_eq!(ops[5].text, " ");
    // The filled playable cell shows its digit.
    assert_eq!(ops[7].x, 0);
    assert_eq!(ops[7].y, 3);
    assert_eq!(ops[7].text, "┌─────┐");
    assert_eq!(ops[8].y, 4);
    assert_eq!(ops[8].text, "|  3  |");
    assert_eq!(ops[9].y, 5);
    assert_eq!(ops[9].text, "└─────┘");
    // The empty playable cell shows the placeholder.
    assert_eq!(ops[11].text, "|  _  |");
    // The help line sits one row below the grid.
    assert_eq!(ops[13].x, 0);
    assert_eq!(ops[13].y, 10);
    assert_eq!(ops[13].text, "esc");
    assert_eq!(ops[13].style, Style::Bold);
    assert_eq!(ops[14].text, ": home | ");
    assert_eq!(ops[15].text, "return");
    assert_eq!(ops[15].style, Style::Bold);
    assert_eq!(ops[16].text, ": check");
}

#[test]
fn test_render_ops_flagged_clue_is_alert() {
    let mut board = column_board();
    board.check();
    assert!(board.cell(0, 0).is_d_incorrect());
    let ops = board.render_ops();
    assert_eq!(ops[2].text, " 7");
    assert_eq!(ops[2].style, Style::Alert);
    assert_eq!(ops[4].style, Style::Plain);
}

#[test]
fn test_render_ops_blank_clue() {
    let grid = vec![vec![Cell::new_clue(None, None), Cell::new_play()]];
    let board = Board::new(grid, 1, 2);
    let ops = board.render_ops();
    assert_eq!(ops.len(), 3 + 3 + 4);
    assert_eq!(ops[1].x, 0);
    assert_eq!(ops[1].y, 1);
    assert_eq!(ops[1].text, "       ");
    // The playable box starts at the next cell block.
    assert_eq!(ops[3].x, 7);
    assert_eq!(ops[3].y, 0);
}

#[test]
fn test_render_ops_wide_targets_shift() {
    let grid = vec![vec![Cell::new_clue(Some(123), Some(4567)), Cell::new_play()]];
    let board = Board::new(grid, 1, 2);
    let ops = board.render_ops();
    assert_eq!(ops[2].x, 1);
    assert_eq!(ops[2].text, "4567");
    // The separator and the across target flow to the right of the
    // four-digit down target.
    assert_eq!(ops[3].x, 5);
    assert_eq!(ops[3].text, "\\");
    assert_eq!(ops[4].x, 6);
    assert_eq!(ops[4].text, "123");
    assert_eq!(ops[5].x, 9);
}

#[test]
fn test_cursor_screen_position_and_blink() {
    let mut board = column_board();
    assert_eq!(board.cursor_screen_pos(), (3, 1));
    assert!(!board.cursor_blinks());
    board.down();
    assert_eq!(board.cursor_screen_pos(), (3, 4));
    assert!(board.cursor_blinks());
}
