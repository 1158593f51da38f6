use kakuro::Cell;

#[test]
fn test_new_play_cell() {
    let cell = Cell::new_play();
    assert!(!cell.is_clue());
    assert_eq!(cell.value(), None);
}

#[test]
fn test_new_clue_cell() {
    let cell = Cell::new_clue(Some(10), Some(20));
    assert!(cell.is_clue());
    assert_eq!(cell.across_sum(), Some(10));
    assert_eq!(cell.down_sum(), Some(20));
}

#[test]
fn test_set_and_get_value() {
    let mut cell = Cell::new_play();
    cell.set_value(Some(5));
    let val = cell.value();
    assert_eq!(val, Some(5));
    cell.set_value(None);
    let val = cell.value();
    assert_eq!(val, None);
}

#[test]
fn test_incorrect_flags() {
    let mut cell = Cell::new_clue(Some(10), Some(20));
    cell.set_a_incorrect(true);
    assert!(cell.is_a_incorrect());
    cell.set_d_incorrect(true);
    assert!(cell.is_d_incorrect());
    cell.set_a_incorrect(false);
    assert!(!cell.is_a_incorrect());
    cell.set_d_incorrect(false);
    assert!(!cell.is_d_incorrect());
}

#[test]
fn test_string_creation() {
    let empty_clue = Cell::new_clue(None, None);
    assert_eq!(empty_clue.clue_string(), (String::new(), String::new()));
    let down_clue = Cell::new_clue(None, Some(20));
    assert_eq!(
        down_clue.clue_string(),
        ("20".to_string(), "  ".to_string())
    );
    let across_clue = Cell::new_clue(Some(20), None);
    assert_eq!(
        across_clue.clue_string(),
        ("  ".to_string(), 20.to_string())
    );
    let both_clue = Cell::new_clue(Some(10), Some(20));
    assert_eq!(
        both_clue.clue_string(),
        ("20".to_string(), "10".to_string())
    );
    let mut play_cell = Cell::new_play();
    assert_eq!(
        play_cell.play_strings(),
        (
            "┌─────┐".to_string(),
            "|  _  |".to_string(),
            "└─────┘".to_string()
        )
    );
    play_cell.set_value(Some(5));
    assert_eq!(
        play_cell.play_strings(),
        (
            "┌─────┐".to_string(),
            "|  5  |".to_string(),
            "└─────┘".to_string()
        )
    );
}

#[test]
fn test_clue_string_single_digit_targets() {
    let clue = Cell::new_clue(Some(3), Some(9));
    assert_eq!(clue.clue_string(), (" 9".to_string(), "3 ".to_string()));
}

#[test]
fn test_clue_string_wide_targets() {
    let clue = Cell::new_clue(Some(123), Some(4567));
    assert_eq!(
        clue.clue_string(),
        ("4567".to_string(), "123".to_string())
    );
}
