use picross::board::{Board, CellState};
use picross::constraints::{to_decimal, Constraints};
use picross::cursor::Cursor;
use picross::error::PuzzleError;

#[test]
fn new_board_is_blank() {
    let b = Board::new(4, 2);
    assert_eq!(b.get_size(), (2, 4));
    for c in 0..4 {
        for r in 0..2 {
            assert_eq!(b.get(c, r), CellState::BLANK);
        }
    }
}

#[test]
fn toggle_fill_round_trips_from_blank_and_filled() {
    let mut b = Board::new(2, 2);
    b.toggle_fill_at((1, 0));
    assert_eq!(b.get(1, 0), CellState::FILLED);
    b.toggle_fill_at((1, 0));
    assert_eq!(b.get(1, 0), CellState::BLANK);
    assert_eq!(b.get(0, 0), CellState::BLANK);
    assert_eq!(b.get(1, 1), CellState::BLANK);
}

#[test]
fn toggle_fill_on_crossed_cell_fills_it() {
    let mut b = Board::new(2, 2);
    b.toggle_cross_at((0, 1));
    assert_eq!(b.get(0, 1), CellState::CROSSED);
    b.toggle_fill_at((0, 1));
    assert_eq!(b.get(0, 1), CellState::FILLED);
    b.toggle_fill_at((0, 1));
    assert_eq!(b.get(0, 1), CellState::BLANK);
}

#[test]
fn toggle_cross_on_filled_cell_crosses_it() {
    let mut b = Board::new(2, 2);
    b.toggle_fill_at((1, 1));
    b.toggle_cross_at((1, 1));
    assert_eq!(b.get(1, 1), CellState::CROSSED);
    b.toggle_cross_at((1, 1));
    assert_eq!(b.get(1, 1), CellState::BLANK);
}

#[test]
fn fill_then_cross_on_three_by_three() {
    let mut b = Board::new(3, 3);
    b.toggle_fill_at((1, 1));
    b.toggle_cross_at((1, 1));
    for c in 0..3 {
        for r in 0..3 {
            let expected = if c == 1 && r == 1 { CellState::CROSSED } else { CellState::BLANK };
            assert_eq!(b.get(c, r), expected);
        }
    }
}

#[test]
fn cursor_stops_at_origin() {
    let mut c = Cursor::new((3, 2));
    assert_eq!(c.position(), (0, 0));
    for _ in 0..5 {
        c.move_up();
        c.move_left();
    }
    assert_eq!(c.position(), (0, 0));
}

#[test]
fn cursor_stops_at_far_edge() {
    let mut c = Cursor::new((3, 2));
    for _ in 0..7 {
        c.move_down();
        c.move_right();
    }
    assert_eq!(c.position(), (2, 1));
    c.move_left();
    c.move_up();
    assert_eq!(c.position(), (1, 0));
}

#[test]
fn cursor_on_single_cell_never_moves() {
    let mut c = Cursor::new((1, 1));
    c.move_down();
    c.move_right();
    c.move_up();
    c.move_left();
    assert_eq!(c.position(), (0, 0));
}

#[test]
fn constraints_set_get_round_trip() {
    let mut t = Constraints::new(3);
    assert_eq!(t.get_size(), 3);
    assert_eq!(t.get(1), Ok(vec![]));
    assert_eq!(t.set(1, vec![4, 0, 17]), Ok(()));
    assert_eq!(t.get(1), Ok(vec![4, 0, 17]));
    assert_eq!(t.get(0), Ok(vec![]));
    assert_eq!(t.set(1, vec![2]), Ok(()));
    assert_eq!(t.get(1), Ok(vec![2]));
}

#[test]
fn constraints_out_of_bounds() {
    let mut t = Constraints::new(2);
    assert_eq!(t.set(2, vec![1]), Err(PuzzleError::OutOfBounds));
    assert_eq!(t.get(2), Err(PuzzleError::OutOfBounds));
    assert_eq!(t.get(usize::MAX), Err(PuzzleError::OutOfBounds));
    let empty = Constraints::new(0);
    assert_eq!(empty.get(0), Err(PuzzleError::OutOfBounds));
}

#[test]
fn digit_width_sums_digits() {
    let mut t = Constraints::new(2);
    t.set(0, vec![12, 3]).unwrap();
    t.set(1, vec![4294967295, 0]).unwrap();
    assert_eq!(t.get_digits_at(0), 3);
    assert_eq!(t.get_digits_at(1), 11);
    assert_eq!(t.get_len_at(0), 2);
}

#[test]
fn maxima_are_zero_at_index_zero_when_empty() {
    let t = Constraints::new(4);
    assert_eq!(t.get_max_len(), (0, 0));
    assert_eq!(t.get_max_digits(), (0, 0));
    let none = Constraints::new(0);
    assert_eq!(none.get_max_len(), (0, 0));
    assert_eq!(none.get_max_digits(), (0, 0));
}

#[test]
fn maxima_pick_first_index_on_ties() {
    let mut t = Constraints::new(4);
    t.set(0, vec![1]).unwrap();
    t.set(1, vec![1, 1]).unwrap();
    t.set(2, vec![10]).unwrap();
    t.set(3, vec![2, 2]).unwrap();
    assert_eq!(t.get_max_len(), (2, 1));
    assert_eq!(t.get_max_digits(), (2, 1));
    t.set(0, vec![100]).unwrap();
    assert_eq!(t.get_max_digits(), (3, 0));
}

#[test]
fn decimal_digits() {
    assert_eq!(to_decimal(0), vec!['0']);
    assert_eq!(to_decimal(907), vec!['9', '0', '7']);
    assert_eq!(to_decimal(4294967295).len(), 10);
}

#[test]
fn error_messages() {
    assert_eq!(PuzzleError::OutOfBounds.message(), "Index out of bounds for constraints");
    assert_eq!(PuzzleError::Format.message(), "Puzzle file has improper format");
}
