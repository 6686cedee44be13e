use nmoku::ai::{action, action_with_choice, available_actions};
use nmoku::board::Board;
use nmoku::stone::Stone;

fn count(b: &Board, s: Option<Stone>) -> usize {
    b.stones().iter().flatten().filter(|c| **c == s).count()
}

#[test]
fn available_actions_in_row_major_order() {
    let mut b = Board::new(3).unwrap();
    b.put(Some(Stone::Black), 0, 0);
    b.put(Some(Stone::White), 2, 0);
    b.put(Some(Stone::Black), 1, 1);
    b.put(Some(Stone::White), 0, 2);
    assert_eq!(available_actions(&b), vec![(1, 0), (0, 1), (2, 1), (1, 2), (2, 2)]);
}

#[test]
fn available_actions_of_full_board_is_empty() {
    let mut b = Board::new(2).unwrap();
    for y in 0..2 {
        for x in 0..2 {
            b.put(Some(Stone::Black), x, y);
        }
    }
    assert!(available_actions(&b).is_empty());
}

#[test]
fn action_with_choice_takes_that_empty_cell() {
    let mut b = Board::new(3).unwrap();
    b.put(Some(Stone::Black), 0, 0);
    action_with_choice(&mut b, Stone::White, 3);
    assert_eq!(b.stones()[1][1], Some(Stone::White));
    assert_eq!(count(&b, Some(Stone::White)), 1);
    assert_eq!(count(&b, None), 7);
}

#[test]
fn action_fills_the_only_empty_cell() {
    let mut b = Board::new(2).unwrap();
    b.put(Some(Stone::Black), 0, 0);
    b.put(Some(Stone::Black), 1, 0);
    b.put(Some(Stone::White), 1, 1);
    action(&mut b, Stone::White);
    assert_eq!(b.stones()[1][0], Some(Stone::White));
    assert_eq!(count(&b, None), 0);
}

#[test]
fn action_places_one_stone_on_an_empty_cell() {
    for _ in 0..50 {
        let mut b = Board::new(3).unwrap();
        b.put(Some(Stone::Black), 1, 1);
        b.put(Some(Stone::Black), 2, 2);
        action(&mut b, Stone::White);
        assert_eq!(b.stones()[1][1], Some(Stone::Black));
        assert_eq!(b.stones()[2][2], Some(Stone::Black));
        assert_eq!(count(&b, Some(Stone::White)), 1);
        assert_eq!(count(&b, None), 6);
    }
}

#[test]
fn action_on_full_board_changes_nothing() {
    let mut b = Board::new(2).unwrap();
    for y in 0..2 {
        for x in 0..2 {
            b.put(Some(Stone::Black), x, y);
        }
    }
    action(&mut b, Stone::White);
    assert_eq!(count(&b, Some(Stone::Black)), 4);
}
