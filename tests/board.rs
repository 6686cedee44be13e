use nmoku::board::{Board, BoardError};
use nmoku::stone::Stone;

fn board_of(rows: [&str; 3]) -> Board {
    let mut b = Board::new(3).unwrap();
    for (y, row) in rows.iter().enumerate() {
        for (x, c) in row.chars().enumerate() {
            match c {
                'o' => b.put(Some(Stone::Black), x, y),
                'x' => b.put(Some(Stone::White), x, y),
                _ => {}
            }
        }
    }
    b
}

#[test]
fn new_rejects_zero_size() {
    assert!(matches!(Board::new(0), Err(BoardError::InvalidSize)));
}

#[test]
fn new_board_is_square_and_empty() {
    let b = Board::new(4).unwrap();
    assert_eq!(b.stones().len(), 4);
    for row in b.stones() {
        assert_eq!(row.len(), 4);
        assert!(row.iter().all(|c| c.is_none()));
    }
    assert!(b.is_empty(3, 3));
}

#[test]
fn one_by_one_board() {
    let mut b = Board::new(1).unwrap();
    assert_eq!(b.check_winner(), None);
    assert!(!b.check_draw());
    b.put(Some(Stone::White), 0, 0);
    assert_eq!(b.check_winner(), Some(Stone::White));
    assert!(!b.check_draw());
}

#[test]
fn put_overwrites_one_cell() {
    let mut b = Board::new(3).unwrap();
    b.put(Some(Stone::Black), 2, 1);
    assert!(!b.is_empty(2, 1));
    assert_eq!(b.stones()[1][2], Some(Stone::Black));
    assert!(b.is_empty(1, 2));
    b.put(Some(Stone::White), 2, 1);
    assert_eq!(b.stones()[1][2], Some(Stone::White));
    b.put(None, 2, 1);
    assert!(b.is_empty(2, 1));
}

#[test]
fn winner_by_row() {
    assert_eq!(board_of(["...", "xxx", "oo."]).check_winner(), Some(Stone::White));
    assert_eq!(board_of(["x.x", "o..", "ooo"]).check_winner(), Some(Stone::Black));
}

#[test]
fn winner_by_column() {
    assert_eq!(board_of(["o.x", "o.x", "..x"]).check_winner(), Some(Stone::White));
    assert_eq!(board_of(["xo.", ".o.", "xo."]).check_winner(), Some(Stone::Black));
}

#[test]
fn winner_by_diagonal() {
    assert_eq!(board_of(["o.x", ".ox", "..o"]).check_winner(), Some(Stone::Black));
    assert_eq!(board_of(["o.x", ".x.", "xo."]).check_winner(), Some(Stone::White));
}

#[test]
fn no_winner_without_full_line() {
    assert_eq!(Board::new(3).unwrap().check_winner(), None);
    assert_eq!(board_of(["oo.", "xx.", "..."]).check_winner(), None);
    assert_eq!(board_of(["ox.", "xo.", "..x"]).check_winner(), None);
}

#[test]
fn first_row_scanned_wins_over_later_lines() {
    assert_eq!(board_of(["xxx", "ooo", "..."]).check_winner(), Some(Stone::White));
    assert_eq!(board_of(["o.x", "o.x", "o.x"]).check_winner(), Some(Stone::Black));
}

#[test]
fn draw_on_full_board_without_line() {
    let b = board_of(["oxo", "oxx", "xoo"]);
    assert_eq!(b.check_winner(), None);
    assert!(b.check_draw());
}

#[test]
fn no_draw_with_empty_cell() {
    let b = board_of(["oxo", "oxx", "xo."]);
    assert_eq!(b.check_winner(), None);
    assert!(!b.check_draw());
}

#[test]
fn no_draw_on_full_board_with_winner() {
    let b = board_of(["ooo", "xxo", "oxx"]);
    assert_eq!(b.check_winner(), Some(Stone::Black));
    assert!(!b.check_draw());
}

#[test]
fn clone_is_independent_copy() {
    let b = board_of(["o..", ".x.", "..o"]);
    let mut c = b.clone();
    assert_eq!(c.stones(), b.stones());
    c.put(Some(Stone::White), 0, 2);
    assert!(b.is_empty(0, 2));
    assert!(!c.is_empty(0, 2));
}
