use tictactoe::model::{CoordinateState, GamePlayer};
use tictactoe::win::check_winner;

fn board(marks: &[(usize, CoordinateState)]) -> Vec<CoordinateState> {
    let mut b = vec![CoordinateState::Empty; 9];
    for (i, m) in marks {
        b[*i] = *m;
    }
    b
}

use CoordinateState::{O, X};

#[test]
fn empty_board_has_no_winner() {
    assert_eq!(check_winner(&vec![CoordinateState::Empty; 9]), None);
}

#[test]
fn top_row_of_x_wins_for_creator_with_six_cells_empty() {
    let b = board(&[(0, X), (1, X), (2, X)]);
    assert_eq!(b.iter().filter(|c| **c == CoordinateState::Empty).count(), 6);
    assert_eq!(check_winner(&b), Some(GamePlayer::Creator));
}

#[test]
fn each_row_wins() {
    assert_eq!(check_winner(&board(&[(3, O), (4, O), (5, O)])), Some(GamePlayer::Opponent));
    assert_eq!(check_winner(&board(&[(6, X), (7, X), (8, X)])), Some(GamePlayer::Creator));
}

#[test]
fn each_column_wins() {
    assert_eq!(check_winner(&board(&[(0, O), (3, O), (6, O)])), Some(GamePlayer::Opponent));
    assert_eq!(check_winner(&board(&[(1, X), (4, X), (7, X)])), Some(GamePlayer::Creator));
    assert_eq!(check_winner(&board(&[(2, O), (5, O), (8, O)])), Some(GamePlayer::Opponent));
}

#[test]
fn diagonals_win() {
    assert_eq!(check_winner(&board(&[(0, X), (4, X), (8, X)])), Some(GamePlayer::Creator));
    assert_eq!(check_winner(&board(&[(2, O), (4, O), (6, O)])), Some(GamePlayer::Opponent));
}

#[test]
fn incomplete_lines_do_not_win() {
    assert_eq!(check_winner(&board(&[(0, X), (1, X), (2, O)])), None);
    assert_eq!(check_winner(&board(&[(0, X), (4, O), (8, X)])), None);
}

#[test]
fn full_draw_board_has_no_winner() {
    let b = vec![X, X, O, O, O, X, X, X, O];
    assert_eq!(check_winner(&b), None);
}

#[test]
fn scan_order_prefers_the_earlier_row() {
    // not reachable through legal alternating play, but the detector must
    // not assume legality: the first complete line in scan order decides
    let b = board(&[(0, X), (1, X), (2, X), (6, O), (7, O), (8, O)]);
    assert_eq!(check_winner(&b), Some(GamePlayer::Creator));
    let b = board(&[(0, O), (1, O), (2, O), (6, X), (7, X), (8, X)]);
    assert_eq!(check_winner(&b), Some(GamePlayer::Opponent));
}
