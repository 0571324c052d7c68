use tictactoe::model::{CoordinateState, Error};
use tictactoe::store::GameStore;
use tictactoe::text::parse_move;

fn s(x: &str) -> String {
    x.to_string()
}

#[test]
fn parse_move_accepts_plain_coordinates() {
    assert_eq!(parse_move("0,0"), Some((0, 0)));
    assert_eq!(parse_move("2,1"), Some((2, 1)));
    assert_eq!(parse_move("12,200"), Some((12, 200)));
}

#[test]
fn parse_move_accepts_sign_and_leading_zeros() {
    assert_eq!(parse_move("+1,+2"), Some((1, 2)));
    assert_eq!(parse_move("01,002"), Some((1, 2)));
}

#[test]
fn parse_move_ignores_text_after_second_coordinate() {
    assert_eq!(parse_move("1,2,3"), Some((1, 2)));
    assert_eq!(parse_move("0,0,junk"), Some((0, 0)));
}

#[test]
fn parse_move_rejects_malformed_text() {
    assert_eq!(parse_move(""), None);
    assert_eq!(parse_move("1"), None);
    assert_eq!(parse_move(","), None);
    assert_eq!(parse_move("1,"), None);
    assert_eq!(parse_move(",1"), None);
    assert_eq!(parse_move("a,0"), None);
    assert_eq!(parse_move("0,b"), None);
    assert_eq!(parse_move(" 1,1"), None);
    assert_eq!(parse_move("1, 1"), None);
    assert_eq!(parse_move("-1,0"), None);
    assert_eq!(parse_move("+,1"), None);
    assert_eq!(parse_move("256,0"), None);
    assert_eq!(parse_move("99999999999999999999,0"), None);
}

#[test]
fn malformed_move_text_gives_invalid_coordinates() {
    let mut store = GameStore::new();
    let id = store.create_game(&s("A")).unwrap();
    for bad in ["", "1", "a,0", "-1,0", "1;2", "256,0"] {
        let r = store.play_move(&s("A"), &id, bad);
        assert!(matches!(r, Err(Error::InvalidCoordinates { .. })), "{bad:?}");
    }
    // the rejected texts never reached the board
    let g = store.get_game(&id).unwrap();
    assert!(g.board.iter().all(|c| *c == CoordinateState::Empty));
    assert!(g.moves.is_empty());
}

#[test]
fn out_of_range_coordinates_give_invalid_coordinates() {
    let mut store = GameStore::new();
    let id = store.create_game(&s("A")).unwrap();
    for bad in ["3,0", "0,3", "200,200"] {
        let r = store.play_move(&s("A"), &id, bad);
        assert!(matches!(r, Err(Error::InvalidCoordinates { .. })), "{bad:?}");
    }
}

#[test]
fn quirky_but_wellformed_text_is_accepted() {
    let mut store = GameStore::new();
    let id = store.create_game(&s("A")).unwrap();
    store.play_move(&s("A"), &id, "+1,01").unwrap();
    let g = store.get_game(&id).unwrap();
    // (x, y) = (1, 1) is cell 4
    assert_eq!(g.board[4], CoordinateState::X);
}
