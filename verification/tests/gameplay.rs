use tictactoe::model::{CoordinateState, Error, GamePlayer, GameState};
use tictactoe::store::GameStore;

fn s(x: &str) -> String {
    x.to_string()
}

/// Creator plays every move: the creator of a waiting game who moves first
/// is bound as their own opponent, so both roles answer to them and turns
/// simply alternate.
fn self_play(store: &mut GameStore, id: &String, moves: &[&str]) {
    for m in moves {
        store.play_move(&s("A"), id, m).unwrap();
    }
}

#[test]
fn create_assigns_id_and_fresh_game() {
    let mut store = GameStore::new();
    let id = store.create_game(&s("A")).unwrap();
    assert_eq!(id, "A-0");
    assert!(id.contains('A'));
    let g = store.get_game(&id).unwrap();
    assert_eq!(g.state, GameState::WaitingForOpponent);
    assert_eq!(g.board.len(), 9);
    assert!(g.board.iter().all(|c| *c == CoordinateState::Empty));
    assert_eq!(g.turn, GamePlayer::Creator);
    assert_eq!(g.creator.0, "A");
    assert!(g.opponent.is_none());
    assert!(g.moves.is_empty());
    assert!(g.winner.is_none());
}

#[test]
fn create_twice_reports_pending_game() {
    let mut store = GameStore::new();
    store.create_game(&s("A")).unwrap();
    let r = store.create_game(&s("A"));
    assert!(matches!(r, Err(Error::PendingGame { .. })));
    // another caller is not blocked
    assert!(store.create_game(&s("B")).is_ok());
}

#[test]
fn in_progress_game_blocks_its_creator() {
    let mut store = GameStore::new();
    let id = store.create_game(&s("A")).unwrap();
    store.play_move(&s("A"), &id, "0,0").unwrap();
    assert_eq!(store.get_game(&id).unwrap().state, GameState::InProgress);
    let r = store.create_game(&s("A"));
    assert!(matches!(r, Err(Error::PendingGame { .. })));
}

#[test]
fn being_an_opponent_does_not_block_creation() {
    let mut store = GameStore::new();
    let id = store.create_game(&s("A")).unwrap();
    let _ = store.play_move(&s("B"), &id, "0,0"); // binds B as opponent
    // only creators of unfinished games are blocked
    assert!(store.create_game(&s("B")).is_ok());
}

#[test]
fn finished_games_do_not_block_creation() {
    let mut store = GameStore::new();
    let id = store.create_game(&s("A")).unwrap();
    // creator finishes a game against themself: X takes row 0
    self_play(&mut store, &id, &["0,0", "0,1", "1,0", "1,1", "2,0"]);
    assert_eq!(store.get_game(&id).unwrap().state, GameState::Finished);
    let id2 = store.create_game(&s("A")).unwrap();
    assert_eq!(id2, "A-1");
}

#[test]
fn counter_is_not_reused_after_deletion() {
    let mut store = GameStore::new();
    let id = store.create_game(&s("A")).unwrap();
    store.delete_game(&s("A"), &id).unwrap();
    let id2 = store.create_game(&s("A")).unwrap();
    assert_eq!(id2, "A-1");
}

#[test]
fn first_move_marks_x_and_binds_opponent() {
    let mut store = GameStore::new();
    let id = store.create_game(&s("A")).unwrap();
    store.play_move(&s("A"), &id, "0,0").unwrap();
    let g = store.get_game(&id).unwrap();
    assert_eq!(g.board[0], CoordinateState::X);
    assert_eq!(g.turn, GamePlayer::Opponent);
    assert_eq!(g.state, GameState::InProgress);
    assert_eq!(g.opponent.as_ref().unwrap().0, "A");
    assert_eq!(g.moves.len(), 1);
    assert_eq!(g.moves[0].player, GamePlayer::Creator);
}

#[test]
fn joining_move_binds_opponent_even_when_rejected() {
    let mut store = GameStore::new();
    let id = store.create_game(&s("A")).unwrap();
    // B moves first: B is bound as opponent before the turn check, which
    // then fails because the first turn belongs to the creator; the
    // binding is deliberately not rolled back.
    let r = store.play_move(&s("B"), &id, "0,0");
    assert!(matches!(r, Err(Error::InvalidTurn { .. })));
    let g = store.get_game(&id).unwrap();
    assert_eq!(g.state, GameState::InProgress);
    assert_eq!(g.opponent.as_ref().unwrap().0, "B");
    assert!(g.board.iter().all(|c| *c == CoordinateState::Empty));
    // now the game plays out normally
    store.play_move(&s("A"), &id, "0,0").unwrap();
    store.play_move(&s("B"), &id, "1,1").unwrap();
    let g = store.get_game(&id).unwrap();
    assert_eq!(g.board[0], CoordinateState::X);
    assert_eq!(g.board[4], CoordinateState::O);
    assert_eq!(g.turn, GamePlayer::Creator);
}

#[test]
fn third_party_gets_invalid_permission() {
    let mut store = GameStore::new();
    let id = store.create_game(&s("A")).unwrap();
    let _ = store.play_move(&s("B"), &id, "0,0"); // binds B
    let r = store.play_move(&s("C"), &id, "0,0");
    assert!(matches!(r, Err(Error::InvalidPermission { .. })));
}

#[test]
fn playing_out_of_turn_gets_invalid_turn() {
    let mut store = GameStore::new();
    let id = store.create_game(&s("A")).unwrap();
    let _ = store.play_move(&s("B"), &id, "0,0"); // binds B, rejected
    store.play_move(&s("A"), &id, "0,0").unwrap();
    // A again, but the turn now belongs to the opponent B
    let r = store.play_move(&s("A"), &id, "1,1");
    assert!(matches!(r, Err(Error::InvalidTurn { .. })));
}

#[test]
fn unknown_game_id_is_rejected() {
    let mut store = GameStore::new();
    store.create_game(&s("A")).unwrap();
    let r = store.play_move(&s("A"), &s("nope"), "0,0");
    assert!(matches!(r, Err(Error::InvalidGameId { .. })));
}

#[test]
fn row_win_finishes_game_with_creator_as_winner() {
    let mut store = GameStore::new();
    let id = store.create_game(&s("A")).unwrap();
    // X at (0,0), (1,0), (2,0); O at (0,1), (1,1)
    self_play(&mut store, &id, &["0,0", "0,1", "1,0", "1,1", "2,0"]);
    let g = store.get_game(&id).unwrap();
    assert_eq!(g.state, GameState::Finished);
    assert_eq!(g.winner, Some(GamePlayer::Creator));
    assert_eq!(
        g.board.iter().filter(|c| **c == CoordinateState::Empty).count(),
        4
    );
}

#[test]
fn opponent_can_win_with_o() {
    let mut store = GameStore::new();
    let id = store.create_game(&s("A")).unwrap();
    // X at (0,0), (1,0), (2,1); O takes column 1: (1,1), (1,2) ... needs 3
    self_play(&mut store, &id, &["0,0", "1,0", "2,1", "1,1", "0,2", "1,2"]);
    let g = store.get_game(&id).unwrap();
    assert_eq!(g.state, GameState::Finished);
    assert_eq!(g.winner, Some(GamePlayer::Opponent));
}

#[test]
fn full_board_without_line_is_a_draw() {
    let mut store = GameStore::new();
    let id = store.create_game(&s("A")).unwrap();
    self_play(
        &mut store,
        &id,
        &["0,0", "2,0", "1,0", "0,1", "2,1", "1,1", "0,2", "2,2", "1,2"],
    );
    let g = store.get_game(&id).unwrap();
    assert_eq!(g.state, GameState::Finished);
    assert_eq!(g.winner, None);
    assert_eq!(g.moves.len(), 9);
    assert!(g.board.iter().all(|c| *c != CoordinateState::Empty));
}

#[test]
fn moves_against_finished_game_are_rejected() {
    let mut store = GameStore::new();
    let id = store.create_game(&s("A")).unwrap();
    self_play(&mut store, &id, &["0,0", "0,1", "1,0", "1,1", "2,0"]);
    let r = store.play_move(&s("A"), &id, "2,2");
    assert!(matches!(r, Err(Error::FinishedGame { .. })));
    let g = store.get_game(&id).unwrap();
    assert_eq!(g.moves.len(), 5);
}

#[test]
fn occupied_cell_is_never_overwritten() {
    let mut store = GameStore::new();
    let id = store.create_game(&s("A")).unwrap();
    store.play_move(&s("A"), &id, "0,0").unwrap();
    let r = store.play_move(&s("A"), &id, "0,0");
    assert!(matches!(r, Err(Error::InvalidCoordinates { .. })));
    let g = store.get_game(&id).unwrap();
    assert_eq!(g.board[0], CoordinateState::X);
    assert_eq!(g.moves.len(), 1);
    assert_eq!(g.turn, GamePlayer::Opponent);
}

#[test]
fn turns_alternate_across_successful_moves() {
    let mut store = GameStore::new();
    let id = store.create_game(&s("A")).unwrap();
    self_play(&mut store, &id, &["0,0", "0,1", "1,0", "1,1"]);
    let g = store.get_game(&id).unwrap();
    let players: Vec<GamePlayer> = g.moves.iter().map(|m| m.player).collect();
    assert_eq!(
        players,
        vec![
            GamePlayer::Creator,
            GamePlayer::Opponent,
            GamePlayer::Creator,
            GamePlayer::Opponent
        ]
    );
    assert_eq!(g.turn, GamePlayer::Creator);
}

#[test]
fn delete_by_stranger_is_rejected_and_store_unchanged() {
    let mut store = GameStore::new();
    let id = store.create_game(&s("A")).unwrap();
    let r = store.delete_game(&s("B"), &id);
    assert!(matches!(r, Err(Error::InvalidPermission { .. })));
    assert!(store.get_game(&id).is_some());
}

#[test]
fn delete_by_creator_removes_the_game() {
    let mut store = GameStore::new();
    let id = store.create_game(&s("A")).unwrap();
    store.delete_game(&s("A"), &id).unwrap();
    assert!(store.get_game(&id).is_none());
}

#[test]
fn delete_of_unknown_id_is_rejected() {
    let mut store = GameStore::new();
    store.create_game(&s("A")).unwrap();
    let r = store.delete_game(&s("A"), &s("missing"));
    assert!(matches!(r, Err(Error::InvalidGameId { .. })));
}
