//! The game state machine: validates one submitted move against one game
//! and applies it, consulting the win detector.
//!
//! A move against a game still waiting for an opponent first binds the
//! caller as opponent and advances the game to in-progress — deliberately
//! before permission, turn and coordinate validation, so a later validation
//! failure does not roll the binding back (a documented hazard of the
//! design, preserved here). All remaining validation is non-mutating on
//! failure; application is all-or-nothing.

use vstd::prelude::*;

use crate::model::{
    flip, game_inv, has_empty, mark_of, CoordinateState, Error, Game, GameMove, GamePlayer,
    GameState, GameView, StableString,
};
use crate::text::{parse_move, parse_move_spec};
use crate::win::{
    check_winner, detect_winner, lemma_detect_none_iff_no_winner, lemma_detect_some_wins,
};

verus! {

/// The opponent-binding step: a move against a waiting game binds the
/// caller (whoever it is, the creator included) as opponent and advances
/// the state; any other state leaves the game as it is.
pub open spec fn bound_view(g: GameView, caller: Seq<char>) -> GameView {
    if g.state == GameState::WaitingForOpponent {
        GameView {
            id: g.id,
            creator: g.creator,
            opponent: Option::Some(caller),
            state: GameState::InProgress,
            board: g.board,
            moves: g.moves,
            turn: g.turn,
            winner: g.winner,
        }
    } else {
        g
    }
}

/// Whether the caller may act on the game at all: it must be the creator or
/// the bound opponent.
pub open spec fn permitted(g: GameView, caller: Seq<char>) -> bool {
    g.creator == caller || g.opponent == Option::Some(caller)
}

/// Whether it is the caller's turn: the role owed the next move must be one
/// the caller holds.
pub open spec fn is_callers_turn(g: GameView, caller: Seq<char>) -> bool {
    match g.turn {
        GamePlayer::Creator => g.creator == caller,
        GamePlayer::Opponent => g.opponent == Option::Some(caller),
    }
}

/// The board index of the cell at column `x`, row `y`.
pub open spec fn cell_of(x: u8, y: u8) -> int {
    3 * (y as int) + (x as int)
}

/// The game after applying a validated move: the acting role's mark is
/// placed, the move is recorded, then the turn flips while any cell is
/// still empty (a full board finishes the game instead), and independently
/// a completed line forces the game finished with its role as winner.
pub open spec fn applied_view(g: GameView, x: u8, y: u8) -> GameView
    recommends
        game_inv(g),
        x <= 2,
        y <= 2,
        g.board[cell_of(x, y)] == CoordinateState::Empty,
{
    let b2 = g.board.update(cell_of(x, y), mark_of(g.turn));
    let moves2 = g.moves.push(GameMove { player: g.turn, x: x, y: y });
    let turn2 = if has_empty(b2) {
        flip(g.turn)
    } else {
        g.turn
    };
    let state2 = if has_empty(b2) {
        g.state
    } else {
        GameState::Finished
    };
    match detect_winner(b2) {
        Option::Some(w) => GameView {
            id: g.id,
            creator: g.creator,
            opponent: g.opponent,
            state: GameState::Finished,
            board: b2,
            moves: moves2,
            turn: turn2,
            winner: Option::Some(w),
        },
        Option::None => GameView {
            id: g.id,
            creator: g.creator,
            opponent: g.opponent,
            state: state2,
            board: b2,
            moves: moves2,
            turn: turn2,
            winner: g.winner,
        },
    }
}

/// Whether a submitted move passes every validation step: the game is not
/// finished, the caller (after opponent binding) holds a role, it is that
/// caller's turn, the move text parses, both coordinates are in range, and
/// the addressed cell is still empty.
pub open spec fn move_accepted(g: GameView, caller: Seq<char>, mv: Seq<char>) -> bool {
    let gb = bound_view(g, caller);
    &&& g.state != GameState::Finished
    &&& permitted(gb, caller)
    &&& is_callers_turn(gb, caller)
    &&& (parse_move_spec(mv) matches Option::Some(xy) && xy.0 <= 2 && xy.1 <= 2
        && gb.board[cell_of(xy.0, xy.1)] == CoordinateState::Empty)
}

/// The game a submitted move leaves behind: a finished game is untouched, a
/// rejected move leaves only the opponent-binding step behind, and an
/// accepted move leaves the applied move behind.
pub open spec fn move_result_view(g: GameView, caller: Seq<char>, mv: Seq<char>) -> GameView {
    if g.state == GameState::Finished {
        g
    } else {
        let gb = bound_view(g, caller);
        if move_accepted(g, caller, mv) {
            match parse_move_spec(mv) {
                Option::Some(xy) => applied_view(gb, xy.0, xy.1),
                Option::None => gb,
            }
        } else {
            gb
        }
    }
}

/// Which outcome a submitted move is answered with: `Ok` exactly on
/// accepted moves, and otherwise the error owed to the first validation
/// step that failed, with its message.
pub open spec fn move_outcome(
    g: GameView,
    caller: Seq<char>,
    mv: Seq<char>,
    r: Result<(), Error>,
) -> bool {
    let gb = bound_view(g, caller);
    &&& (r is Ok <==> move_accepted(g, caller, mv))
    &&& (g.state == GameState::Finished ==> (r matches Result::Err(e) && e matches
        Error::FinishedGame { msg } && msg@ == "game has finished"@))
    &&& ((g.state != GameState::Finished && !permitted(gb, caller)) ==> (r matches Result::Err(e)
        && e matches Error::InvalidPermission { msg } && msg@
        == "You don't have permission to play this game"@))
    &&& ((g.state != GameState::Finished && permitted(gb, caller) && !is_callers_turn(gb, caller))
        ==> (r matches Result::Err(e) && e matches Error::InvalidTurn { msg } && msg@
        == "It's not your turn yet"@))
    &&& ((g.state != GameState::Finished && permitted(gb, caller) && is_callers_turn(gb, caller)
        && !(parse_move_spec(mv) matches Option::Some(xy) && xy.0 <= 2 && xy.1 <= 2)) ==> (r
        matches Result::Err(e) && e matches Error::InvalidCoordinates { msg } && msg@
        == "Invalid coordinates"@))
    &&& ((g.state != GameState::Finished && permitted(gb, caller) && is_callers_turn(gb, caller)
        && (parse_move_spec(mv) matches Option::Some(xy) && xy.0 <= 2 && xy.1 <= 2
        && gb.board[cell_of(xy.0, xy.1)] != CoordinateState::Empty)) ==> (r matches Result::Err(
        e,
    ) && e matches Error::InvalidCoordinates { msg } && msg@
        == "Coordinate has already been played in"@))
}

fn set_cell(b: &mut Vec<CoordinateState>, i: usize, v: CoordinateState)
    requires
        i < old(b)@.len(),
    ensures
        final(b)@ == old(b)@.update(i as int, v),
{
    let cell = &mut b[i];
    *cell = v;
}

fn board_has_empty(b: &Vec<CoordinateState>) -> (r: bool)
    ensures
        r == has_empty(b@),
{
    let mut i: usize = 0;
    while i < b.len()
        invariant
            i <= b@.len(),
            forall|j: int| 0 <= j < i ==> b@[j] != CoordinateState::Empty,
        decreases b@.len() - i,
    {
        if b[i] == CoordinateState::Empty {
            return true;
        }
        i = i + 1;
    }
    false
}

/// Validates `move_spec` as a move by `caller` against `game` and applies
/// it, returning the game as the move leaves it together with the outcome.
///
/// The contract spells out the whole state machine: which error is returned
/// on which input, that a rejected move mutates nothing beyond the
/// opponent-binding step, and that an accepted move marks a previously
/// empty cell and appends exactly one move record (no accepted move ever
/// overwrites a non-empty cell). Well-formedness of the game is preserved
/// in every case.
pub fn apply_move(game: Game, caller: &String, move_spec: &str) -> (res: (
    Game,
    Result<(), Error>,
))
    requires
        game_inv(game@),
    ensures
        res.0@ == move_result_view(game@, caller@, move_spec@),
        game_inv(res.0@),
        move_outcome(game@, caller@, move_spec@, res.1),
        res.0@.id == game@.id,
        res.0@.creator == game@.creator,
        game@.opponent matches Option::Some(o) ==> res.0@.opponent == Option::Some(o),
        res.1 is Err ==> res.0@.board == game@.board && res.0@.moves == game@.moves
            && res.0@.turn == game@.turn && res.0@.winner == game@.winner,
        res.1 is Ok ==> ({
            let gb = bound_view(game@, caller@);
            parse_move_spec(move_spec@) matches Option::Some(xy) ==> {
                &&& gb.board[cell_of(xy.0, xy.1)] == CoordinateState::Empty
                &&& res.0@.board == gb.board.update(cell_of(xy.0, xy.1), mark_of(gb.turn))
                &&& res.0@.moves == game@.moves.push(
                    GameMove { player: gb.turn, x: xy.0, y: xy.1 },
                )
                &&& res.0@.moves.len() == game@.moves.len() + 1
            }
        }),
{
    let ghost g0 = game@;
    let mut game = game;
    match game.state {
        GameState::WaitingForOpponent => {
            game.opponent = Option::Some(StableString(caller.clone()));
            game.state = GameState::InProgress;
        },
        GameState::Finished => {
            return (
                game,
                Result::Err(Error::FinishedGame { msg: "game has finished".to_owned() }),
            );
        },
        GameState::InProgress => {},
    }
    let ghost gb = bound_view(g0, caller@);
    proof {
        assert(game@ == gb);
    }
    let creator_eq = game.creator.0 == *caller;
    let opponent_eq = match &game.opponent {
        Option::Some(o) => o.0 == *caller,
        Option::None => false,
    };
    if !creator_eq && !opponent_eq {
        return (
            game,
            Result::Err(
                Error::InvalidPermission {
                    msg: "You don't have permission to play this game".to_owned(),
                },
            ),
        );
    }
    let my_turn = match game.turn {
        GamePlayer::Creator => creator_eq,
        GamePlayer::Opponent => opponent_eq,
    };
    if !my_turn {
        return (
            game,
            Result::Err(Error::InvalidTurn { msg: "It's not your turn yet".to_owned() }),
        );
    }
    let (x, y) = match parse_move(move_spec) {
        Option::Some(xy) => xy,
        Option::None => {
            return (
                game,
                Result::Err(Error::InvalidCoordinates { msg: "Invalid coordinates".to_owned() }),
            );
        },
    };
    if x > 2 || y > 2 {
        return (
            game,
            Result::Err(Error::InvalidCoordinates { msg: "Invalid coordinates".to_owned() }),
        );
    }
    let idx: usize = 3 * (y as usize) + (x as usize);
    if game.board[idx] != CoordinateState::Empty {
        return (
            game,
            Result::Err(
                Error::InvalidCoordinates {
                    msg: "Coordinate has already been played in".to_owned(),
                },
            ),
        );
    }
    let mark = match game.turn {
        GamePlayer::Creator => CoordinateState::X,
        GamePlayer::Opponent => CoordinateState::O,
    };
    let move_record = GameMove { player: game.turn, x, y };
    set_cell(&mut game.board, idx, mark);
    game.moves.push(move_record);
    if board_has_empty(&game.board) {
        game.turn = match game.turn {
            GamePlayer::Creator => GamePlayer::Opponent,
            GamePlayer::Opponent => GamePlayer::Creator,
        };
    } else {
        game.state = GameState::Finished;
    }
    match check_winner(&game.board) {
        Option::Some(w) => {
            game.state = GameState::Finished;
            game.winner = Option::Some(w);
        },
        Option::None => {},
    }
    proof {
        let b2 = gb.board.update(cell_of(x, y), mark_of(gb.turn));
        lemma_detect_none_iff_no_winner(b2);
        lemma_detect_some_wins(b2);
        assert(game@ == applied_view(gb, x, y));
    }
    (game, Result::Ok(()))
}

} // verus!
