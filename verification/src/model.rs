//! Entity model: game records, moves, lifecycle states, errors and pagination
//! records, together with their spec-level views and the well-formedness
//! invariant that every stored game maintains.

use vstd::prelude::*;

use crate::win::wins;

verus! {

/// Lifecycle of a game: a game waits for a second player after creation,
/// is in progress once a move has bound an opponent, and is finished when a
/// line is completed or the board is full.
#[derive(Clone, Copy, PartialEq, Eq, Structural, Debug)]
pub enum GameState {
    WaitingForOpponent,
    InProgress,
    Finished,
}

/// Contents of one board cell. A cell is marked at most once and never
/// cleared; the creator marks `X`, the opponent `O`.
#[derive(Clone, Copy, PartialEq, Eq, Structural, Debug, Default)]
pub enum CoordinateState {
    #[default]
    Empty,
    X,
    O,
}

/// The two player roles of a game.
#[derive(Clone, Copy, PartialEq, Eq, Structural, Debug)]
pub enum GamePlayer {
    Creator,
    Opponent,
}

/// One applied move: the role that played, and the played column `x` and
/// row `y`, both in `[0, 2]`.
#[derive(Clone, Copy, PartialEq, Eq, Structural, Debug)]
pub struct GameMove {
    pub player: GamePlayer,
    pub x: u8,
    pub y: u8,
}

/// An opaque identity or game-id token, stored as a plain string. The
/// backend never interprets its structure.
#[derive(Debug)]
pub struct StableString(pub String);

impl View for StableString {
    type V = Seq<char>;

    open spec fn view(&self) -> Seq<char> {
        self.0@
    }
}

impl Clone for StableString {
    fn clone(&self) -> (res: Self)
        ensures
            res@ == self@,
    {
        StableString(self.0.clone())
    }
}

/// One match instance: identity, players, lifecycle state, the 9-cell board
/// in row-major order (cell `(x, y)` at index `3 * y + x`), and the
/// append-only record of applied moves.
#[derive(Debug)]
pub struct Game {
    pub id: StableString,
    pub creator: StableString,
    pub opponent: Option<StableString>,
    pub state: GameState,
    pub board: Vec<CoordinateState>,
    pub moves: Vec<GameMove>,
    pub turn: GamePlayer,
    pub winner: Option<GamePlayer>,
}

/// Spec-level value of a [`Game`]: strings as character sequences and
/// vectors as sequences, so that contracts can be stated mathematically.
pub ghost struct GameView {
    pub id: Seq<char>,
    pub creator: Seq<char>,
    pub opponent: Option<Seq<char>>,
    pub state: GameState,
    pub board: Seq<CoordinateState>,
    pub moves: Seq<GameMove>,
    pub turn: GamePlayer,
    pub winner: Option<GamePlayer>,
}

impl View for Game {
    type V = GameView;

    open spec fn view(&self) -> GameView {
        GameView {
            id: self.id@,
            creator: self.creator@,
            opponent: match self.opponent {
                Option::Some(s) => Option::Some(s@),
                Option::None => Option::None,
            },
            state: self.state,
            board: self.board@,
            moves: self.moves@,
            turn: self.turn,
            winner: self.winner,
        }
    }
}

fn clone_cells(v: &Vec<CoordinateState>) -> (res: Vec<CoordinateState>)
    ensures
        res@ == v@,
{
    let mut res: Vec<CoordinateState> = Vec::new();
    let mut i: usize = 0;
    while i < v.len()
        invariant
            i <= v.len(),
            res@ == v@.subrange(0, i as int),
        decreases v.len() - i,
    {
        res.push(v[i]);
        proof {
            assert(v@.subrange(0, i + 1 as int) =~= v@.subrange(0, i as int).push(v@[i as int]));
        }
        i = i + 1;
    }
    proof {
        assert(res@ =~= v@);
    }
    res
}

fn clone_moves(v: &Vec<GameMove>) -> (res: Vec<GameMove>)
    ensures
        res@ == v@,
{
    let mut res: Vec<GameMove> = Vec::new();
    let mut i: usize = 0;
    while i < v.len()
        invariant
            i <= v.len(),
            res@ == v@.subrange(0, i as int),
        decreases v.len() - i,
    {
        res.push(v[i]);
        proof {
            assert(v@.subrange(0, i + 1 as int) =~= v@.subrange(0, i as int).push(v@[i as int]));
        }
        i = i + 1;
    }
    proof {
        assert(res@ =~= v@);
    }
    res
}

impl Clone for Game {
    fn clone(&self) -> (res: Self)
        ensures
            res@ == self@,
    {
        Game {
            id: self.id.clone(),
            creator: self.creator.clone(),
            opponent: match &self.opponent {
                Option::Some(s) => Option::Some(s.clone()),
                Option::None => Option::None,
            },
            state: self.state,
            board: clone_cells(&self.board),
            moves: clone_moves(&self.moves),
            turn: self.turn,
            winner: self.winner,
        }
    }
}

/// The error kinds of the backend, each carrying a human-readable message.
/// Every validation failure is returned synchronously as one of these; none
/// is fatal and none is retried internally.
#[derive(Debug)]
pub enum Error {
    /// A lookup by game id found nothing.
    InvalidGameId { msg: String },
    /// Malformed move text, an out-of-range coordinate, or a cell already
    /// occupied.
    InvalidCoordinates { msg: String },
    /// The caller's role does not match whose turn it is.
    InvalidTurn { msg: String },
    /// The caller already owns an unfinished game.
    PendingGame { msg: String },
    /// A move was submitted against a finished game.
    FinishedGame { msg: String },
    /// The caller is neither creator nor opponent (move), or not the
    /// creator (delete).
    InvalidPermission { msg: String },
    /// A page index has no corresponding slice.
    InvalidPage { msg: String },
}

/// Navigation metadata of one page of an ordered collection.
#[derive(Clone, Copy, PartialEq, Eq, Structural, Debug)]
pub struct PaginatedResponseMeta {
    pub prev: Option<usize>,
    pub next: Option<usize>,
    pub total: usize,
    pub page: usize,
    pub limit: usize,
}

/// A bounded slice of an ordered collection plus navigation metadata.
#[derive(Debug)]
pub struct PaginatedResponse<T> {
    pub data: Vec<T>,
    pub meta: PaginatedResponseMeta,
}

/// The role whose move is the other one's successor.
pub open spec fn flip(p: GamePlayer) -> GamePlayer {
    match p {
        GamePlayer::Creator => GamePlayer::Opponent,
        GamePlayer::Opponent => GamePlayer::Creator,
    }
}

/// The mark a role places: the creator plays `X`, the opponent `O`.
pub open spec fn mark_of(p: GamePlayer) -> CoordinateState {
    match p {
        GamePlayer::Creator => CoordinateState::X,
        GamePlayer::Opponent => CoordinateState::O,
    }
}

/// The role that owns the move with index `i`: turns strictly alternate
/// starting from the creator.
pub open spec fn role_at(i: int) -> GamePlayer {
    if i % 2 == 0 {
        GamePlayer::Creator
    } else {
        GamePlayer::Opponent
    }
}

/// The board of a freshly created game: 9 empty cells.
pub open spec fn empty_board() -> Seq<CoordinateState> {
    Seq::new(9, |i: int| CoordinateState::Empty)
}

/// Whether some cell of the board is still empty.
pub open spec fn has_empty(b: Seq<CoordinateState>) -> bool {
    exists|i: int| 0 <= i < b.len() && b[i] == CoordinateState::Empty
}

/// Well-formedness of one game. Every game produced by the create operation
/// satisfies this, and the move operation preserves it:
/// - the board has exactly 9 cells;
/// - recorded moves strictly alternate Creator, Opponent, Creator, ... and
///   carry in-range coordinates;
/// - while the game is not finished, `turn` names the role owed the next
///   move, the board holds no completed line, and no winner is set;
/// - a winner is set only on a finished game whose board contains a
///   completed line of that winner's mark;
/// - a game still waiting for an opponent has none bound yet.
pub open spec fn game_inv(g: GameView) -> bool {
    &&& g.board.len() == 9
    &&& (forall|i: int|
        0 <= i < g.moves.len() ==> (#[trigger] g.moves[i]).player == role_at(i))
    &&& (forall|i: int|
        0 <= i < g.moves.len() ==> (#[trigger] g.moves[i]).x <= 2 && g.moves[i].y <= 2)
    &&& (g.state != GameState::Finished ==> g.turn == role_at(g.moves.len() as int))
    &&& (g.state != GameState::Finished ==> !wins(g.board, CoordinateState::X) && !wins(
        g.board,
        CoordinateState::O,
    ))
    &&& (g.state != GameState::Finished ==> g.winner is None)
    &&& (g.winner matches Option::Some(w) ==> g.state == GameState::Finished && wins(
        g.board,
        mark_of(w),
    ))
    &&& (g.state == GameState::WaitingForOpponent ==> g.opponent is None)
}

/// The spec-level values of a sequence of game records.
pub open spec fn views_of(games: Seq<Game>) -> Seq<GameView> {
    games.map_values(|g: Game| g@)
}

pub proof fn lemma_views_push(s: Seq<Game>, g: Game)
    ensures
        views_of(s.push(g)) == views_of(s).push(g@),
{
    assert(views_of(s.push(g)) =~= views_of(s).push(g@));
}

pub proof fn lemma_views_update(s: Seq<Game>, i: int, g: Game)
    requires
        0 <= i < s.len(),
    ensures
        views_of(s.update(i, g)) == views_of(s).update(i, g@),
{
    assert(views_of(s.update(i, g)) =~= views_of(s).update(i, g@));
}

pub proof fn lemma_views_remove(s: Seq<Game>, i: int)
    requires
        0 <= i < s.len(),
    ensures
        views_of(s.remove(i)) == views_of(s).remove(i),
{
    assert(views_of(s.remove(i)) =~= views_of(s).remove(i));
}

/// Law (turn alternation): the acting role strictly alternates across
/// consecutive successful moves — each recorded move is answered by the
/// other role. Moves are only recorded while the game is unfinished, so
/// the alternation holds until the game finishes.
pub proof fn lemma_moves_alternate(g: GameView, i: int)
    requires
        game_inv(g),
        0 <= i,
        i + 1 < g.moves.len(),
    ensures
        g.moves[i + 1].player == flip(g.moves[i].player),
{
}

/// Law (turn alternation, base case): the first recorded move always
/// belongs to the creator, who is owed the first turn at creation.
pub proof fn lemma_first_move_by_creator(g: GameView)
    requires
        game_inv(g),
        0 < g.moves.len(),
    ensures
        g.moves[0].player == GamePlayer::Creator,
{
}

} // verus!
