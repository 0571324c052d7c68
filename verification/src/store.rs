//! The game store: sole owner of the ordered collection of game records
//! and the monotonic id counter, exposing the create/get/list/move/delete
//! operations that compose the state machine, the win detector and the
//! pagination service.
//!
//! The host program constructs one store at process start (reloading any
//! persisted records into it) and passes it by reference into every
//! operation; the caller identity reaches each operation as an opaque,
//! already-validated string.

use vstd::prelude::*;

use vstd::string::StringExecFns;

use crate::machine::{apply_move, move_outcome, move_result_view};
use crate::model::{
    empty_board, game_inv, lemma_views_push, lemma_views_remove, lemma_views_update, views_of,
    CoordinateState, Error, Game, GamePlayer, GameState, GameView, PaginatedResponse,
    StableString,
};
use crate::page::{paginate, PAGE_LIMIT};
use crate::text::{dec_rep, u64_to_string};

verus! {

/// Spec-level value of the store: the game views in storage order, and the
/// counter value.
pub ghost struct StoreView {
    pub games: Seq<GameView>,
    pub counter: u64,
}

/// The store: an ordered collection of game records plus a monotonic id
/// counter that is never reused, even after deletion.
pub struct GameStore {
    pub games: Vec<Game>,
    pub counter: u64,
}

impl View for GameStore {
    type V = StoreView;

    open spec fn view(&self) -> StoreView {
        StoreView { games: views_of(self.games@), counter: self.counter }
    }
}

/// Whether `g`'s id was assigned from a counter value below `counter`:
/// the shape every stored id has, since the counter only ever grows.
pub open spec fn minted_below(g: GameView, counter: u64) -> bool {
    exists|c: int| 0 <= c < counter && g.id == id_of(g.creator, c)
}

/// Well-formedness of the store: every stored game is well-formed, every
/// stored id was assigned from an earlier value of the monotonic counter,
/// and — in consequence — ids are globally unique: no two stored games
/// ever carry the same id (see [`lemma_id_of_injective`]).
pub open spec fn store_inv(s: StoreView) -> bool {
    &&& (forall|i: int| 0 <= i < s.games.len() ==> game_inv(#[trigger] s.games[i]))
    &&& (forall|i: int, j: int|
        0 <= i < j < s.games.len() ==> (#[trigger] s.games[i]).id != (#[trigger] s.games[j]).id)
    &&& (forall|i: int|
        0 <= i < s.games.len() ==> minted_below(#[trigger] s.games[i], s.counter))
}

/// Whether this game blocks its creator from creating another: it is owned
/// by `caller` and not yet finished.
pub open spec fn pending_for(g: GameView, caller: Seq<char>) -> bool {
    g.creator == caller && (g.state == GameState::WaitingForOpponent || g.state
        == GameState::InProgress)
}

/// Whether `caller` owns some unfinished game.
pub open spec fn has_pending(games: Seq<GameView>, caller: Seq<char>) -> bool {
    exists|i: int| 0 <= i < games.len() && pending_for(#[trigger] games[i], caller)
}

/// The id assigned at creation: the creator identity, a dash, and the
/// decimal value of the counter at creation time.
pub open spec fn id_of(creator: Seq<char>, n: int) -> Seq<char> {
    creator + "-"@ + dec_rep(n)
}

/// Law (id uniqueness): two assigned ids agree only if both the creator
/// identity and the counter value agree. The counter digits are the text
/// after the last dash of an id — digits hold no dash — so equal ids force
/// equal digit suffixes and hence equal counter values; the counter is
/// never reused, so every created game carries a globally unique id.
pub proof fn lemma_id_of_injective(c1: Seq<char>, n1: int, c2: Seq<char>, n2: int)
    requires
        n1 >= 0,
        n2 >= 0,
        id_of(c1, n1) == id_of(c2, n2),
    ensures
        n1 == n2,
        c1 == c2,
{
    reveal_strlit("-");
    let d1 = dec_rep(n1);
    let d2 = dec_rep(n2);
    crate::text::lemma_dec_rep_digits(n1);
    crate::text::lemma_dec_rep_digits(n2);
    let s = id_of(c1, n1);
    assert(s.len() == c1.len() + 1 + d1.len());
    assert(s.len() == c2.len() + 1 + d2.len());
    assert(s[c1.len() as int] == '-');
    assert(s[c2.len() as int] == '-');
    assert(!crate::text::is_digit('-'));
    if d1.len() < d2.len() {
        // the dash of the first decomposition would sit inside the digit
        // suffix of the second
        let p = c1.len() as int;
        assert(s[p] == d2[p - c2.len() - 1]);
        assert(false);
    }
    if d2.len() < d1.len() {
        let p = c2.len() as int;
        assert(s[p] == d1[p - c1.len() - 1]);
        assert(false);
    }
    assert forall|i: int| 0 <= i < d1.len() implies d1[i] == d2[i] by {
        assert(d1[i] == s[c1.len() + 1 + i]);
        assert(d2[i] == s[c2.len() + 1 + i]);
    }
    assert(d1 =~= d2);
    crate::text::lemma_dec_rep_round_trip(n1);
    crate::text::lemma_dec_rep_round_trip(n2);
    assert forall|i: int| 0 <= i < c1.len() implies c1[i] == c2[i] by {
        assert(c1[i] == s[i]);
        assert(c2[i] == s[i]);
    }
    assert(c1 =~= c2);
}

/// The record that a successful creation appends: waiting for an opponent,
/// an all-empty board, no moves, the creator owed the first turn, and no
/// winner.
pub open spec fn fresh_game_view(id: Seq<char>, creator: Seq<char>) -> GameView {
    GameView {
        id: id,
        creator: creator,
        opponent: Option::None,
        state: GameState::WaitingForOpponent,
        board: empty_board(),
        moves: Seq::empty(),
        turn: GamePlayer::Creator,
        winner: Option::None,
    }
}

/// The first index at or after `from` whose game carries `id`, or the
/// length of the collection if there is none.
pub open spec fn find_from_index(games: Seq<GameView>, id: Seq<char>, from: int) -> int
    recommends
        0 <= from <= games.len(),
    decreases games.len() - from when from <= games.len()
{
    if from >= games.len() {
        games.len() as int
    } else if games[from].id == id {
        from
    } else {
        find_from_index(games, id, from + 1)
    }
}

/// The position an exact-match lookup by id finds: the first index whose
/// game carries `id`, or the length of the collection if there is none.
pub open spec fn find_index(games: Seq<GameView>, id: Seq<char>) -> int {
    find_from_index(games, id, 0)
}

pub proof fn lemma_find_index(games: Seq<GameView>, id: Seq<char>, from: int)
    requires
        0 <= from <= games.len(),
    ensures
        from <= find_from_index(games, id, from) <= games.len(),
        find_from_index(games, id, from) < games.len() ==> games[find_from_index(
            games,
            id,
            from,
        )].id == id,
        forall|k: int|
            from <= k < find_from_index(games, id, from) ==> (#[trigger] games[k]).id != id,
    decreases games.len() - from,
{
    if from < games.len() && games[from].id != id {
        lemma_find_index(games, id, from + 1);
    }
}

fn empty_board_vec() -> (b: Vec<CoordinateState>)
    ensures
        b@ == empty_board(),
{
    let mut b: Vec<CoordinateState> = Vec::new();
    let mut i: usize = 0;
    while i < 9
        invariant
            i <= 9,
            b@.len() == i,
            forall|j: int| 0 <= j < i ==> b@[j] == CoordinateState::Empty,
        decreases 9 - i,
    {
        b.push(CoordinateState::Empty);
        i = i + 1;
    }
    proof {
        assert(b@ =~= empty_board());
    }
    b
}

fn owner_has_pending(games: &Vec<Game>, caller: &String) -> (r: bool)
    ensures
        r == has_pending(views_of(games@), caller@),
{
    let mut i: usize = 0;
    while i < games.len()
        invariant
            i <= games@.len(),
            forall|j: int| 0 <= j < i ==> !pending_for(#[trigger] views_of(games@)[j], caller@),
        decreases games@.len() - i,
    {
        proof {
            assert(views_of(games@)[i as int] == games@[i as int]@);
        }
        if games[i].creator.0 == *caller && (games[i].state == GameState::WaitingForOpponent
            || games[i].state == GameState::InProgress) {
            proof {
                assert(pending_for(views_of(games@)[i as int], caller@));
            }
            return true;
        }
        i = i + 1;
    }
    false
}

fn find_game_pos(games: &Vec<Game>, id: &String) -> (r: usize)
    ensures
        r as int == find_index(views_of(games@), id@),
        r <= games@.len(),
{
    let mut i: usize = 0;
    while i < games.len()
        invariant
            i <= games@.len(),
            find_index(views_of(games@), id@) == find_from_index(
                views_of(games@),
                id@,
                i as int,
            ),
        decreases games@.len() - i,
    {
        proof {
            assert(views_of(games@)[i as int] == games@[i as int]@);
        }
        if games[i].id.0 == *id {
            return i;
        }
        i = i + 1;
    }
    games.len()
}

fn set_game(games: &mut Vec<Game>, i: usize, g: Game)
    requires
        i < old(games)@.len(),
    ensures
        final(games)@ == old(games)@.update(i as int, g),
{
    let slot = &mut games[i];
    *slot = g;
}

impl GameStore {
    /// A store with no games and a counter at zero, as at first process
    /// start. A host resuming from persisted records fills the fields
    /// before use.
    pub fn new() -> (s: GameStore)
        ensures
            s@.games.len() == 0,
            s@.counter == 0,
            store_inv(s@),
    {
        GameStore { games: Vec::new(), counter: 0 }
    }

    /// Creates a game for `caller`: fails with `PendingGame` exactly when
    /// `caller` already owns an unfinished game (however many finished
    /// games they own); otherwise assigns the next id from the monotonic
    /// counter and appends a fresh waiting game.
    pub fn create_game(&mut self, caller: &String) -> (r: Result<String, Error>)
        requires
            store_inv(old(self)@),
            old(self)@.counter < u64::MAX,
        ensures
            store_inv(final(self)@),
            r is Err <==> has_pending(old(self)@.games, caller@),
            r matches Result::Err(e) ==> ({
                &&& e matches Error::PendingGame { msg } && msg@
                    == "you have a pending game to play!"@
                &&& final(self)@ == old(self)@
            }),
            r matches Result::Ok(id) ==> ({
                &&& id@ == id_of(caller@, old(self)@.counter as int)
                &&& final(self)@.counter == old(self)@.counter + 1
                &&& final(self)@.games == old(self)@.games.push(
                    fresh_game_view(id@, caller@),
                )
            }),
    {
        if owner_has_pending(&self.games, caller) {
            return Result::Err(
                Error::PendingGame { msg: "you have a pending game to play!".to_owned() },
            );
        }
        let num = u64_to_string(self.counter);
        let id = caller.clone().concat("-").concat(num.as_str());
        self.counter = self.counter + 1;
        let game = Game {
            id: StableString(id.clone()),
            creator: StableString(caller.clone()),
            opponent: Option::None,
            state: GameState::WaitingForOpponent,
            board: empty_board_vec(),
            moves: Vec::new(),
            turn: GamePlayer::Creator,
            winner: Option::None,
        };
        proof {
            assert(game@ == fresh_game_view(id@, caller@));
            lemma_views_push(self.games@, game);
        }
        self.games.push(game);
        proof {
            let fresh = fresh_game_view(id@, caller@);
            let n0 = old(self)@.counter;
            assert(game_inv(fresh));
            assert(fresh.id == id_of(fresh.creator, n0 as int));
            assert forall|j: int| 0 <= j < self@.games.len() implies game_inv(
                #[trigger] self@.games[j],
            ) by {
                if j < old(self)@.games.len() {
                    assert(self@.games[j] == old(self)@.games[j]);
                } else {
                    assert(self@.games[j] == fresh);
                }
            }
            assert forall|i: int, j: int| 0 <= i < j < self@.games.len() implies (
            #[trigger] self@.games[i]).id != (#[trigger] self@.games[j]).id by {
                assert(self@.games[i] == old(self)@.games[i]);
                if j < old(self)@.games.len() {
                    assert(self@.games[j] == old(self)@.games[j]);
                } else {
                    // the fresh id was assigned from the current counter value,
                    // while every stored id came from a smaller one
                    assert(self@.games[j] == fresh);
                    let gi = old(self)@.games[i];
                    assert(minted_below(gi, n0));
                    let c = choose|c: int| 0 <= c < n0 && gi.id == id_of(gi.creator, c);
                    if gi.id == fresh.id {
                        lemma_id_of_injective(gi.creator, c, fresh.creator, n0 as int);
                        assert(false);
                    }
                }
            }
            assert forall|i: int| 0 <= i < self@.games.len() implies minted_below(
                #[trigger] self@.games[i],
                self@.counter,
            ) by {
                if i < old(self)@.games.len() {
                    let gi = old(self)@.games[i];
                    assert(minted_below(gi, n0));
                    let c = choose|c: int| 0 <= c < n0 && gi.id == id_of(gi.creator, c);
                    assert(0 <= c < self@.counter && self@.games[i].id == id_of(
                        self@.games[i].creator,
                        c,
                    ));
                } else {
                    assert(self@.games[i] == fresh);
                    assert(0 <= (n0 as int) && (n0 as int) < self@.counter && self@.games[i].id
                        == id_of(self@.games[i].creator, n0 as int));
                }
            }
        }
        Result::Ok(id)
    }

    /// Exact-match lookup by id: a copy of the first game carrying
    /// `game_id`, or `None` if no stored game carries it.
    pub fn get_game(&self, game_id: &String) -> (r: Option<Game>)
        ensures
            r is Some <==> find_index(self@.games, game_id@) < self@.games.len(),
            r matches Option::Some(g) ==> g@ == self@.games[find_index(
                self@.games,
                game_id@,
            )],
            r is None ==> forall|j: int|
                0 <= j < self@.games.len() ==> (#[trigger] self@.games[j]).id != game_id@,
    {
        let pos = find_game_pos(&self.games, game_id);
        if pos < self.games.len() {
            Option::Some(self.games[pos].clone())
        } else {
            proof {
                lemma_find_index(self@.games, game_id@, 0);
            }
            Option::None
        }
    }

    /// The `page`-th page of all stored games, in storage order; `None`
    /// when the page lies beyond the collection.
    pub fn get_games(&self, page: usize) -> (r: Option<PaginatedResponse<Game>>)
        ensures
            r is Some <==> (page as int) * (PAGE_LIMIT as int) < self@.games.len(),
            r matches Option::Some(p) ==> ({
                let start = (page as int) * (PAGE_LIMIT as int);
                let end = if start + PAGE_LIMIT <= self@.games.len() {
                    start + PAGE_LIMIT
                } else {
                    self@.games.len() as int
                };
                &&& views_of(p.data@) == self@.games.subrange(start, end)
                &&& p.meta.total == self@.games.len()
                &&& p.meta.page == page
                &&& p.meta.limit == PAGE_LIMIT
                &&& p.meta.prev == (if page > 1 {
                    Option::Some((page - 1) as usize)
                } else {
                    Option::None::<usize>
                })
                &&& p.meta.next == (if start + PAGE_LIMIT < self@.games.len() {
                    Option::Some((page + 1) as usize)
                } else {
                    Option::None::<usize>
                })
            }),
    {
        paginate(&self.games, page)
    }

    /// The `page`-th page of the games created by `caller`, keeping
    /// storage order; `None` when the page lies beyond that filtered
    /// collection.
    pub fn get_player_games(&self, caller: &String, page: usize) -> (r: Option<
        PaginatedResponse<Game>,
    >)
        ensures
            r is Some <==> (page as int) * (PAGE_LIMIT as int) < owned_games_of(
                self@.games,
                caller@,
            ).len(),
            r matches Option::Some(p) ==> ({
                let owned = owned_games_of(self@.games, caller@);
                let start = (page as int) * (PAGE_LIMIT as int);
                let end = if start + PAGE_LIMIT <= owned.len() {
                    start + PAGE_LIMIT
                } else {
                    owned.len() as int
                };
                &&& views_of(p.data@) == owned.subrange(start, end)
                &&& p.meta.total == owned.len()
                &&& p.meta.page == page
                &&& p.meta.limit == PAGE_LIMIT
                &&& p.meta.prev == (if page > 1 {
                    Option::Some((page - 1) as usize)
                } else {
                    Option::None::<usize>
                })
                &&& p.meta.next == (if start + PAGE_LIMIT < owned.len() {
                    Option::Some((page + 1) as usize)
                } else {
                    Option::None::<usize>
                })
            }),
    {
        let mut owned: Vec<Game> = Vec::new();
        let mut i: usize = 0;
        while i < self.games.len()
            invariant
                i <= self.games@.len(),
                views_of(owned@) == owned_games_of(
                    views_of(self.games@).subrange(0, i as int),
                    caller@,
                ),
            decreases self.games@.len() - i,
        {
            let ghost vs = views_of(self.games@);
            let ghost p0 = vs.subrange(0, i as int);
            let ghost p1 = vs.subrange(0, i + 1 as int);
            proof {
                assert(p1 =~= p0.push(vs[i as int]));
                assert(vs[i as int] == self.games@[i as int]@);
                lemma_owned_games_push(p0, caller@, vs[i as int]);
            }
            if self.games[i].creator.0 == *caller {
                let g = self.games[i].clone();
                proof {
                    lemma_views_push(owned@, g);
                }
                owned.push(g);
            }
            i = i + 1;
        }
        proof {
            assert(views_of(self.games@).subrange(0, self.games@.len() as int) =~= views_of(
                self.games@,
            ));
        }
        paginate(&owned, page)
    }

    /// Submits the move `game_move` (text of the shape `"x,y"`) by
    /// `caller` against the game carrying `game_id`, running the state
    /// machine on it; an absent id fails with `InvalidGameId` and mutates
    /// nothing.
    pub fn play_move(&mut self, caller: &String, game_id: &String, game_move: &str) -> (r:
        Result<(), Error>)
        requires
            store_inv(old(self)@),
        ensures
            store_inv(final(self)@),
            final(self)@.counter == old(self)@.counter,
            ({
                let games0 = old(self)@.games;
                let gi = find_index(games0, game_id@);
                &&& (gi == games0.len() ==> ((r matches Result::Err(e) && e matches
                    Error::InvalidGameId { msg } && msg@ == "invalid game id"@) && final(self)@.games == games0))
                &&& (gi < games0.len() ==> ({
                    let g = games0[gi];
                    &&& final(self)@.games == games0.update(
                        gi,
                        move_result_view(g, caller@, game_move@),
                    )
                    &&& move_outcome(g, caller@, game_move@, r)
                    &&& game_inv(move_result_view(g, caller@, game_move@))
                }))
            }),
    {
        let pos = find_game_pos(&self.games, game_id);
        if pos == self.games.len() {
            return Result::Err(Error::InvalidGameId { msg: "invalid game id".to_owned() });
        }
        let game = self.games[pos].clone();
        proof {
            assert(game_inv(game@));
        }
        let (game2, r) = apply_move(game, caller, game_move);
        proof {
            lemma_views_update(self.games@, pos as int, game2);
        }
        set_game(&mut self.games, pos, game2);
        proof {
            let vs0 = old(self)@.games;
            let vs1 = self@.games;
            assert(vs0[pos as int] == old(self).games@[pos as int]@);
            assert forall|k: int| 0 <= k < vs1.len() implies (#[trigger] vs1[k]).id == vs0[k].id
                && vs1[k].creator == vs0[k].creator by {
                if k != pos as int {
                    assert(vs1[k] == vs0[k]);
                }
            }
            assert forall|i: int, j: int| 0 <= i < j < vs1.len() implies (
            #[trigger] vs1[i]).id != (#[trigger] vs1[j]).id by {
                assert(vs0[i].id != vs0[j].id);
            }
            assert forall|i: int| 0 <= i < vs1.len() implies minted_below(
                #[trigger] vs1[i],
                self@.counter,
            ) by {
                assert(minted_below(vs0[i], old(self)@.counter));
                let c = choose|c: int|
                    0 <= c < old(self)@.counter && vs0[i].id == id_of(vs0[i].creator, c);
                assert(0 <= c < self@.counter && vs1[i].id == id_of(vs1[i].creator, c));
            }
        }
        r
    }

    /// Deletes the game carrying `game_id`: fails with `InvalidGameId` if
    /// absent and with `InvalidPermission` if `caller` is not its creator,
    /// both without mutation; otherwise removes the record, shifting the
    /// positions behind it.
    pub fn delete_game(&mut self, caller: &String, game_id: &String) -> (r: Result<(), Error>)
        requires
            store_inv(old(self)@),
        ensures
            store_inv(final(self)@),
            final(self)@.counter == old(self)@.counter,
            ({
                let games0 = old(self)@.games;
                let gi = find_index(games0, game_id@);
                &&& (gi == games0.len() ==> ((r matches Result::Err(e) && e matches
                    Error::InvalidGameId { msg } && msg@ == "Invalid game id"@) && final(self)@.games == games0))
                &&& ((gi < games0.len() && games0[gi].creator != caller@) ==> ((r matches
                    Result::Err(e) && e matches Error::InvalidPermission { msg } && msg@
                    == "You don't have permission to delete this game"@) && final(self)@.games
                    == games0))
                &&& ((gi < games0.len() && games0[gi].creator == caller@) ==> (r is Ok && final(self)@.games == games0.remove(gi)))
            }),
    {
        let pos = find_game_pos(&self.games, game_id);
        if pos == self.games.len() {
            return Result::Err(Error::InvalidGameId { msg: "Invalid game id".to_owned() });
        }
        proof {
            assert(views_of(self.games@)[pos as int] == self.games@[pos as int]@);
        }
        if !(self.games[pos].creator.0 == *caller) {
            return Result::Err(
                Error::InvalidPermission {
                    msg: "You don't have permission to delete this game".to_owned(),
                },
            );
        }
        proof {
            lemma_views_remove(self.games@, pos as int);
        }
        self.games.remove(pos);
        proof {
            let vs0 = old(self)@.games;
            let vs1 = self@.games;
            assert forall|k: int| 0 <= k < vs1.len() implies #[trigger] vs1[k] == (if k < pos
                as int {
                vs0[k]
            } else {
                vs0[k + 1]
            }) by {}
            assert forall|i: int, j: int| 0 <= i < j < vs1.len() implies (
            #[trigger] vs1[i]).id != (#[trigger] vs1[j]).id by {
                let i0 = if i < pos as int { i } else { i + 1 };
                let j0 = if j < pos as int { j } else { j + 1 };
                assert(vs0[i0].id != vs0[j0].id);
            }
            assert forall|i: int| 0 <= i < vs1.len() implies minted_below(
                #[trigger] vs1[i],
                self@.counter,
            ) by {
                let i0 = if i < pos as int { i } else { i + 1 };
                assert(minted_below(vs0[i0], old(self)@.counter));
                let c = choose|c: int|
                    0 <= c < old(self)@.counter && vs0[i0].id == id_of(vs0[i0].creator, c);
                assert(0 <= c < self@.counter && vs1[i].id == id_of(vs1[i].creator, c));
            }
        }
        Result::Ok(())
    }
}

/// The games created by `caller`, in storage order.
pub open spec fn owned_games_of(games: Seq<GameView>, caller: Seq<char>) -> Seq<GameView> {
    games.filter(|g: GameView| g.creator == caller)
}

pub proof fn lemma_owned_games_push(games: Seq<GameView>, caller: Seq<char>, g: GameView)
    ensures
        owned_games_of(games.push(g), caller) == (if g.creator == caller {
            owned_games_of(games, caller).push(g)
        } else {
            owned_games_of(games, caller)
        }),
{
    reveal(Seq::filter);
    let s2 = games.push(g);
    assert(s2.drop_last() =~= games);
    assert(s2.last() == g);
}

} // verus!
