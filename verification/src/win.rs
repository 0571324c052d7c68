//! The win detector: a pure, deterministic scan of a 9-cell board for a
//! completed line, in a fixed order (rows top-to-bottom, then columns
//! left-to-right, then the main diagonal, then the anti-diagonal).

use vstd::prelude::*;

use crate::model::{mark_of, CoordinateState, GamePlayer};

verus! {

/// Whether cells `i`, `j`, `k` hold three equal non-empty marks.
pub open spec fn line_complete(b: Seq<CoordinateState>, i: int, j: int, k: int) -> bool
    recommends
        b.len() == 9,
        0 <= i < 9,
        0 <= j < 9,
        0 <= k < 9,
{
    b[i] != CoordinateState::Empty && b[i] == b[j] && b[i] == b[k]
}

/// Whether mark `m` owns a completed line: a row, a column, or a diagonal
/// whose three cells all hold `m`.
pub open spec fn wins(b: Seq<CoordinateState>, m: CoordinateState) -> bool
    recommends
        b.len() == 9,
        m != CoordinateState::Empty,
{
    ||| (b[0] == m && b[1] == m && b[2] == m)
    ||| (b[3] == m && b[4] == m && b[5] == m)
    ||| (b[6] == m && b[7] == m && b[8] == m)
    ||| (b[0] == m && b[3] == m && b[6] == m)
    ||| (b[1] == m && b[4] == m && b[7] == m)
    ||| (b[2] == m && b[5] == m && b[8] == m)
    ||| (b[0] == m && b[4] == m && b[8] == m)
    ||| (b[2] == m && b[4] == m && b[6] == m)
}

/// Whether row `r` (cells `3r`, `3r + 1`, `3r + 2`) is complete.
pub open spec fn row_complete(b: Seq<CoordinateState>, r: int) -> bool
    recommends
        b.len() == 9,
        0 <= r < 3,
{
    line_complete(b, 3 * r, 3 * r + 1, 3 * r + 2)
}

/// Whether column `c` (cells `c`, `c + 3`, `c + 6`) is complete.
pub open spec fn col_complete(b: Seq<CoordinateState>, c: int) -> bool
    recommends
        b.len() == 9,
        0 <= c < 3,
{
    line_complete(b, c, c + 3, c + 6)
}

/// The role that plays a non-empty mark.
pub open spec fn role_of_mark(m: CoordinateState) -> Option<GamePlayer>
    recommends
        m != CoordinateState::Empty,
{
    match m {
        CoordinateState::X => Option::Some(GamePlayer::Creator),
        CoordinateState::O => Option::Some(GamePlayer::Opponent),
        CoordinateState::Empty => Option::None,
    }
}

/// What the detector returns: the role of the first completed line in scan
/// order (rows 0..2, columns 0..2, main diagonal, anti-diagonal), or `None`
/// if no line is complete. The scan order only matters when several lines
/// are complete at once, which legal alternating play never produces (see
/// [`lemma_at_most_one_winner`]), but the detector does not assume it.
pub open spec fn detect_winner(b: Seq<CoordinateState>) -> Option<GamePlayer>
    recommends
        b.len() == 9,
{
    if row_complete(b, 0) {
        role_of_mark(b[0])
    } else if row_complete(b, 1) {
        role_of_mark(b[3])
    } else if row_complete(b, 2) {
        role_of_mark(b[6])
    } else if col_complete(b, 0) {
        role_of_mark(b[0])
    } else if col_complete(b, 1) {
        role_of_mark(b[1])
    } else if col_complete(b, 2) {
        role_of_mark(b[2])
    } else if line_complete(b, 0, 4, 8) {
        role_of_mark(b[0])
    } else if line_complete(b, 2, 4, 6) {
        role_of_mark(b[2])
    } else {
        Option::None
    }
}

/// Scans the board for a completed line, rows first, then columns, then the
/// two diagonals, and maps the first complete line's mark to its role.
pub fn check_winner(board: &Vec<CoordinateState>) -> (r: Option<GamePlayer>)
    requires
        board@.len() == 9,
    ensures
        r == detect_winner(board@),
{
    let mut i: usize = 0;
    while i < 3
        invariant
            board@.len() == 9,
            i <= 3,
            forall|j: int| 0 <= j < i ==> !row_complete(board@, j),
        decreases 3 - i,
    {
        if board[i * 3] != CoordinateState::Empty && board[i * 3] == board[i * 3 + 1] && board[i
            * 3] == board[i * 3 + 2] {
            return if board[i * 3] == CoordinateState::X {
                Option::Some(GamePlayer::Creator)
            } else {
                Option::Some(GamePlayer::Opponent)
            };
        }
        i = i + 1;
    }
    let mut i: usize = 0;
    while i < 3
        invariant
            board@.len() == 9,
            i <= 3,
            forall|j: int| 0 <= j < 3 ==> !row_complete(board@, j),
            forall|j: int| 0 <= j < i ==> !col_complete(board@, j),
        decreases 3 - i,
    {
        if board[i] != CoordinateState::Empty && board[i] == board[i + 3] && board[i] == board[i
            + 6] {
            return if board[i] == CoordinateState::X {
                Option::Some(GamePlayer::Creator)
            } else {
                Option::Some(GamePlayer::Opponent)
            };
        }
        i = i + 1;
    }
    if board[0] != CoordinateState::Empty && board[0] == board[4] && board[0] == board[8] {
        return if board[0] == CoordinateState::X {
            Option::Some(GamePlayer::Creator)
        } else {
            Option::Some(GamePlayer::Opponent)
        };
    }
    if board[2] != CoordinateState::Empty && board[2] == board[4] && board[2] == board[6] {
        return if board[2] == CoordinateState::X {
            Option::Some(GamePlayer::Creator)
        } else {
            Option::Some(GamePlayer::Opponent)
        };
    }
    Option::None
}

/// A completed line exists exactly when one of the two marks wins, so the
/// detector returns `None` exactly on boards without a winner.
pub proof fn lemma_detect_none_iff_no_winner(b: Seq<CoordinateState>)
    requires
        b.len() == 9,
    ensures
        detect_winner(b) is None <==> !wins(b, CoordinateState::X) && !wins(
            b,
            CoordinateState::O,
        ),
{
}

/// Whatever role the detector reports owns a completed line of its mark.
pub proof fn lemma_detect_some_wins(b: Seq<CoordinateState>)
    requires
        b.len() == 9,
    ensures
        detect_winner(b) matches Option::Some(w) ==> wins(b, mark_of(w)),
{
}

/// For any board reachable through legal alternating moves, the detector
/// reports at most one distinct winning role. Reachability is captured by
/// the game invariant: an unfinished game's board holds no completed line
/// (the game finishes the moment a line appears), so every board the
/// detector ever scans is a no-winner board plus one freshly placed mark.
/// A completed line whose mark differs from the placed one cannot use the
/// freshly marked cell, so it would have been complete before the move;
/// hence only the mover's mark can win, and the detector can never choose
/// between two winning roles.
pub proof fn lemma_at_most_one_winner(b: Seq<CoordinateState>, i: int, m: CoordinateState)
    requires
        b.len() == 9,
        0 <= i < 9,
        b[i] == CoordinateState::Empty,
        m == CoordinateState::X || m == CoordinateState::O,
        !wins(b, CoordinateState::X),
        !wins(b, CoordinateState::O),
    ensures
        !(wins(b.update(i, m), CoordinateState::X) && wins(b.update(i, m), CoordinateState::O)),
        detect_winner(b.update(i, m)) matches Option::Some(w) ==> mark_of(w) == m,
{
    let b2 = b.update(i, m);
    let other = if m == CoordinateState::X {
        CoordinateState::O
    } else {
        CoordinateState::X
    };
    assert(!wins(b2, other));
}

} // verus!
