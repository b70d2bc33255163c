//! The rules of the nested three-in-a-row game, stated over a model of its
//! state.
//!
//! The 9×9 board is a 3×3 board of 3×3 sub-boards: row `k` of the table holds
//! the nine cells of sub-board `k`. A move names a sub-board and a cell in it,
//! each by its row and column among three.

use crate::coords::{Coords, Move};
use crate::grid::rectangular;
use crate::line::{any_line_complete, has_empty, line_outcome};
use crate::totals::{
    lemma_table_total_bounds, lemma_weighted_total_put, weighted, weighted_total,
};
use vstd::prelude::*;

verus! {

/// The value of the active cell when any undecided sub-board may be played.
pub const UNCONSTRAINED: i64 = -1;

/// The state of a game as the rules see it.
pub struct Position {
    /// The cells: 0 for an empty cell, else the id of the player who filled it.
    pub board: Seq<Seq<i64>>,
    /// The outcome of each sub-board.
    pub results: Seq<i64>,
    /// The sub-board that must be played next, or [`UNCONSTRAINED`].
    pub active: i64,
    /// The number of moves played.
    pub turn: int,
    /// The id of the player to move.
    pub player: int,
}

/// Both coordinates are below three.
pub open spec fn in_three(c: Coords) -> bool {
    c.0 < 3 && c.1 < 3
}

/// The index among nine of a row and column among three.
pub open spec fn flat(c: Coords) -> int {
    3 * c.0 + c.1
}

/// The weight by which filled cells are counted.
pub open spec fn by_mark() -> spec_fn(i64) -> int {
    |v: i64|
        if v != 0 {
            1int
        } else {
            0int
        }
}

/// The number of cells that are not empty.
pub open spec fn filled_count(board: Seq<Seq<i64>>) -> int {
    weighted_total(board, by_mark())
}

/// No sub-board is imposed on the player to move: none was set, or the one
/// that was set is decided.
pub open spec fn free_choice(p: Position) -> bool {
    p.active == UNCONSTRAINED || p.results[p.active as int] != 0
}

/// A position is well formed: nine sub-boards of nine cells that hold 0, 1 or
/// 2; each sub-board's outcome is the evaluation of its cells; an imposed
/// sub-board is undecided; the turn counts the filled cells; and the players
/// alternate, the first player moving on even turns.
pub open spec fn position_ok(p: Position) -> bool {
    &&& rectangular(p.board, 9, 9)
    &&& forall|k: int, c: int| 0 <= k < 9 && 0 <= c < 9 ==> 0 <= #[trigger] p.board[k][c] <= 2
    &&& p.results.len() == 9
    &&& forall|k: int| 0 <= k < 9 ==> #[trigger] p.results[k] == line_outcome(p.board[k])
    &&& p.active == UNCONSTRAINED || (0 <= p.active < 9 && p.results[p.active as int] == 0)
    &&& p.turn == filled_count(p.board)
    &&& p.player == p.turn % 2 + 1
}

/// The position before the first move.
pub open spec fn initial_position() -> Position {
    Position {
        board: Seq::new(9, |k: int| Seq::new(9, |c: int| 0i64)),
        results: Seq::new(9, |k: int| 0i64),
        active: UNCONSTRAINED,
        turn: 0,
        player: 1,
    }
}

/// Cell `sub` of sub-board `sup` may be played: it is empty, and its sub-board
/// is the imposed one or, where none is imposed, an undecided one.
pub open spec fn cell_legal(p: Position, sup: int, sub: int) -> bool {
    &&& 0 <= sup < 9
    &&& 0 <= sub < 9
    &&& p.board[sup][sub] == 0
    &&& if free_choice(p) {
        p.results[sup] == 0
    } else {
        sup == p.active
    }
}

/// The move names a cell that may be played.
pub open spec fn move_legal(p: Position, m: Move) -> bool {
    in_three(m.0) && in_three(m.1) && cell_legal(p, flat(m.0), flat(m.1))
}

/// All legal moves of a position.
pub open spec fn legal_moves(p: Position) -> Set<Move> {
    Set::new(|m: Move| move_legal(p, m))
}

/// The position after the player to move has filled the cell that `m` names:
/// the sub-board played in is evaluated anew, the sub-board with the index of
/// the cell played is imposed unless it is decided, and the turn passes.
pub open spec fn after(p: Position, m: Move) -> Position {
    let sup = flat(m.0);
    let sub = flat(m.1);
    let board = p.board.update(sup, p.board[sup].update(sub, p.player as i64));
    let results = p.results.update(sup, line_outcome(board[sup]));
    Position {
        board,
        results,
        active: if results[sub] != 0 {
            UNCONSTRAINED
        } else {
            sub as i64
        },
        turn: p.turn + 1,
        player: p.player % 2 + 1,
    }
}

/// The position after the moves `ms`, played in order.
pub open spec fn after_all(p: Position, ms: Seq<Move>) -> Position
    decreases ms.len(),
{
    if ms.len() == 0 {
        p
    } else {
        after(after_all(p, ms.drop_last()), ms.last())
    }
}

/// Each move of `ms` is legal in the position in which it is played.
pub open spec fn all_legal(p: Position, ms: Seq<Move>) -> bool
    decreases ms.len(),
{
    ms.len() == 0 || (all_legal(p, ms.drop_last()) && move_legal(
        after_all(p, ms.drop_last()),
        ms.last(),
    ))
}

/// A sub-board whose outcome is undecided has an empty cell.
pub proof fn lemma_undecided_has_empty(g: Seq<i64>)
    requires
        line_outcome(g) == 0,
    ensures
        has_empty(g),
{
}

/// In a well-formed position a decided sub-board has a complete line or no
/// empty cell.
pub proof fn lemma_decided_is_won_or_full(p: Position, k: int)
    requires
        position_ok(p),
        0 <= k < 9,
        p.results[k] != 0,
    ensures
        any_line_complete(p.board[k]) || !has_empty(p.board[k]),
{
}

/// At most 81 cells of a 9×9 board are filled.
pub proof fn lemma_filled_count_bounds(board: Seq<Seq<i64>>)
    requires
        rectangular(board, 9, 9),
    ensures
        0 <= filled_count(board) <= 81,
{
    lemma_table_total_bounds(weighted(board, by_mark()), 9, 1);
}

/// The position before the first move is well formed.
pub proof fn lemma_initial_position_ok()
    ensures
        position_ok(initial_position()),
{
    lemma_table_total_bounds(weighted(initial_position().board, by_mark()), 9, 0);
}

/// A legal move keeps a position well formed.
pub proof fn lemma_move_keeps_position(p: Position, m: Move)
    requires
        position_ok(p),
        move_legal(p, m),
    ensures
        position_ok(after(p, m)),
        after(p, m).turn <= 81,
{
    lemma_weighted_total_put(p.board, by_mark(), flat(m.0), flat(m.1), p.player as i64);
    lemma_filled_count_bounds(after(p, m).board);
}

/// Active-cell constraint: where a sub-board is imposed and undecided, every
/// legal move lies in it; in any case a legal move lies in an undecided
/// sub-board and fills an empty cell.
pub proof fn lemma_moves_respect_active(p: Position, m: Move)
    requires
        position_ok(p),
        legal_moves(p).contains(m),
    ensures
        p.active != UNCONSTRAINED && p.results[p.active as int] == 0 ==> flat(m.0) == p.active,
        p.results[flat(m.0)] == 0,
        p.board[flat(m.0)][flat(m.1)] == 0,
{
}

/// A legal move leaves the outcome of every decided sub-board as it is.
pub proof fn lemma_move_keeps_decided(p: Position, m: Move, k: int)
    requires
        position_ok(p),
        move_legal(p, m),
        0 <= k < 9,
        p.results[k] != 0,
    ensures
        after(p, m).results[k] == p.results[k],
{
}

/// Sub-board closure: once a sub-board is decided, its outcome stays the same
/// through every sequence of legal moves, and no legal move of any position
/// reached lies in it.
pub proof fn lemma_decided_stays_closed(p: Position, ms: Seq<Move>, k: int)
    requires
        position_ok(p),
        all_legal(p, ms),
        0 <= k < 9,
        p.results[k] != 0,
    ensures
        position_ok(after_all(p, ms)),
        after_all(p, ms).results[k] == p.results[k],
        forall|m: Move| #[trigger] legal_moves(after_all(p, ms)).contains(m) ==> flat(m.0) != k,
    decreases ms.len(),
{
    if ms.len() > 0 {
        let before = after_all(p, ms.drop_last());
        lemma_decided_stays_closed(p, ms.drop_last(), k);
        lemma_move_keeps_position(before, ms.last());
        lemma_move_keeps_decided(before, ms.last(), k);
    }
    let q = after_all(p, ms);
    assert forall|m: Move| #[trigger] legal_moves(q).contains(m) implies flat(m.0) != k by {
        lemma_moves_respect_active(q, m);
    }
}

/// The players alternate and the turn counts the moves: after `ms.len()` legal
/// moves from the starting position the turn is `ms.len()`, and the first
/// player is to move exactly when that number is even.
pub proof fn lemma_turns_alternate(ms: Seq<Move>)
    requires
        all_legal(initial_position(), ms),
    ensures
        position_ok(after_all(initial_position(), ms)),
        after_all(initial_position(), ms).turn == ms.len(),
        after_all(initial_position(), ms).player == ms.len() % 2 + 1,
    decreases ms.len(),
{
    lemma_initial_position_ok();
    if ms.len() > 0 {
        lemma_turns_alternate(ms.drop_last());
        lemma_move_keeps_position(after_all(initial_position(), ms.drop_last()), ms.last());
    }
}

} // verus!
