//! The rules of the tower game, stated over the rows of a 9×9 board.
//!
//! A cell holds zero when it is empty; otherwise its sign names the player
//! whose piece lies on top of the tower and its magnitude is the tower's
//! height. A move `(origin, dest)` puts the tower at `origin` on the tower at
//! `dest`.

use crate::coords::{Coords, Move};
use crate::grid::{magnitude, rectangular};
use crate::totals::{lemma_weighted_total_put, weighted_total};
use vstd::prelude::*;

verus! {

/// The greatest height a tower may reach.
pub const MAX_HEIGHT: i64 = 5;

/// The cell lies on the 9×9 board.
pub open spec fn on_board(c: Coords) -> bool {
    c.0 < 9 && c.1 < 9
}

/// `k` lies on the board, at most one row and one column away from `center`
/// (`center` itself included).
pub open spec fn in_window(center: Coords, k: Coords) -> bool {
    &&& on_board(k)
    &&& k.0 <= center.0 + 1
    &&& center.0 <= k.0 + 1
    &&& k.1 <= center.1 + 1
    &&& center.1 <= k.1 + 1
}

/// Two different cells that touch by a side or a corner.
pub open spec fn adjacent(a: Coords, b: Coords) -> bool {
    &&& a != b
    &&& a.0 <= b.0 + 1
    &&& b.0 <= a.0 + 1
    &&& a.1 <= b.1 + 1
    &&& b.1 <= a.1 + 1
}

/// The cell of `rows` at `c`.
pub open spec fn cell_at(rows: Seq<Seq<i32>>, c: Coords) -> i32 {
    rows[c.0 as int][c.1 as int]
}

/// The height of the tower at `c`.
pub open spec fn height(board: Seq<Seq<i32>>, c: Coords) -> int {
    magnitude(cell_at(board, c))
}

/// `rows` with the cell at `c` replaced by `v`.
pub open spec fn put(rows: Seq<Seq<i32>>, c: Coords, v: i32) -> Seq<Seq<i32>> {
    rows.update(c.0 as int, rows[c.0 as int].update(c.1 as int, v))
}

/// A move is legal when it joins two neighbouring towers whose heights
/// together do not exceed [`MAX_HEIGHT`].
pub open spec fn is_legal(board: Seq<Seq<i32>>, m: Move) -> bool {
    &&& on_board(m.0)
    &&& on_board(m.1)
    &&& adjacent(m.0, m.1)
    &&& height(board, m.0) > 0
    &&& height(board, m.1) > 0
    &&& height(board, m.0) + height(board, m.1) <= MAX_HEIGHT
}

/// All legal moves on `board`.
pub open spec fn legal_moves(board: Seq<Seq<i32>>) -> Set<Move> {
    Set::new(|m: Move| is_legal(board, m))
}

/// The value of a tower after `top` was put on `bottom`: the heights add up
/// and the sign of `top` stays.
pub open spec fn stacked_value(top: i32, bottom: i32) -> int {
    if top >= 0 {
        top + magnitude(bottom)
    } else {
        top - magnitude(bottom)
    }
}

/// The board after the tower at `origin` was put on the tower at `dest`.
pub open spec fn stacked(board: Seq<Seq<i32>>, origin: Coords, dest: Coords) -> Seq<Seq<i32>> {
    put(
        put(board, origin, 0),
        dest,
        stacked_value(cell_at(board, origin), cell_at(board, dest)) as i32,
    )
}

/// One player's piece counts after the tower at `origin` was put on the tower
/// at `dest`: the destination holds the pieces of both, the origin none.
pub open spec fn merged(ratios: Seq<Seq<i32>>, origin: Coords, dest: Coords) -> Seq<Seq<i32>> {
    put(
        put(ratios, origin, 0),
        dest,
        (cell_at(ratios, origin) + cell_at(ratios, dest)) as i32,
    )
}

/// What the move `(origin, dest)` that led to `board` makes stale: every move
/// that joins `origin` with a cell near `origin` or near `dest`, and every
/// move that joins `dest` with a neighbour on which it no longer fits.
pub open spec fn stale(board: Seq<Seq<i32>>, origin: Coords, dest: Coords, m: Move) -> bool {
    ||| m.0 == origin && (in_window(origin, m.1) || in_window(dest, m.1))
    ||| m.1 == origin && (in_window(origin, m.0) || in_window(dest, m.0))
    ||| m.1 == dest && in_window(dest, m.0) && height(board, dest) + height(board, m.0)
        > MAX_HEIGHT
    ||| m.0 == dest && in_window(dest, m.1) && height(board, dest) + height(board, m.1)
        > MAX_HEIGHT
}

/// The cached moves that remain once the move `(origin, dest)` that led to
/// `board` has been accounted for.
pub open spec fn refreshed(
    cache: Set<Move>,
    board: Seq<Seq<i32>>,
    origin: Coords,
    dest: Coords,
) -> Set<Move> {
    Set::new(|m: Move| cache.contains(m) && !stale(board, origin, dest, m))
}

/// The board and both players' piece counts fit together: nine rows of nine
/// cells each, no tower higher than [`MAX_HEIGHT`], in every cell the two
/// counts add up to the tower's height, and the player on top has a piece in
/// the tower.
pub open spec fn position_ok(
    board: Seq<Seq<i32>>,
    first: Seq<Seq<i32>>,
    second: Seq<Seq<i32>>,
) -> bool {
    &&& rectangular(board, 9, 9)
    &&& rectangular(first, 9, 9)
    &&& rectangular(second, 9, 9)
    &&& forall|c: Coords| #[trigger] on_board(c) ==> cell_ok(board, first, second, c)
}

/// At `c` the tower is no higher than [`MAX_HEIGHT`], the two players' counts
/// add up to its height, and the player on top has a piece in it.
pub open spec fn cell_ok(
    board: Seq<Seq<i32>>,
    first: Seq<Seq<i32>>,
    second: Seq<Seq<i32>>,
    c: Coords,
) -> bool {
    &&& height(board, c) <= MAX_HEIGHT
    &&& cell_at(first, c) >= 0
    &&& cell_at(second, c) >= 0
    &&& cell_at(first, c) + cell_at(second, c) == height(board, c)
    &&& cell_at(board, c) > 0 ==> cell_at(first, c) > 0
    &&& cell_at(board, c) < 0 ==> cell_at(second, c) > 0
}

/// Stacking law: after a legal move the destination is as high as both towers
/// were together, it has the sign of the tower that was moved, the origin is
/// empty, and every other cell is as before.
pub proof fn lemma_stacking_law(board: Seq<Seq<i32>>, origin: Coords, dest: Coords)
    requires
        rectangular(board, 9, 9),
        is_legal(board, (origin, dest)),
    ensures
        rectangular(stacked(board, origin, dest), 9, 9),
        height(stacked(board, origin, dest), dest) == height(board, origin) + height(board, dest),
        cell_at(stacked(board, origin, dest), origin) == 0,
        cell_at(stacked(board, origin, dest), dest) > 0 <==> cell_at(board, origin) > 0,
        cell_at(stacked(board, origin, dest), dest) < 0 <==> cell_at(board, origin) < 0,
        forall|c: Coords|
            on_board(c) && c != origin && c != dest ==> #[trigger] cell_at(
                stacked(board, origin, dest),
                c,
            ) == cell_at(board, c),
{
}

/// Heights never shrink except at the origin: after a legal move every cell
/// but the origin is at least as high as before.
pub proof fn lemma_heights_grow(board: Seq<Seq<i32>>, origin: Coords, dest: Coords, c: Coords)
    requires
        rectangular(board, 9, 9),
        is_legal(board, (origin, dest)),
        on_board(c),
        c != origin,
    ensures
        height(stacked(board, origin, dest), c) >= height(board, c),
{
}

/// Move-set equivalence: taking the legal moves of a board, playing one of
/// them and discarding what that move made stale gives exactly the legal moves
/// of the new board.
pub proof fn lemma_refresh_is_full_scan(board: Seq<Seq<i32>>, origin: Coords, dest: Coords)
    requires
        rectangular(board, 9, 9),
        is_legal(board, (origin, dest)),
    ensures
        refreshed(legal_moves(board), stacked(board, origin, dest), origin, dest) == legal_moves(
            stacked(board, origin, dest),
        ),
{
    let next = stacked(board, origin, dest);
    lemma_stacking_law(board, origin, dest);
    assert forall|m: Move|
        refreshed(legal_moves(board), next, origin, dest).contains(m) <==> legal_moves(
            next,
        ).contains(m) by {
        if on_board(m.0) && on_board(m.1) {
            if m.0 != origin {
                lemma_heights_grow(board, origin, dest, m.0);
            }
            if m.1 != origin {
                lemma_heights_grow(board, origin, dest, m.1);
            }
        }
    }
}

/// A legal move keeps a position well formed.
pub proof fn lemma_stacking_keeps_position(
    board: Seq<Seq<i32>>,
    first: Seq<Seq<i32>>,
    second: Seq<Seq<i32>>,
    origin: Coords,
    dest: Coords,
)
    requires
        position_ok(board, first, second),
        is_legal(board, (origin, dest)),
    ensures
        position_ok(
            stacked(board, origin, dest),
            merged(first, origin, dest),
            merged(second, origin, dest),
        ),
{
}

/// The weight by which pieces are counted: a cell counts for its height.
pub open spec fn by_height() -> spec_fn(i32) -> int {
    |v: i32| magnitude(v)
}

/// The number of pieces on the board: the sum of all towers' heights.
pub open spec fn piece_count(board: Seq<Seq<i32>>) -> int {
    weighted_total(board, by_height())
}

/// Piece conservation: a legal move neither adds a piece to the board nor
/// takes one away.
pub proof fn lemma_stacking_keeps_pieces(board: Seq<Seq<i32>>, origin: Coords, dest: Coords)
    requires
        rectangular(board, 9, 9),
        is_legal(board, (origin, dest)),
    ensures
        piece_count(stacked(board, origin, dest)) == piece_count(board),
{
    let lifted = put(board, origin, 0);
    let value = stacked_value(cell_at(board, origin), cell_at(board, dest)) as i32;
    lemma_weighted_total_put(board, by_height(), origin.0 as int, origin.1 as int, 0i32);
    lemma_weighted_total_put(lifted, by_height(), dest.0 as int, dest.1 as int, value);
}

/// The board after the moves `ms`, played in order.
pub open spec fn board_after(board: Seq<Seq<i32>>, ms: Seq<Move>) -> Seq<Seq<i32>>
    decreases ms.len(),
{
    if ms.len() == 0 {
        board
    } else {
        stacked(board_after(board, ms.drop_last()), ms.last().0, ms.last().1)
    }
}

/// Each move of `ms` is legal on the board on which it is played.
pub open spec fn all_legal(board: Seq<Seq<i32>>, ms: Seq<Move>) -> bool
    decreases ms.len(),
{
    ms.len() == 0 || (all_legal(board, ms.drop_last()) && is_legal(
        board_after(board, ms.drop_last()),
        ms.last(),
    ))
}

/// The moves that are left when one starts from the legal moves of `board`
/// and, after each move of `ms`, only discards what that move made stale.
pub open spec fn maintained_moves(board: Seq<Seq<i32>>, ms: Seq<Move>) -> Set<Move>
    decreases ms.len(),
{
    if ms.len() == 0 {
        legal_moves(board)
    } else {
        refreshed(
            maintained_moves(board, ms.drop_last()),
            board_after(board, ms),
            ms.last().0,
            ms.last().1,
        )
    }
}

/// Through every sequence of legal moves the moves maintained by discarding
/// alone are the legal moves of the board reached, and the number of pieces
/// on the board stays what it was.
pub proof fn lemma_maintained_moves_are_full_scan(board: Seq<Seq<i32>>, ms: Seq<Move>)
    requires
        rectangular(board, 9, 9),
        all_legal(board, ms),
    ensures
        rectangular(board_after(board, ms), 9, 9),
        maintained_moves(board, ms) == legal_moves(board_after(board, ms)),
        piece_count(board_after(board, ms)) == piece_count(board),
    decreases ms.len(),
{
    if ms.len() > 0 {
        let before = board_after(board, ms.drop_last());
        lemma_maintained_moves_are_full_scan(board, ms.drop_last());
        lemma_stacking_law(before, ms.last().0, ms.last().1);
        lemma_refresh_is_full_scan(before, ms.last().0, ms.last().1);
        lemma_stacking_keeps_pieces(before, ms.last().0, ms.last().1);
    }
}

/// Through every sequence of legal moves a well-formed position stays well
/// formed: in every cell the two players' counts add up to the tower's height.
pub proof fn lemma_position_stays_ok(
    board: Seq<Seq<i32>>,
    first: Seq<Seq<i32>>,
    second: Seq<Seq<i32>>,
    ms: Seq<Move>,
)
    requires
        position_ok(board, first, second),
        all_legal(board, ms),
    ensures
        position_ok(board_after(board, ms), ratios_after(first, ms), ratios_after(second, ms)),
    decreases ms.len(),
{
    if ms.len() > 0 {
        lemma_position_stays_ok(board, first, second, ms.drop_last());
        lemma_stacking_keeps_position(
            board_after(board, ms.drop_last()),
            ratios_after(first, ms.drop_last()),
            ratios_after(second, ms.drop_last()),
            ms.last().0,
            ms.last().1,
        );
    }
}

/// One player's piece counts after the moves `ms`, played in order.
pub open spec fn ratios_after(ratios: Seq<Seq<i32>>, ms: Seq<Move>) -> Seq<Seq<i32>>
    decreases ms.len(),
{
    if ms.len() == 0 {
        ratios
    } else {
        merged(ratios_after(ratios, ms.drop_last()), ms.last().0, ms.last().1)
    }
}

} // verus!
