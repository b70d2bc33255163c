//! The tower game: its starting position, the scan for legal moves, and the
//! state that keeps the legal moves up to date from one move to the next.

use crate::avalam_rules::{
    cell_at, cell_ok, height, in_window, is_legal, legal_moves, lemma_refresh_is_full_scan,
    lemma_stacking_keeps_pieces, lemma_stacking_keeps_position, merged, on_board, piece_count,
    position_ok, refreshed, stacked, MAX_HEIGHT,
};
use crate::coords::{Coords, InvalidMove, Move};
use crate::grid::{
    capped_magnitude, cell_magnitude, lemma_rows_of, rectangular, rows_of, Grid,
};
use crate::move_set::MoveSet;
use vstd::prelude::*;

verus! {

/// An empty cell.
pub const E: i32 = 0;

/// A single piece of the first player.
pub const A: i32 = 1;

/// A single piece of the second player.
pub const B: i32 = -1;

/// The cells of the starting position, row after row.
pub open spec fn initial_cells() -> Seq<i32> {
    seq![
        E, E, A, B, E, E, E, E, E,
        E, A, B, A, B, E, E, E, E,
        E, B, A, B, A, B, A, E, E,
        E, A, B, A, B, A, B, A, B,
        A, B, A, B, E, B, A, B, A,
        B, A, B, A, B, A, B, A, E,
        E, E, A, B, A, B, A, B, E,
        E, E, E, E, B, A, B, A, E,
        E, E, E, E, E, B, A, E, E,
    ]
}

/// The board of the starting position.
pub open spec fn initial_board() -> Seq<Seq<i32>> {
    rows_of(initial_cells())
}

/// Every tower of the starting position is one piece high.
pub proof fn lemma_initial_cells_are_single()
    ensures
        initial_cells().len() == 81,
        forall|i: int| 0 <= i < 81 ==> -1 <= #[trigger] initial_cells()[i] <= 1,
{
}

/// The board of the starting position.
pub fn base_array() -> (board: Grid)
    ensures
        board@ == initial_board(),
{
    let cells: Vec<i32> = vec![
        E, E, A, B, E, E, E, E, E,
        E, A, B, A, B, E, E, E, E,
        E, B, A, B, A, B, A, E, E,
        E, A, B, A, B, A, B, A, B,
        A, B, A, B, E, B, A, B, A,
        B, A, B, A, B, A, B, A, E,
        E, E, A, B, A, B, A, B, E,
        E, E, E, E, B, A, B, A, E,
        E, E, E, E, E, B, A, E, E,
    ];
    let board = Grid::from_vec(cells).unwrap();
    assert(board@ =~= initial_board()) by {
        assert forall|r: int| 0 <= r < 9 implies #[trigger] board@[r] =~= initial_board()[r] by {
        }
    }
    board
}

/// What one player holds of a tower when the game starts: all of it if the
/// tower shows that player's sign, nothing otherwise.
pub open spec fn seed_share(v: i32, first: bool) -> i32 {
    if first == (v > 0) && v != 0 {
        capped_magnitude(v)
    } else {
        0
    }
}

/// One player's piece counts for a board on which every tower belongs to one
/// player alone.
pub open spec fn seeded(board: Seq<Seq<i32>>, first: bool) -> Seq<Seq<i32>> {
    Seq::new(9, |r: int| Seq::new(9, |c: int| seed_share(board[r][c], first)))
}

/// The piece counts of the starting position: the first player's, then the
/// second player's.
pub fn base_ratios() -> (ratios: (Grid, Grid))
    ensures
        ratios.0@ == seeded(initial_board(), true),
        ratios.1@ == seeded(initial_board(), false),
{
    let board = base_array();
    let mut first: Vec<i32> = Vec::new();
    let mut second: Vec<i32> = Vec::new();
    let mut r: usize = 0;
    while r < 9
        invariant
            r <= 9,
            board@ == initial_board(),
            first@.len() == 9 * r,
            second@.len() == 9 * r,
            forall|i: int, j: int|
                0 <= i < r && 0 <= j < 9 ==> first@[9 * i + j] == seed_share(
                    #[trigger] board@[i][j],
                    true,
                ) && second@[9 * i + j] == seed_share(board@[i][j], false),
        decreases 9 - r,
    {
        let mut c: usize = 0;
        while c < 9
            invariant
                r < 9,
                c <= 9,
                board@ == initial_board(),
                first@.len() == 9 * r + c,
                second@.len() == 9 * r + c,
                forall|i: int, j: int|
                    0 <= i < 9 && 0 <= j < 9 && 9 * i + j < 9 * r + c ==> first@[9 * i + j]
                        == seed_share(#[trigger] board@[i][j], true) && second@[9 * i + j]
                        == seed_share(board@[i][j], false),
            decreases 9 - c,
        {
            let v = board.get(r, c);
            let m = cell_magnitude(v);
            first.push(if v > 0 { m } else { 0 });
            second.push(if v < 0 { m } else { 0 });
            c += 1;
        }
        r += 1;
    }
    let first_grid = Grid::from_vec(first).unwrap();
    let second_grid = Grid::from_vec(second).unwrap();
    proof {
        assert forall|i: int| 0 <= i < 9 implies #[trigger] first_grid@[i] =~= seeded(
            initial_board(),
            true,
        )[i] by {
        }
        assert forall|i: int| 0 <= i < 9 implies #[trigger] second_grid@[i] =~= seeded(
            initial_board(),
            false,
        )[i] by {
        }
    }
    (first_grid, second_grid)
}

/// `heights` holds the capped magnitudes of the cells of the 9×9 `board`.
pub open spec fn heights_of(heights: Seq<Seq<i32>>, board: Seq<Seq<i32>>) -> bool {
    &&& rectangular(board, 9, 9)
    &&& rectangular(heights, 9, 9)
    &&& forall|c: Coords| #[trigger]
        on_board(c) ==> cell_at(heights, c) == capped_magnitude(cell_at(board, c))
}

/// `c` comes before row `i`, column `j` when the board is read row by row.
pub open spec fn precedes(c: Coords, i: int, j: int) -> bool {
    c.0 < i || (c.0 == i && c.1 < j)
}

/// The first row or column of the window around row or column `x`.
pub open spec fn window_lo(x: usize) -> int {
    if x == 0 {
        0
    } else {
        x - 1
    }
}

/// One past the last row or column of the window around row or column `x`.
pub open spec fn window_hi(x: usize) -> int {
    if x + 2 <= 9 {
        x + 2
    } else {
        9
    }
}

/// Computes [`window_lo`].
fn window_start(x: usize) -> (lo: usize)
    requires
        x < 9,
    ensures
        lo == window_lo(x),
{
    if x == 0 {
        0
    } else {
        x - 1
    }
}

/// Computes [`window_hi`].
fn window_end(x: usize) -> (hi: usize)
    requires
        x < 9,
    ensures
        hi == window_hi(x),
{
    if x + 2 <= 9 {
        x + 2
    } else {
        9
    }
}

/// Whether two towers of the given capped heights fit on one another.
fn fits(a: i32, b: i32) -> (ok: bool)
    requires
        a >= 0,
        b >= 0,
    ensures
        ok == (a + b <= MAX_HEIGHT),
{
    let sum: i64 = a as i64 + b as i64;
    sum <= MAX_HEIGHT
}

/// Adds to `moves` every legal move onto the occupied cell `dest`.
fn add_moves_onto(
    heights: &Grid,
    Ghost(board): Ghost<Seq<Seq<i32>>>,
    dest: Coords,
    moves: &mut MoveSet,
)
    requires
        heights_of(heights@, board),
        on_board(dest),
        cell_at(heights@, dest) != 0,
        old(moves).wf(),
    ensures
        final(moves).wf(),
        forall|m: Move|
            #[trigger] final(moves)@.contains(m) <==> old(moves)@.contains(m) || (is_legal(
                board,
                m,
            ) && m.1 == dest),
{
    let i_lo = window_start(dest.0);
    let i_hi = window_end(dest.0);
    let j_lo = window_start(dest.1);
    let j_hi = window_end(dest.1);
    let onto = heights.get(dest.0, dest.1);
    let ghost start = moves@;
    let mut i = i_lo;
    while i < i_hi
        invariant
            heights_of(heights@, board),
            on_board(dest),
            onto == cell_at(heights@, dest),
            onto != 0,
            i_lo == window_lo(dest.0),
            i_hi == window_hi(dest.0),
            j_lo == window_lo(dest.1),
            j_hi == window_hi(dest.1),
            i_lo <= i <= i_hi,
            moves.wf(),
            forall|m: Move|
                #[trigger] moves@.contains(m) <==> start.contains(m) || (is_legal(board, m) && m.1
                    == dest && m.0.0 < i),
        decreases i_hi - i,
    {
        let mut j = j_lo;
        while j < j_hi
            invariant
                heights_of(heights@, board),
                on_board(dest),
                onto == cell_at(heights@, dest),
                onto != 0,
                i_lo == window_lo(dest.0),
                i_hi == window_hi(dest.0),
                j_lo == window_lo(dest.1),
                j_hi == window_hi(dest.1),
                i_lo <= i < i_hi,
                j_lo <= j <= j_hi,
                moves.wf(),
                forall|m: Move|
                    #[trigger] moves@.contains(m) <==> start.contains(m) || (is_legal(board, m)
                        && m.1 == dest && precedes(m.0, i as int, j as int)),
            decreases j_hi - j,
        {
            let from: Coords = (i, j);
            assert(on_board(from));
            if !(i == dest.0 && j == dest.1) {
                let v = heights.get(i, j);
                if v != 0 && fits(v, onto) {
                    moves.insert((from, dest));
                }
            }
            j += 1;
        }
        i += 1;
    }
}

/// Scans the whole board for legal moves: every pair of neighbouring towers
/// whose heights together do not exceed the limit, in either direction.
pub fn gen_moves(board: &Grid) -> (moves: MoveSet)
    requires
        rectangular(board@, 9, 9),
    ensures
        moves.wf(),
        moves@ == legal_moves(board@),
{
    let heights = board.magnitudes();
    let mut moves = MoveSet::new();
    let mut i: usize = 0;
    while i < 9
        invariant
            i <= 9,
            heights_of(heights@, board@),
            moves.wf(),
            forall|m: Move| #[trigger] moves@.contains(m) <==> is_legal(board@, m) && m.1.0 < i,
        decreases 9 - i,
    {
        let mut j: usize = 0;
        while j < 9
            invariant
                i < 9,
                j <= 9,
                heights_of(heights@, board@),
                moves.wf(),
                forall|m: Move|
                    #[trigger] moves@.contains(m) <==> is_legal(board@, m) && precedes(
                        m.1,
                        i as int,
                        j as int,
                    ),
            decreases 9 - j,
        {
            let dest: Coords = (i, j);
            if heights.get(i, j) != 0 {
                add_moves_onto(&heights, Ghost(board@), dest, &mut moves);
            }
            j += 1;
        }
        i += 1;
    }
    moves
}

/// Puts the tower at `origin` on the tower at `dest`, whether or not the rules
/// allow the move: the heights add up, the sign of the tower moved stays, and
/// `origin` is left empty. The new height must fit the cell type.
pub fn stack(board: &mut Grid, origin: Coords, dest: Coords)
    requires
        rectangular(old(board)@, 9, 9),
        on_board(origin),
        on_board(dest),
        height(old(board)@, origin) + height(old(board)@, dest) <= i32::MAX,
    ensures
        final(board)@ == stacked(old(board)@, origin, dest),
{
    let top = board.get(origin.0, origin.1);
    let bottom = board.get(dest.0, dest.1);
    let final_val = if top >= 0 {
        top + cell_magnitude(bottom)
    } else {
        top - cell_magnitude(bottom)
    };
    board.set(origin.0, origin.1, 0);
    board.set(dest.0, dest.1, final_val);
}

/// Moves one player's pieces along with a tower: the count at `dest` becomes
/// the sum of the counts at `origin` and at `dest`, the count at `origin`
/// zero. The sum must fit the cell type.
pub fn merge(ratios: &mut Grid, origin: Coords, dest: Coords)
    requires
        rectangular(old(ratios)@, 9, 9),
        on_board(origin),
        on_board(dest),
        i32::MIN <= cell_at(old(ratios)@, origin) + cell_at(old(ratios)@, dest) <= i32::MAX,
    ensures
        final(ratios)@ == merged(old(ratios)@, origin, dest),
{
    let top = ratios.get(origin.0, origin.1);
    let bottom = ratios.get(dest.0, dest.1);
    ratios.set(origin.0, origin.1, 0);
    ratios.set(dest.0, dest.1, top + bottom);
}

/// Whether a board and both players' piece counts make a well-formed
/// position.
pub fn position_is_ok(board: &Grid, first: &Grid, second: &Grid) -> (ok: bool)
    requires
        rectangular(board@, 9, 9),
        rectangular(first@, 9, 9),
        rectangular(second@, 9, 9),
    ensures
        ok == position_ok(board@, first@, second@),
{
    let mut r: usize = 0;
    while r < 9
        invariant
            r <= 9,
            rectangular(board@, 9, 9),
            rectangular(first@, 9, 9),
            rectangular(second@, 9, 9),
            forall|c: Coords| #[trigger]
                on_board(c) && c.0 < r ==> cell_ok(board@, first@, second@, c),
        decreases 9 - r,
    {
        let mut c: usize = 0;
        while c < 9
            invariant
                r < 9,
                c <= 9,
                rectangular(board@, 9, 9),
                rectangular(first@, 9, 9),
                rectangular(second@, 9, 9),
                forall|k: Coords| #[trigger]
                    on_board(k) && precedes(k, r as int, c as int) ==> cell_ok(
                        board@,
                        first@,
                        second@,
                        k,
                    ),
            decreases 9 - c,
        {
            let here: Coords = (r, c);
            let v = board.get(r, c);
            let h = cell_magnitude(v);
            let f = first.get(r, c);
            let s = second.get(r, c);
            let fine = h as i64 <= MAX_HEIGHT && f >= 0 && s >= 0 && f as i64 + s as i64
                == h as i64 && (v <= 0 || f > 0) && (v >= 0 || s > 0);
            if !fine {
                assert(on_board(here));
                return false;
            }
            c += 1;
        }
        r += 1;
    }
    true
}

/// Whether `(origin, dest)` is a legal move on `board`.
pub fn is_legal_move(board: &Grid, origin: Coords, dest: Coords) -> (legal: bool)
    requires
        rectangular(board@, 9, 9),
    ensures
        legal == is_legal(board@, (origin, dest)),
{
    if origin.0 >= 9 || origin.1 >= 9 || dest.0 >= 9 || dest.1 >= 9 {
        return false;
    }
    if origin.0 == dest.0 && origin.1 == dest.1 {
        return false;
    }
    if origin.0 > dest.0 + 1 || dest.0 > origin.0 + 1 || origin.1 > dest.1 + 1 || dest.1 > origin.1
        + 1 {
        return false;
    }
    let top = cell_magnitude(board.get(origin.0, origin.1));
    let bottom = cell_magnitude(board.get(dest.0, dest.1));
    top != 0 && bottom != 0 && fits(top, bottom)
}

/// `k` lies in the window around `center` and comes before row `i`, column
/// `j`.
pub open spec fn seen(center: Coords, k: Coords, i: int, j: int) -> bool {
    in_window(center, k) && precedes(k, i, j)
}

/// `m` joins `a` with a cell of the window around `center` that comes before
/// row `i`, column `j`.
pub open spec fn joins_seen(m: Move, a: Coords, center: Coords, i: int, j: int) -> bool {
    (m.0 == a && seen(center, m.1, i, j)) || (m.1 == a && seen(center, m.0, i, j))
}

/// `m` joins `dest` with a cell of its window that comes before row `i`,
/// column `j` and on which `dest` no longer fits.
pub open spec fn outgrown_seen(
    board: Seq<Seq<i32>>,
    m: Move,
    dest: Coords,
    i: int,
    j: int,
) -> bool {
    ||| m.1 == dest && seen(dest, m.0, i, j) && height(board, dest) + height(board, m.0)
        > MAX_HEIGHT
    ||| m.0 == dest && seen(dest, m.1, i, j) && height(board, dest) + height(board, m.1)
        > MAX_HEIGHT
}

/// Takes out of `moves` what the move `(origin, dest)` that led to `board` made
/// stale: first every move that joins `origin` with a cell of its own window,
/// then, for each cell of the window of `dest`, the moves that join it with
/// `origin` and, if `dest` has outgrown it, the moves that join it with `dest`.
fn discard_stale(moves: &mut MoveSet, board: &Grid, origin: Coords, dest: Coords)
    requires
        old(moves).wf(),
        rectangular(board@, 9, 9),
        on_board(origin),
        on_board(dest),
    ensures
        final(moves).wf(),
        final(moves)@ == refreshed(old(moves)@, board@, origin, dest),
{
    let ghost start = moves@;
    let i_hi = window_end(origin.0);
    let j_lo = window_start(origin.1);
    let j_hi = window_end(origin.1);
    let mut i = window_start(origin.0);
    while i < i_hi
        invariant
            on_board(origin),
            i_hi == window_hi(origin.0),
            j_lo == window_lo(origin.1),
            j_hi == window_hi(origin.1),
            window_lo(origin.0) <= i <= i_hi,
            moves.wf(),
            forall|m: Move| #[trigger]
                moves@.contains(m) <==> start.contains(m) && !joins_seen(
                    m,
                    origin,
                    origin,
                    i as int,
                    0,
                ),
        decreases i_hi - i,
    {
        let mut j = j_lo;
        while j < j_hi
            invariant
                on_board(origin),
                i_hi == window_hi(origin.0),
                j_lo == window_lo(origin.1),
                j_hi == window_hi(origin.1),
                window_lo(origin.0) <= i < i_hi,
                j_lo <= j <= j_hi,
                moves.wf(),
                forall|m: Move| #[trigger]
                    moves@.contains(m) <==> start.contains(m) && !joins_seen(
                        m,
                        origin,
                        origin,
                        i as int,
                        j as int,
                    ),
            decreases j_hi - j,
        {
            let k: Coords = (i, j);
            moves.discard((origin, k));
            moves.discard((k, origin));
            j += 1;
        }
        i += 1;
    }
    let ghost halfway = moves@;
    let onto = cell_magnitude(board.get(dest.0, dest.1));
    let i_hi = window_end(dest.0);
    let j_lo = window_start(dest.1);
    let j_hi = window_end(dest.1);
    let mut i = window_start(dest.0);
    while i < i_hi
        invariant
            rectangular(board@, 9, 9),
            on_board(dest),
            onto == capped_magnitude(cell_at(board@, dest)),
            i_hi == window_hi(dest.0),
            j_lo == window_lo(dest.1),
            j_hi == window_hi(dest.1),
            window_lo(dest.0) <= i <= i_hi,
            moves.wf(),
            forall|m: Move| #[trigger]
                moves@.contains(m) <==> halfway.contains(m) && !joins_seen(
                    m,
                    origin,
                    dest,
                    i as int,
                    0,
                ) && !outgrown_seen(board@, m, dest, i as int, 0),
        decreases i_hi - i,
    {
        let mut j = j_lo;
        while j < j_hi
            invariant
                rectangular(board@, 9, 9),
                on_board(dest),
                onto == capped_magnitude(cell_at(board@, dest)),
                i_hi == window_hi(dest.0),
                j_lo == window_lo(dest.1),
                j_hi == window_hi(dest.1),
                window_lo(dest.0) <= i < i_hi,
                j_lo <= j <= j_hi,
                moves.wf(),
                forall|m: Move| #[trigger]
                    moves@.contains(m) <==> halfway.contains(m) && !joins_seen(
                        m,
                        origin,
                        dest,
                        i as int,
                        j as int,
                    ) && !outgrown_seen(board@, m, dest, i as int, j as int),
            decreases j_hi - j,
        {
            let k: Coords = (i, j);
            moves.discard((origin, k));
            moves.discard((k, origin));
            let beside = cell_magnitude(board.get(i, j));
            if !fits(onto, beside) {
                moves.discard((k, dest));
                moves.discard((dest, k));
            }
            j += 1;
        }
        i += 1;
    }
}

/// A position of the tower game together with its legal moves.
///
/// The legal moves are cached. A move leaves the cache of the new state as it
/// was and marks the state with the move played; the cache is brought up to
/// date when the legal moves are next asked for.
pub struct RawAvalamState {
    board: Grid,
    first_ratios: Grid,
    second_ratios: Grid,
    moves: MoveSet,
    on_move_call: Option<Move>,
}

impl RawAvalamState {
    /// The rows of the board.
    pub closed spec fn board_rows(&self) -> Seq<Seq<i32>> {
        self.board@
    }

    /// How many pieces of one player each tower holds: of the first player if
    /// `first`, else of the second.
    pub closed spec fn ratio_rows(&self, first: bool) -> Seq<Seq<i32>> {
        if first {
            self.first_ratios@
        } else {
            self.second_ratios@
        }
    }

    /// The cached moves, as they were stored last.
    pub closed spec fn cache(&self) -> Set<Move> {
        self.moves@
    }

    /// The move that led to this state, as long as the cache has not been
    /// brought up to date with it.
    pub closed spec fn pending(&self) -> Option<Move> {
        self.on_move_call
    }

    /// The cache stores no move twice.
    pub closed spec fn cache_ok(&self) -> bool {
        self.moves.wf()
    }

    /// The cached moves once the pending move, if any, is accounted for.
    pub open spec fn current_moves(&self) -> Set<Move> {
        match self.pending() {
            Some(m) => refreshed(self.cache(), self.board_rows(), m.0, m.1),
            None => self.cache(),
        }
    }

    /// The state is well formed: board and piece counts fit together, a
    /// pending move lies on the board, and the cache, once brought up to date,
    /// holds exactly the legal moves of the board.
    pub open spec fn wf(&self) -> bool {
        &&& self.cache_ok()
        &&& position_ok(self.board_rows(), self.ratio_rows(true), self.ratio_rows(false))
        &&& match self.pending() {
            Some(m) => on_board(m.0) && on_board(m.1),
            None => true,
        }
        &&& self.current_moves() == legal_moves(self.board_rows())
    }

    /// `next` is this state after the move `(origin, dest)`: the tower at
    /// `origin` lies on the tower at `dest`, the piece counts are merged
    /// likewise, and the cache still holds the legal moves of this state,
    /// marked with the move.
    pub open spec fn leads_to(&self, origin: Coords, dest: Coords, next: Self) -> bool {
        &&& next.wf()
        &&& next.board_rows() == stacked(self.board_rows(), origin, dest)
        &&& next.ratio_rows(true) == merged(self.ratio_rows(true), origin, dest)
        &&& next.ratio_rows(false) == merged(self.ratio_rows(false), origin, dest)
        &&& next.pending() == Some((origin, dest))
        &&& next.cache() == legal_moves(self.board_rows())
        &&& next.current_moves() == legal_moves(next.board_rows())
        &&& piece_count(next.board_rows()) == piece_count(self.board_rows())
        &&& height(next.board_rows(), dest) == height(self.board_rows(), origin) + height(
            self.board_rows(),
            dest,
        )
        &&& cell_at(next.board_rows(), origin) == 0
        &&& cell_at(next.board_rows(), dest) > 0 <==> cell_at(self.board_rows(), origin) > 0
    }

    /// The starting position, with its legal moves.
    pub fn new() -> (state: Self)
        ensures
            state.wf(),
            state.board_rows() == initial_board(),
            state.ratio_rows(true) == seeded(initial_board(), true),
            state.ratio_rows(false) == seeded(initial_board(), false),
            state.pending() is None,
            state.cache() == legal_moves(initial_board()),
    {
        let board = base_array();
        let ratios = base_ratios();
        let moves = gen_moves(&board);
        RawAvalamState {
            board,
            first_ratios: ratios.0,
            second_ratios: ratios.1,
            moves,
            on_move_call: None,
        }
    }

    /// The state of a position given by 81 board cells and 81 piece counts of
    /// each player, all in row-major order, with its legal moves. Cells that
    /// do not make a well-formed position are refused.
    pub fn from_parts(board: Vec<i32>, first: Vec<i32>, second: Vec<i32>) -> (state: Option<Self>)
        ensures
            state is Some <==> board@.len() == 81 && first@.len() == 81 && second@.len() == 81
                && position_ok(rows_of(board@), rows_of(first@), rows_of(second@)),
            state is Some ==> {
                &&& state->0.wf()
                &&& state->0.board_rows() == rows_of(board@)
                &&& state->0.ratio_rows(true) == rows_of(first@)
                &&& state->0.ratio_rows(false) == rows_of(second@)
                &&& state->0.pending() is None
                &&& state->0.cache() == legal_moves(rows_of(board@))
            },
    {
        if board.len() != 81 || first.len() != 81 || second.len() != 81 {
            return None;
        }
        let ghost board_cells = board@;
        let ghost first_cells = first@;
        let ghost second_cells = second@;
        let board = Grid::from_vec(board).unwrap();
        let first = Grid::from_vec(first).unwrap();
        let second = Grid::from_vec(second).unwrap();
        proof {
            lemma_rows_of(board@, board_cells);
            lemma_rows_of(first@, first_cells);
            lemma_rows_of(second@, second_cells);
        }
        if !position_is_ok(&board, &first, &second) {
            return None;
        }
        let moves = gen_moves(&board);
        Some(
            RawAvalamState {
                board,
                first_ratios: first,
                second_ratios: second,
                moves,
                on_move_call: None,
            },
        )
    }

    /// An independent snapshot of the state.
    pub fn copy(&self) -> (twin: Self)
        requires
            self.wf(),
        ensures
            twin.wf(),
            twin.board_rows() == self.board_rows(),
            twin.ratio_rows(true) == self.ratio_rows(true),
            twin.ratio_rows(false) == self.ratio_rows(false),
            twin.cache() == self.cache(),
            twin.pending() == self.pending(),
    {
        RawAvalamState {
            board: self.board.copy(),
            first_ratios: self.first_ratios.copy(),
            second_ratios: self.second_ratios.copy(),
            moves: self.moves.copy(),
            on_move_call: self.on_move_call,
        }
    }

    /// The board.
    pub fn board(&self) -> (board: &Grid)
        ensures
            board@ == self.board_rows(),
    {
        &self.board
    }

    /// One player's piece counts: the first player's if `first`, else the
    /// second player's.
    pub fn ratios(&self, first: bool) -> (ratios: &Grid)
        ensures
            ratios@ == self.ratio_rows(first),
    {
        if first {
            &self.first_ratios
        } else {
            &self.second_ratios
        }
    }

    /// Puts the tower at `origin` on the tower at `dest` and returns the new
    /// state; this state stays as it is. The move must be legal: it is the
    /// caller who sees to that, and [`Self::try_play`] does so for a caller
    /// who cannot.
    pub fn play(&self, origin: Coords, dest: Coords) -> (next: Self)
        requires
            self.wf(),
            is_legal(self.board_rows(), (origin, dest)),
        ensures
            self.leads_to(origin, dest, next),
    {
        let mut next = self.copy();
        match next.on_move_call {
            Some((o, d)) => {
                next._update_move(o, d);
            },
            None => {},
        }
        next.on_move_call = Some((origin, dest));
        proof {
            lemma_stacking_keeps_pieces(self.board@, origin, dest);
            lemma_stacking_keeps_position(
                self.board@,
                self.first_ratios@,
                self.second_ratios@,
                origin,
                dest,
            );
            lemma_refresh_is_full_scan(self.board@, origin, dest);
        }

        stack(&mut next.board, origin, dest);
        merge(&mut next.first_ratios, origin, dest);
        merge(&mut next.second_ratios, origin, dest);
        next
    }

    /// Plays `(origin, dest)` if it is a legal move of this state, and refuses
    /// it otherwise.
    pub fn try_play(&self, origin: Coords, dest: Coords) -> (outcome: Result<Self, InvalidMove>)
        requires
            self.wf(),
        ensures
            outcome is Ok <==> is_legal(self.board_rows(), (origin, dest)),
            outcome is Ok ==> self.leads_to(origin, dest, outcome->Ok_0),
            outcome is Err ==> outcome->Err_0 == (InvalidMove { attempted: (origin, dest) }),
    {
        if is_legal_move(&self.board, origin, dest) {
            Ok(self.play(origin, dest))
        } else {
            Err(InvalidMove { attempted: (origin, dest) })
        }
    }

    /// The legal moves, each once, in no particular order. A cache that still
    /// waits for the move that led to this state is brought up to date first.
    pub fn get_legal_moves(&mut self) -> (moves: Vec<Move>)
        requires
            old(self).wf(),
        ensures
            final(self).wf(),
            final(self).board_rows() == old(self).board_rows(),
            final(self).ratio_rows(true) == old(self).ratio_rows(true),
            final(self).ratio_rows(false) == old(self).ratio_rows(false),
            final(self).pending() is None,
            final(self).cache() == old(self).current_moves(),
            moves@.no_duplicates(),
            moves@.to_set() == legal_moves(old(self).board_rows()),
    {
        match self.on_move_call {
            Some((origin, dest)) => {
                self.on_move_call = None;
                self._update_move(origin, dest);
            },
            None => {},
        }
        self.moves.to_vec()
    }

    /// Brings the cache up to date with the move `(origin, dest)` that led to
    /// this state.
    fn _update_move(&mut self, origin: Coords, dest: Coords)
        requires
            old(self).cache_ok(),
            rectangular(old(self).board_rows(), 9, 9),
            on_board(origin),
            on_board(dest),
        ensures
            final(self).cache_ok(),
            final(self).cache() == refreshed(
                old(self).cache(),
                old(self).board_rows(),
                origin,
                dest,
            ),
            final(self).board_rows() == old(self).board_rows(),
            final(self).ratio_rows(true) == old(self).ratio_rows(true),
            final(self).ratio_rows(false) == old(self).ratio_rows(false),
            final(self).pending() == old(self).pending(),
    {
        discard_stale(&mut self.moves, &self.board, origin, dest);
    }
}

} // verus!
