//! The nested three-in-a-row game: its state, the placement of a mark, and
//! the moves open to the player whose turn it is.

use crate::cells::CellGrid;
use crate::coords::{InvalidMove, Move};
use crate::grid::{lemma_rows_of, rectangular, rows_of};
use crate::line::{get_winner_of, line_outcome};
use crate::move_set::MoveSet;
use crate::totals::{
    lemma_row_total_take, lemma_table_total_take, row_total, table_total, weighted,
};
use crate::ulti_ttt_rules::{
    after, by_mark, filled_count, flat, free_choice, initial_position, legal_moves,
    lemma_initial_position_ok, lemma_move_keeps_position, move_legal, position_ok, Position,
    UNCONSTRAINED,
};
use vstd::prelude::*;

verus! {

/// The position made of 81 cells in row-major order and the four other parts
/// of a state.
pub open spec fn position_of(
    cells: Seq<i64>,
    turn: u32,
    curr_pid: u32,
    results: Seq<i64>,
    active: i64,
) -> Position {
    Position {
        board: rows_of(cells),
        results,
        active,
        turn: turn as int,
        player: curr_pid as int,
    }
}

/// Lays 81 cells out as a 9×9 board and counts those that are filled; cells
/// other than 0, 1 and 2 are refused.
fn board_of(cells: &Vec<i64>) -> (out: Option<(CellGrid, u32)>)
    requires
        cells@.len() == 81,
    ensures
        out is Some <==> forall|i: int| 0 <= i < 81 ==> 0 <= #[trigger] cells@[i] <= 2,
        match out {
            Some((grid, filled)) => grid@ == rows_of(cells@) && filled == filled_count(
                rows_of(cells@),
            ),
            None => true,
        },
{
    let ghost marks = weighted(rows_of(cells@), by_mark());
    let mut grid = CellGrid::zeros(9, 9);
    let mut filled: u32 = 0;
    let mut r: usize = 0;
    while r < 9
        invariant
            r <= 9,
            cells@.len() == 81,
            marks == weighted(rows_of(cells@), by_mark()),
            rectangular(grid@, 9, 9),
            forall|i: int, j: int|
                0 <= i < r && 0 <= j < 9 ==> (#[trigger] grid@[i][j]) == cells@[9 * i + j],
            forall|i: int| 0 <= i < 9 * r ==> 0 <= #[trigger] cells@[i] <= 2,
            filled <= 9 * r,
            filled == table_total(marks.take(r as int)),
        decreases 9 - r,
    {
        let mut c: usize = 0;
        while c < 9
            invariant
                r < 9,
                c <= 9,
                cells@.len() == 81,
                marks == weighted(rows_of(cells@), by_mark()),
                rectangular(grid@, 9, 9),
                forall|i: int, j: int|
                    0 <= i < 9 && 0 <= j < 9 && 9 * i + j < 9 * r + c ==> (#[trigger] grid@[i][j])
                        == cells@[9 * i + j],
                forall|i: int| 0 <= i < 9 * r + c ==> 0 <= #[trigger] cells@[i] <= 2,
                filled <= 9 * r + c,
                filled == table_total(marks.take(r as int)) + row_total(
                    marks[r as int].take(c as int),
                ),
            decreases 9 - c,
        {
            let v = cells[9 * r + c];
            if v < 0 || v > 2 {
                return None;
            }
            grid.set(r, c, v);
            proof {
                lemma_row_total_take(marks[r as int], c as int);
            }
            if v != 0 {
                filled += 1;
            }
            c += 1;
        }
        proof {
            assert(marks[r as int].take(9) =~= marks[r as int]);
            lemma_table_total_take(marks, r as int);
        }
        r += 1;
    }
    proof {
        assert(marks.take(9) =~= marks);
        lemma_rows_of(grid@, cells@);
    }
    Some((grid, filled))
}

/// A state of the nested three-in-a-row game.
pub struct RawUltiTTTState {
    board: CellGrid,
    turn: u32,
    curr_pid: u32,
    win_state: [i64; 9],
    active_cell: i64,
}

impl RawUltiTTTState {
    /// The state as the rules see it.
    pub closed spec fn view(&self) -> Position {
        Position {
            board: self.board@,
            results: self.win_state@,
            active: self.active_cell,
            turn: self.turn as int,
            player: self.curr_pid as int,
        }
    }

    /// The state is well formed.
    pub open spec fn wf(&self) -> bool {
        position_ok(self@)
    }

    /// The state before the first move: an empty board, the first player to
    /// move, no sub-board imposed.
    pub fn new() -> (state: Self)
        ensures
            state.wf(),
            state@ == initial_position(),
    {
        let state = RawUltiTTTState {
            board: CellGrid::zeros(9, 9),
            turn: 0,
            curr_pid: 1,
            win_state: [0, 0, 0, 0, 0, 0, 0, 0, 0],
            active_cell: UNCONSTRAINED,
        };
        proof {
            lemma_initial_position_ok();
            assert(state@.board =~= initial_position().board) by {
                assert forall|k: int| 0 <= k < 9 implies #[trigger] state@.board[k]
                    =~= initial_position().board[k] by {
                }
            }
            assert(state@.results =~= initial_position().results);
        }
        state
    }

    /// The state made of 81 cells in row-major order, the number of moves
    /// played, the player to move, the outcome of each sub-board and the
    /// imposed sub-board. Parts that do not make a well-formed position are
    /// refused.
    pub fn from_parts(
        board: Vec<i64>,
        turn: u32,
        curr_pid: u32,
        win_state: [i64; 9],
        active_cell: i64,
    ) -> (state: Option<Self>)
        ensures
            state is Some <==> board@.len() == 81 && position_ok(
                position_of(board@, turn, curr_pid, win_state@, active_cell),
            ),
            state is Some ==> state->0@ == position_of(
                board@,
                turn,
                curr_pid,
                win_state@,
                active_cell,
            ),
    {
        if board.len() != 81 {
            return None;
        }
        let ghost p = position_of(board@, turn, curr_pid, win_state@, active_cell);
        let (grid, filled) = match board_of(&board) {
            Some(laid) => laid,
            None => {
                proof {
                    let i = choose|i: int| 0 <= i < 81 && !(0 <= #[trigger] board@[i] <= 2);
                    assert(p.board[i / 9][i % 9] == board@[i]);
                }
                return None;
            },
        };
        if filled != turn || curr_pid != turn % 2 + 1 {
            return None;
        }
        if !(active_cell == UNCONSTRAINED || (0 <= active_cell && active_cell < 9
            && win_state[active_cell as usize] == 0)) {
            return None;
        }
        let mut k: usize = 0;
        while k < 9
            invariant
                k <= 9,
                p == position_of(board@, turn, curr_pid, win_state@, active_cell),
                grid@ == p.board,
                rectangular(grid@, 9, 9),
                forall|i: int| 0 <= i < k ==> #[trigger] p.results[i] == line_outcome(p.board[i]),
            decreases 9 - k,
        {
            let section = grid.row(k);
            if win_state[k] != get_winner_of(&section) {
                return None;
            }
            k += 1;
        }
        Some(RawUltiTTTState { board: grid, turn, curr_pid, win_state, active_cell })
    }

    /// An independent snapshot of the state.
    pub fn copy(&self) -> (twin: Self)
        ensures
            twin@ == self@,
    {
        RawUltiTTTState {
            board: self.board.copy(),
            turn: self.turn,
            curr_pid: self.curr_pid,
            win_state: self.win_state,
            active_cell: self.active_cell,
        }
    }

    /// Whether `c_move` is a legal move of this state.
    pub fn is_legal_move(&self, c_move: Move) -> (legal: bool)
        requires
            self.wf(),
        ensures
            legal == move_legal(self@, c_move),
    {
        let sup_cell = c_move.0;
        let sub_cell = c_move.1;
        if sup_cell.0 >= 3 || sup_cell.1 >= 3 || sub_cell.0 >= 3 || sub_cell.1 >= 3 {
            return false;
        }
        let sup_i = 3 * sup_cell.0 + sup_cell.1;
        let sub_i = 3 * sub_cell.0 + sub_cell.1;
        self.board.get(sup_i, sub_i) == 0 && self.is_open(sup_i)
    }

    /// Whether sub-board `sup` may be played in: it is the imposed one or,
    /// where none is imposed, an undecided one.
    fn is_open(&self, sup: usize) -> (open: bool)
        requires
            self.wf(),
            sup < 9,
        ensures
            open == if free_choice(self@) {
                self@.results[sup as int] == 0
            } else {
                sup == self@.active
            },
    {
        if self.active_cell == UNCONSTRAINED || self.win_state[self.active_cell as usize] != 0 {
            self.win_state[sup] == 0
        } else {
            sup as i64 == self.active_cell
        }
    }

    /// Fills the cell that `c_move` names with the mark of the player to move
    /// and returns the new state; this state stays as it is. The move must be
    /// legal: it is the caller who sees to that, and [`Self::try_play`] does
    /// so for a caller who cannot.
    pub fn play(&self, c_move: Move) -> (next: Self)
        requires
            self.wf(),
            move_legal(self@, c_move),
        ensures
            next.wf(),
            next@ == after(self@, c_move),
    {
        let sup_cell = c_move.0;
        let sub_cell = c_move.1;

        let sup_i = 3 * sup_cell.0 + sup_cell.1;
        let sub_i = 3 * sub_cell.0 + sub_cell.1;

        let mut next = self.copy();
        proof {
            lemma_move_keeps_position(self@, c_move);
        }
        next.board.set(sup_i, sub_i, self.curr_pid as i64);
        let section = next.board.row(sup_i);
        next.win_state[sup_i] = get_winner_of(&section);

        next.turn = next.turn + 1;
        next.active_cell = if next.win_state[sub_i] != 0 {
            UNCONSTRAINED
        } else {
            sub_i as i64
        };
        next.curr_pid = (self.curr_pid % 2) + 1;
        next
    }

    /// Plays `c_move` if it is a legal move of this state, and refuses it
    /// otherwise.
    pub fn try_play(&self, c_move: Move) -> (outcome: Result<Self, InvalidMove>)
        requires
            self.wf(),
        ensures
            outcome is Ok <==> move_legal(self@, c_move),
            outcome is Ok ==> outcome->Ok_0.wf() && outcome->Ok_0@ == after(self@, c_move),
            outcome is Err ==> outcome->Err_0 == (InvalidMove { attempted: c_move }),
    {
        if self.is_legal_move(c_move) {
            Ok(self.play(c_move))
        } else {
            Err(InvalidMove { attempted: c_move })
        }
    }

    /// The legal moves, each once, in no particular order: the empty cells of
    /// the imposed sub-board or, where none is imposed, of every undecided
    /// sub-board.
    pub fn get_legal_moves(&self) -> (moves: Vec<Move>)
        requires
            self.wf(),
        ensures
            moves@.no_duplicates(),
            moves@.to_set() == legal_moves(self@),
    {
        let mut found = MoveSet::new();
        let mut i: usize = 0;
        while i < 9
            invariant
                i <= 9,
                self.wf(),
                found.wf(),
                forall|m: Move| #[trigger]
                    found@.contains(m) <==> move_legal(self@, m) && flat(m.0) < i,
            decreases 9 - i,
        {
            let open = self.is_open(i);
            let mut j: usize = 0;
            while j < 9
                invariant
                    i < 9,
                    j <= 9,
                    self.wf(),
                    found.wf(),
                    open == if free_choice(self@) {
                        self@.results[i as int] == 0
                    } else {
                        i == self@.active
                    },
                    forall|m: Move| #[trigger]
                        found@.contains(m) <==> move_legal(self@, m) && (flat(m.0) < i || (flat(
                            m.0,
                        ) == i && flat(m.1) < j)),
                decreases 9 - j,
            {
                let v = self.board.get(i, j);
                let here: Move = ((i / 3, i % 3), (j / 3, j % 3));
                if v == 0 && open {
                    found.insert(here);
                }
                j += 1;
            }
            i += 1;
        }
        found.to_vec()
    }

    /// The score of both players. This game keeps no score: both are zero.
    pub fn score(&self) -> (score: (usize, usize))
        ensures
            score == (0usize, 0usize),
    {
        (0, 0)
    }

    /// The outcome of the game: 0 while it is undecided, -1 for a draw, else
    /// the id of the winner. It is the evaluation of the nine sub-board
    /// outcomes as if they were the cells of one more board.
    pub fn winner(&self) -> (w: i64)
        ensures
            w == line_outcome(self@.results),
    {
        get_winner_of(&self.win_state)
    }

    /// The number of moves played.
    pub fn turn(&self) -> (turn: u32)
        ensures
            turn == self@.turn,
    {
        self.turn
    }

    /// The id of the player to move.
    pub fn curr_pid(&self) -> (pid: u32)
        ensures
            pid == self@.player,
    {
        self.curr_pid
    }

    /// The board.
    pub fn board(&self) -> (board: &CellGrid)
        ensures
            board@ == self@.board,
    {
        &self.board
    }

    /// The outcome of each sub-board.
    pub fn win_state(&self) -> (results: [i64; 9])
        ensures
            results@ == self@.results,
    {
        self.win_state
    }

    /// The sub-board imposed on the player to move, or -1 if there is none.
    pub fn active_cell(&self) -> (active: i64)
        ensures
            active == self@.active,
    {
        self.active_cell
    }
}

} // verus!
