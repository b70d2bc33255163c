use game_engines::coords::{InvalidMove, Move};
use game_engines::line::get_winner_of;
use game_engines::ulti_ttt::RawUltiTTTState;

fn sorted(mut moves: Vec<Move>) -> Vec<Move> {
    moves.sort();
    moves
}

fn flat(c: (usize, usize)) -> usize {
    3 * c.0 + c.1
}

fn cell(i: usize) -> (usize, usize) {
    (i / 3, i % 3)
}

fn play_all(moves: &[(usize, usize)]) -> RawUltiTTTState {
    let mut state = RawUltiTTTState::new();
    for &(sup, sub) in moves {
        state = state.try_play((cell(sup), cell(sub))).ok().unwrap();
    }
    state
}

#[test]
fn new_state_is_empty_and_unconstrained() {
    let state = RawUltiTTTState::new();
    assert_eq!(state.turn(), 0);
    assert_eq!(state.curr_pid(), 1);
    assert_eq!(state.active_cell(), -1);
    assert_eq!(state.win_state(), [0; 9]);
    assert_eq!(state.winner(), 0);
    assert_eq!(state.score(), (0, 0));
    for r in 0..9 {
        for c in 0..9 {
            assert_eq!(state.board().row(r)[c], 0);
        }
    }
    let moves = state.get_legal_moves();
    assert_eq!(moves.len(), 81);
    let mut all: Vec<Move> = Vec::new();
    for i in 0..9 {
        for j in 0..9 {
            all.push((cell(i), cell(j)));
        }
    }
    assert_eq!(sorted(moves), sorted(all));
}

#[test]
fn nested_grid_scenario_first_move() {
    let state = RawUltiTTTState::new();
    let next = state.play(((0, 0), (1, 1)));
    assert_eq!(next.active_cell(), 4);
    assert_eq!(next.curr_pid(), 2);
    assert_eq!(next.turn(), 1);
    assert_eq!(next.board().row(0)[4], 1);
    // the state played from is untouched
    assert_eq!(state.turn(), 0);
    assert_eq!(state.board().row(0)[4], 0);
}

#[test]
fn moves_are_confined_to_the_active_sub_board() {
    let state = RawUltiTTTState::new().play(((0, 0), (1, 1)));
    let moves = state.get_legal_moves();
    assert_eq!(moves.len(), 9);
    assert!(moves.iter().all(|m| flat(m.0) == 4));
    let next = state.play(((1, 1), (0, 0)));
    assert_eq!(next.active_cell(), 0);
    assert_eq!(next.curr_pid(), 1);
    assert_eq!(next.turn(), 2);
    assert_eq!(next.board().row(4)[0], 2);
    let moves = next.get_legal_moves();
    assert_eq!(moves.len(), 8);
    assert!(moves.iter().all(|m| flat(m.0) == 0));
    assert!(!moves.contains(&((0, 0), (1, 1))));
}

#[test]
fn players_alternate() {
    let mut state = RawUltiTTTState::new();
    let mut expected = 1;
    for turn in 0..20 {
        assert_eq!(state.curr_pid(), expected);
        assert_eq!(state.turn(), turn);
        let moves = sorted(state.get_legal_moves());
        state = state.play(moves[0]);
        expected = expected % 2 + 1;
    }
}

#[test]
fn winning_a_sub_board_closes_it() {
    // player 1 takes cells 0, 1, 2 of sub-board 0; player 2 is sent back each time
    let state = play_all(&[(0, 0), (0, 3), (3, 0), (0, 4), (4, 0), (0, 5)]);
    // player 2 has filled 3, 4, 5 of sub-board 0: a row
    assert_eq!(state.win_state()[0], 2);
    assert_eq!(state.board().row(0), [1, 0, 0, 2, 2, 2, 0, 0, 0]);
    assert_eq!(state.active_cell(), 5);
    assert_eq!(state.winner(), 0);
    // send the play towards sub-board 0: it is decided, so the choice is free
    let next = state.play(((1, 2), (0, 0)));
    assert_eq!(next.active_cell(), -1);
    let moves = next.get_legal_moves();
    assert!(moves.iter().all(|m| flat(m.0) != 0));
    assert!(moves.iter().all(|m| next.win_state()[flat(m.0)] == 0));
    assert!(moves.iter().all(|m| next.board().row(flat(m.0))[flat(m.1)] == 0));
    // every empty cell outside sub-board 0 is open
    let mut empty = 0;
    for i in 1..9 {
        for j in 0..9 {
            if next.board().row(i)[j] == 0 {
                empty += 1;
            }
        }
    }
    assert_eq!(moves.len(), empty);
    assert!(next.try_play(((0, 0), (2, 2))).is_err());
}

#[test]
fn decided_sub_board_stays_decided_over_a_whole_game() {
    let mut state = RawUltiTTTState::new();
    let mut seed: u64 = 0x9e37_79b9_7f4a_7c15;
    let mut decided = [0i64; 9];
    let mut turns = 0;
    loop {
        let results = state.win_state();
        for k in 0..9 {
            if decided[k] != 0 {
                assert_eq!(results[k], decided[k]);
            }
            decided[k] = results[k];
            assert_eq!(results[k], get_winner_of(&state.board().row(k)));
        }
        let moves = sorted(state.get_legal_moves());
        for m in moves.iter() {
            assert_eq!(results[flat(m.0)], 0);
            assert_eq!(state.board().row(flat(m.0))[flat(m.1)], 0);
            if state.active_cell() != -1 {
                assert_eq!(flat(m.0) as i64, state.active_cell());
            }
        }
        if state.active_cell() != -1 {
            assert_eq!(results[state.active_cell() as usize], 0);
        }
        assert_eq!(state.turn(), turns);
        assert_eq!(state.curr_pid(), turns % 2 + 1);
        if moves.is_empty() {
            break;
        }
        seed ^= seed << 13;
        seed ^= seed >> 7;
        seed ^= seed << 17;
        state = state.play(moves[(seed % moves.len() as u64) as usize]);
        turns += 1;
    }
    assert!(turns <= 81);
    assert!(state.win_state().iter().all(|&r| r != 0));
}

#[test]
fn winner_is_the_evaluation_of_the_sub_board_outcomes() {
    let mut state = RawUltiTTTState::new();
    let mut seed: u64 = 12345;
    loop {
        assert_eq!(state.winner(), get_winner_of(&state.win_state()));
        let moves = sorted(state.get_legal_moves());
        if moves.is_empty() || state.winner() != 0 {
            break;
        }
        seed = seed.wrapping_mul(6364136223846793005).wrapping_add(1442695040888963407);
        state = state.play(moves[((seed >> 33) % moves.len() as u64) as usize]);
    }
}

#[test]
fn nested_try_play_refuses_illegal_moves() {
    let state = RawUltiTTTState::new();
    assert_eq!(
        state.try_play(((3, 0), (0, 0))).err(),
        Some(InvalidMove { attempted: ((3, 0), (0, 0)) })
    );
    assert!(state.try_play(((0, 3), (0, 0))).is_err());
    assert!(state.try_play(((0, 0), (3, 0))).is_err());
    assert!(state.try_play(((0, 0), (0, 3))).is_err());
    assert!(state.try_play(((usize::MAX, 0), (0, 0))).is_err());
    let next = state.try_play(((0, 0), (1, 1))).ok().unwrap();
    // outside the imposed sub-board
    assert!(next.try_play(((0, 0), (0, 0))).is_err());
    assert!(!next.is_legal_move(((0, 0), (0, 0))));
    // inside it
    assert!(next.is_legal_move(((1, 1), (0, 0))));
    let third = next.try_play(((1, 1), (0, 0))).ok().unwrap();
    // an occupied cell
    assert!(third.try_play(((0, 0), (1, 1))).is_err());
    assert!(third.try_play(((0, 0), (0, 0))).is_ok());
}

#[test]
fn copy_of_a_nested_state_is_independent() {
    let state = RawUltiTTTState::new().play(((0, 0), (1, 1)));
    let twin = state.copy();
    let next = twin.play(((1, 1), (2, 2)));
    assert_eq!(twin.turn(), 1);
    assert_eq!(twin.board().row(4)[8], 0);
    assert_eq!(state.board().row(4)[8], 0);
    assert_eq!(next.board().row(4)[8], 2);
    assert_eq!(twin.active_cell(), state.active_cell());
    assert_eq!(twin.curr_pid(), state.curr_pid());
    assert_eq!(twin.win_state(), state.win_state());
}

fn cells_of(state: &RawUltiTTTState) -> Vec<i64> {
    let mut cells = Vec::new();
    for k in 0..9 {
        cells.extend(state.board().row(k));
    }
    cells
}

#[test]
fn nested_from_parts_rebuilds_a_played_state() {
    let state = play_all(&[(0, 0), (0, 3), (3, 0), (0, 4), (4, 0), (0, 5), (5, 0)]);
    let rebuilt = RawUltiTTTState::from_parts(
        cells_of(&state),
        state.turn(),
        state.curr_pid(),
        state.win_state(),
        state.active_cell(),
    )
    .unwrap();
    assert_eq!(cells_of(&rebuilt), cells_of(&state));
    assert_eq!(rebuilt.turn(), 7);
    assert_eq!(rebuilt.curr_pid(), 2);
    assert_eq!(rebuilt.win_state(), [2, 0, 0, 0, 0, 0, 0, 0, 0]);
    assert_eq!(rebuilt.active_cell(), -1);
    assert_eq!(sorted(rebuilt.get_legal_moves()), sorted(state.get_legal_moves()));
}

#[test]
fn nested_from_parts_refuses_what_is_no_position() {
    let state = play_all(&[(0, 0), (0, 3), (3, 0), (0, 4), (4, 0), (0, 5), (5, 0)]);
    let cells = cells_of(&state);
    let results = state.win_state();
    let build = |c: &Vec<i64>, turn: u32, pid: u32, r: [i64; 9], active: i64| {
        RawUltiTTTState::from_parts(c.clone(), turn, pid, r, active).is_some()
    };
    assert!(build(&cells, 7, 2, results, -1));
    assert!(build(&vec![0; 81], 0, 1, [0; 9], -1));
    assert!(build(&vec![0; 81], 0, 1, [0; 9], 8));
    // wrong number of cells
    assert!(!build(&vec![0; 80], 0, 1, [0; 9], -1));
    // a cell that holds no player id
    let mut bad = cells.clone();
    bad[80] = 3;
    assert!(!build(&bad, 8, 1, results, -1));
    bad[80] = -1;
    assert!(!build(&bad, 8, 1, results, -1));
    // the turn does not count the filled cells
    assert!(!build(&cells, 6, 1, results, -1));
    assert!(!build(&cells, 8, 1, results, -1));
    // the wrong player is to move
    assert!(!build(&cells, 7, 1, results, -1));
    assert!(!build(&cells, 7, 0, results, -1));
    // an outcome that is not the evaluation of its sub-board
    let mut wrong = results;
    wrong[0] = 1;
    assert!(!build(&cells, 7, 2, wrong, -1));
    wrong[0] = 0;
    assert!(!build(&cells, 7, 2, wrong, -1));
    wrong = results;
    wrong[8] = -1;
    assert!(!build(&cells, 7, 2, wrong, -1));
    // a decided sub-board is imposed
    assert!(!build(&cells, 7, 2, results, 0));
    // no such sub-board
    assert!(!build(&cells, 7, 2, results, 9));
    assert!(!build(&cells, 7, 2, results, -2));
    assert!(build(&cells, 7, 2, results, 5));
}

#[test]
fn three_sub_boards_in_a_row_win_the_game() {
    let mut cells = vec![0i64; 81];
    for sup in 0..3 {
        for sub in 0..3 {
            cells[9 * sup + sub] = 1;
        }
    }
    for sup in 3..7 {
        cells[9 * sup] = 2;
        cells[9 * sup + 1] = 2;
    }
    let state =
        RawUltiTTTState::from_parts(cells, 17, 2, [1, 1, 1, 0, 0, 0, 0, 0, 0], -1).unwrap();
    assert_eq!(state.winner(), 1);
    let moves = state.get_legal_moves();
    assert_eq!(moves.len(), 6 * 9 - 8);
    assert!(moves.iter().all(|m| flat(m.0) >= 3));
}

#[test]
fn drawn_sub_board_is_closed_and_marked() {
    // sub-board 0 filled without a line: 1 2 1 / 1 2 2 / 2 1 1
    let mut cells = vec![0i64; 81];
    let full = [1, 2, 1, 1, 2, 2, 2, 1, 1];
    cells[..9].copy_from_slice(&full);
    let state =
        RawUltiTTTState::from_parts(cells.clone(), 9, 2, [-1, 0, 0, 0, 0, 0, 0, 0, 0], -1).unwrap();
    assert_eq!(state.winner(), 0);
    assert_eq!(state.get_legal_moves().len(), 72);
    assert!(RawUltiTTTState::from_parts(cells, 9, 2, [0; 9], -1).is_none());
}
