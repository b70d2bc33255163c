use game_engines::cells::CellGrid;
use game_engines::grid::{cell_magnitude, Grid};
use game_engines::ulti_ttt::RawUltiTTTState;

#[test]
fn from_vec_accepts_exactly_81_cells() {
    assert!(Grid::from_vec(vec![0; 81]).is_some());
    assert!(Grid::from_vec(vec![0; 80]).is_none());
    assert!(Grid::from_vec(vec![0; 82]).is_none());
    assert!(Grid::from_vec(Vec::new()).is_none());
}

#[test]
fn from_vec_and_to_vec_are_row_major() {
    let cells: Vec<i32> = (0..81).map(|i| 100 - 3 * i).collect();
    let g = Grid::from_vec(cells.clone()).unwrap();
    assert_eq!(g.to_vec(), cells);
}

#[test]
fn cell_magnitude_values() {
    assert_eq!(cell_magnitude(0), 0);
    assert_eq!(cell_magnitude(5), 5);
    assert_eq!(cell_magnitude(-5), 5);
    assert_eq!(cell_magnitude(i32::MAX), i32::MAX);
    assert_eq!(cell_magnitude(i32::MIN + 1), i32::MAX);
    assert_eq!(cell_magnitude(i32::MIN), i32::MAX);
}

#[test]
fn rows_of_a_played_board() {
    let state = RawUltiTTTState::new();
    let board: &CellGrid = state.board();
    for r in 0..9 {
        assert_eq!(board.row(r), [0; 9]);
    }
    let next = state.play(((0, 2), (1, 1))).play(((1, 1), (0, 2)));
    assert_eq!(next.board().row(2), [0, 0, 0, 0, 1, 0, 0, 0, 0]);
    assert_eq!(next.board().row(4), [0, 0, 2, 0, 0, 0, 0, 0, 0]);
    assert_eq!(next.board().row(0), [0; 9]);
    // the earlier state kept its own board
    assert_eq!(state.board().row(2), [0; 9]);
}
