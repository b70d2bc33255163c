//! Rule engines for two two-player board games played on a 9×9 table: a game of
//! stacking towers and a game of nested three-in-a-row boards.
//!
//! Each engine offers the same operations: the starting state, a snapshot of a
//! state, the state after a move, and the legal moves of a state. The rules are
//! stated as specifications in [`avalam_rules`] and [`ulti_ttt_rules`]; the
//! states in [`avalam`] and [`ulti_ttt`] are verified against them.

pub mod avalam;
pub mod avalam_rules;
pub mod cells;
pub mod coords;
pub mod grid;
pub mod line;
pub mod move_set;
pub mod totals;
pub mod ulti_ttt;
pub mod ulti_ttt_rules;

pub use avalam::{gen_moves, RawAvalamState};
pub use coords::{Coords, InvalidMove, Move};
pub use line::get_winner_of;
pub use ulti_ttt::RawUltiTTTState;
