//! Coordinates and moves, as both games exchange them, and the error for a
//! move that is refused.

use vstd::prelude::*;

verus! {

/// A pair of coordinates: row, then column.
pub type Coords = (usize, usize);

/// A move, made of two pairs of coordinates.
pub type Move = (Coords, Coords);

/// The reason why a move was refused: it is not among the legal moves of the
/// state it was tried on.
#[derive(Debug, Clone, Copy, PartialEq, Eq)]
pub struct InvalidMove {
    /// The move that was refused.
    pub attempted: Move,
}

} // verus!
