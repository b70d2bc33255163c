//! A table of `i64` cells kept in an `ndarray` array.

use crate::grid::rectangular;
use vstd::prelude::*;

verus! {

/// A rectangular table of `i64` cells, held in an `ndarray::Array2<i64>`.
///
/// The array is opaque to the verifier: everything known about a table is
/// stated over [`cell_rows`].
#[verifier::external_body]
pub struct CellGrid {
    cells: ndarray::Array2<i64>,
}

/// The rows of a table from top to bottom, each row from left to right.
pub uninterp spec fn cell_rows(g: CellGrid) -> Seq<Seq<i64>>;

impl CellGrid {
    /// The rows of the table.
    pub open spec fn view(&self) -> Seq<Seq<i64>> {
        cell_rows(*self)
    }

    /// Calls `ndarray::Array2::zeros` with the shape `(height, width)`.
    ///
    /// Trusted: for positive lengths whose product fits `isize` the call does
    /// not panic and yields a table of that shape in which every cell is
    /// zero.
    #[verifier::external_body]
    pub(crate) fn zeros(height: usize, width: usize) -> (g: CellGrid)
        requires
            0 < height,
            0 < width,
            height * width <= isize::MAX,
        ensures
            rectangular(cell_rows(g), height as int, width as int),
            forall|r: int, c: int|
                0 <= r < height && 0 <= c < width ==> (#[trigger] cell_rows(g)[r][c]) == 0,
    {
        CellGrid { cells: ndarray::Array2::zeros((height, width)) }
    }

    /// Reads one cell through `ndarray`'s `Index` impl for `[usize; 2]`.
    ///
    /// Trusted: inside the table's bounds the read does not panic and yields
    /// the cell in row `r`, column `c`.
    #[verifier::external_body]
    pub(crate) fn get(&self, r: usize, c: usize) -> (v: i64)
        requires
            r < cell_rows(*self).len(),
            c < cell_rows(*self)[r as int].len(),
        ensures
            v == cell_rows(*self)[r as int][c as int],
    {
        self.cells[[r, c]]
    }

    /// Writes one cell through `ndarray`'s `IndexMut` impl for `[usize; 2]`.
    ///
    /// Trusted: inside the table's bounds the write does not panic, replaces
    /// the cell in row `r`, column `c`, and leaves every other cell and the
    /// shape as they were.
    #[verifier::external_body]
    pub(crate) fn set(&mut self, r: usize, c: usize, v: i64)
        requires
            r < cell_rows(*old(self)).len(),
            c < cell_rows(*old(self))[r as int].len(),
        ensures
            cell_rows(*final(self)) == cell_rows(*old(self)).update(
                r as int,
                cell_rows(*old(self))[r as int].update(c as int, v),
            ),
    {
        self.cells[[r, c]] = v;
    }

    /// Copies the table with `ndarray`'s `Clone` impl for arrays.
    ///
    /// Trusted: the copy holds the same rows.
    #[verifier::external_body]
    pub(crate) fn copy(&self) -> (h: CellGrid)
        ensures
            cell_rows(h) == cell_rows(*self),
    {
        CellGrid { cells: self.cells.clone() }
    }

    /// Takes row `r` with `ndarray`'s `row` and gathers its cells with
    /// `itertools`' `collect_vec`.
    ///
    /// Trusted: for a row of the table the call does not panic and yields the
    /// cells of that row from left to right.
    #[verifier::external_body]
    pub(crate) fn row_cells(&self, r: usize) -> (row: Vec<i64>)
        requires
            r < cell_rows(*self).len(),
        ensures
            row@ == cell_rows(*self)[r as int],
    {
        itertools::Itertools::collect_vec(self.cells.row(r).iter().copied())
    }

    /// The nine cells of row `r` of a table that is nine cells wide.
    pub fn row(&self, r: usize) -> (row: [i64; 9])
        requires
            r < self@.len(),
            self@[r as int].len() == 9,
        ensures
            row@ == self@[r as int],
    {
        let cells = self.row_cells(r);
        let row = [
            cells[0],
            cells[1],
            cells[2],
            cells[3],
            cells[4],
            cells[5],
            cells[6],
            cells[7],
            cells[8],
        ];
        row
    }
}

} // verus!
