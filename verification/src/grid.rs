//! A table of `i32` cells kept in an `ndarray` array.

use vstd::prelude::*;

verus! {

/// A rectangular table of `i32` cells, held in an `ndarray::Array2<i32>`.
///
/// The array is opaque to the verifier: everything known about a table is
/// stated over [`grid_rows`].
#[verifier::external_body]
pub struct Grid {
    cells: ndarray::Array2<i32>,
}

/// The rows of a table from top to bottom, each row from left to right.
pub uninterp spec fn grid_rows(g: Grid) -> Seq<Seq<i32>>;

/// `rows` has `height` rows of `width` cells each.
pub open spec fn rectangular<T>(rows: Seq<Seq<T>>, height: int, width: int) -> bool {
    &&& rows.len() == height
    &&& forall|r: int| 0 <= r < height ==> (#[trigger] rows[r]).len() == width
}

/// The 9×9 table whose rows are cut from 81 cells in row-major order.
pub open spec fn rows_of<T>(cells: Seq<T>) -> Seq<Seq<T>> {
    Seq::new(9, |r: int| Seq::new(9, |c: int| cells[9 * r + c]))
}

/// A 9×9 table that holds `cells` in row-major order is [`rows_of`] them.
pub proof fn lemma_rows_of<T>(rows: Seq<Seq<T>>, cells: Seq<T>)
    requires
        rectangular(rows, 9, 9),
        forall|r: int, c: int|
            0 <= r < 9 && 0 <= c < 9 ==> (#[trigger] rows[r][c]) == cells[9 * r + c],
    ensures
        rows == rows_of(cells),
{
    assert forall|r: int| 0 <= r < 9 implies #[trigger] rows[r] =~= rows_of(cells)[r] by {
    }
}

/// The magnitude of a cell as a mathematical integer.
pub open spec fn magnitude(v: i32) -> int {
    if v >= 0 {
        v as int
    } else {
        -(v as int)
    }
}

/// The magnitude of a cell, capped at `i32::MAX` so that it fits the cell type.
pub open spec fn capped_magnitude(v: i32) -> i32 {
    if v == i32::MIN {
        i32::MAX
    } else if v >= 0 {
        v
    } else {
        (-v) as i32
    }
}

/// Computes [`capped_magnitude`].
pub fn cell_magnitude(v: i32) -> (m: i32)
    ensures
        m == capped_magnitude(v),
{
    if v == i32::MIN {
        i32::MAX
    } else if v >= 0 {
        v
    } else {
        -v
    }
}

impl Grid {
    /// The rows of the table.
    pub open spec fn view(&self) -> Seq<Seq<i32>> {
        grid_rows(*self)
    }

    /// Calls `ndarray::Array2::from_shape_vec` with the shape
    /// `(height, width)`.
    ///
    /// Trusted: the call succeeds when both lengths are positive and their
    /// product is the number of cells handed over; whenever it succeeds the
    /// table has that shape and holds the cells in row-major order.
    #[verifier::external_body]
    pub(crate) fn from_shape_vec(height: usize, width: usize, cells: Vec<i32>) -> (g: Option<Grid>)
        ensures
            height > 0 && width > 0 && height * width == cells@.len() ==> g is Some,
            g is Some ==> {
                &&& height * width == cells@.len()
                &&& rectangular(grid_rows(g->0), height as int, width as int)
                &&& forall|r: int, c: int|
                    0 <= r < height && 0 <= c < width ==> (#[trigger] grid_rows(g->0)[r][c])
                        == cells@[r * width + c]
            },
    {
        match ndarray::Array2::from_shape_vec((height, width), cells) {
            Ok(a) => Some(Grid { cells: a }),
            Err(_) => None,
        }
    }

    /// Reads one cell through `ndarray`'s `Index` impl for `[usize; 2]`.
    ///
    /// Trusted: inside the table's bounds the read does not panic and yields
    /// the cell in row `r`, column `c`.
    #[verifier::external_body]
    pub(crate) fn get(&self, r: usize, c: usize) -> (v: i32)
        requires
            r < grid_rows(*self).len(),
            c < grid_rows(*self)[r as int].len(),
        ensures
            v == grid_rows(*self)[r as int][c as int],
    {
        self.cells[[r, c]]
    }

    /// Writes one cell through `ndarray`'s `IndexMut` impl for `[usize; 2]`.
    ///
    /// Trusted: inside the table's bounds the write does not panic, replaces
    /// the cell in row `r`, column `c`, and leaves every other cell and the
    /// shape as they were.
    #[verifier::external_body]
    pub(crate) fn set(&mut self, r: usize, c: usize, v: i32)
        requires
            r < grid_rows(*old(self)).len(),
            c < grid_rows(*old(self))[r as int].len(),
        ensures
            grid_rows(*final(self)) == grid_rows(*old(self)).update(
                r as int,
                grid_rows(*old(self))[r as int].update(c as int, v),
            ),
    {
        self.cells[[r, c]] = v;
    }

    /// Copies the table with `ndarray`'s `Clone` impl for arrays.
    ///
    /// Trusted: the copy holds the same rows.
    #[verifier::external_body]
    pub(crate) fn copy(&self) -> (h: Grid)
        ensures
            grid_rows(h) == grid_rows(*self),
    {
        Grid { cells: self.cells.clone() }
    }

    /// Calls `ndarray`'s `mapv` with [`cell_magnitude`].
    ///
    /// Trusted: the result has the shape of this table, and each of its cells
    /// is what [`cell_magnitude`] returns for the cell of this table in the
    /// same place.
    #[verifier::external_body]
    pub(crate) fn magnitudes(&self) -> (h: Grid)
        ensures
            grid_rows(h).len() == grid_rows(*self).len(),
            forall|r: int|
                0 <= r < grid_rows(*self).len() ==> (#[trigger] grid_rows(h)[r]).len()
                    == grid_rows(*self)[r].len(),
            forall|r: int, c: int|
                0 <= r < grid_rows(*self).len() && 0 <= c < grid_rows(*self)[r].len() ==> (
                #[trigger] grid_rows(h)[r][c]) == capped_magnitude(grid_rows(*self)[r][c]),
    {
        Grid { cells: self.cells.mapv(cell_magnitude) }
    }

    /// Builds a 9×9 table from 81 cells in row-major order; any other number
    /// of cells is refused.
    pub fn from_vec(cells: Vec<i32>) -> (g: Option<Grid>)
        ensures
            g is Some <==> cells@.len() == 81,
            g is Some ==> rectangular(g->0@, 9, 9) && forall|r: int, c: int|
                0 <= r < 9 && 0 <= c < 9 ==> (#[trigger] g->0@[r][c]) == cells@[9 * r + c],
    {
        if cells.len() != 81 {
            return None;
        }
        Grid::from_shape_vec(9, 9, cells)
    }

    /// The 81 cells of a 9×9 table in row-major order.
    pub fn to_vec(&self) -> (cells: Vec<i32>)
        requires
            rectangular(self@, 9, 9),
        ensures
            cells@.len() == 81,
            forall|r: int, c: int|
                0 <= r < 9 && 0 <= c < 9 ==> cells@[9 * r + c] == (#[trigger] self@[r][c]),
    {
        let mut cells: Vec<i32> = Vec::new();
        let mut r: usize = 0;
        while r < 9
            invariant
                r <= 9,
                rectangular(self@, 9, 9),
                cells@.len() == 9 * r,
                forall|i: int, j: int|
                    0 <= i < r && 0 <= j < 9 ==> cells@[9 * i + j] == (#[trigger] self@[i][j]),
            decreases 9 - r,
        {
            let mut c: usize = 0;
            while c < 9
                invariant
                    r < 9,
                    c <= 9,
                    rectangular(self@, 9, 9),
                    cells@.len() == 9 * r + c,
                    forall|i: int, j: int|
                        0 <= i < 9 && 0 <= j < 9 && 9 * i + j < 9 * r + c ==> cells@[9 * i + j] == (
                        #[trigger] self@[i][j]),
                decreases 9 - c,
            {
                cells.push(self.get(r, c));
                c += 1;
            }
            r += 1;
        }
        cells
    }
}

} // verus!
