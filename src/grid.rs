//! A two-dimensional grid of layout cells, held in an `ndarray::Array2`.

use crate::layout::FractionalArea;
use crate::subplot::Subplot;
use vstd::prelude::*;

verus! {

/// One cell of a grid layout: its subplot, its area, and whether a subplot
/// was placed there.
#[derive(Clone, Debug)]
pub struct GridCell {
    pub subplot: Subplot,
    pub area: FractionalArea,
    pub filled: bool,
}

/// A shape that `ndarray` accepts: each side, and the number of cells,
/// at most `isize::MAX`.
pub open spec fn shape_ok(nrows: int, ncols: int) -> bool {
    nrows <= isize::MAX && ncols <= isize::MAX && nrows * ncols <= isize::MAX
}

/// Cells in rows and columns.
#[verifier::external_body]
pub struct CellGrid {
    cells: ndarray::Array2<GridCell>,
}

/// The cells of a grid, row after row.
pub uninterp spec fn grid_cells(g: CellGrid) -> Seq<GridCell>;

/// The number of rows and columns of a grid.
pub uninterp spec fn grid_shape(g: CellGrid) -> (nat, nat);

impl CellGrid {
    /// Relies on `ndarray::Array2::from_shape_vec`: a vector of exactly
    /// `nrows * ncols` elements becomes the array of that shape, in row
    /// order; it fails only where the product of the sides that are not
    /// zero exceeds `isize::MAX`, which `shape_ok` rules out.
    #[verifier::external_body]
    pub fn from_cells(nrows: usize, ncols: usize, cells: Vec<GridCell>) -> (r: CellGrid)
        requires
            cells@.len() == nrows * ncols,
            shape_ok(nrows as int, ncols as int),
        ensures
            grid_cells(r) == cells@,
            grid_shape(r) == (nrows as nat, ncols as nat),
    {
        CellGrid {
            cells: ndarray::Array2::from_shape_vec((nrows, ncols), cells).expect(
                "the number of cells matches the shape",
            ),
        }
    }

    /// Relies on `ndarray::Array2::nrows`.
    #[verifier::external_body]
    pub fn nrows(&self) -> (r: usize)
        ensures
            r == grid_shape(*self).0,
    {
        self.cells.nrows()
    }

    /// Relies on `ndarray::Array2::ncols`.
    #[verifier::external_body]
    pub fn ncols(&self) -> (r: usize)
        ensures
            r == grid_shape(*self).1,
    {
        self.cells.ncols()
    }

    /// Relies on indexing `ndarray::Array2` by `[row, col]`, which replaces
    /// that one element.
    #[verifier::external_body]
    pub fn set(&mut self, row: usize, col: usize, cell: GridCell)
        requires
            row < grid_shape(*old(self)).0,
            col < grid_shape(*old(self)).1,
        ensures
            grid_shape(*final(self)) == grid_shape(*old(self)),
            grid_cells(*final(self)) == grid_cells(*old(self)).update(
                row * grid_shape(*old(self)).1 + col,
                cell,
            ),
    {
        self.cells[[row, col]] = cell;
    }

    /// Relies on `ndarray::Array2::into_raw_vec`: an array built in row
    /// order hands its elements back in that order.
    #[verifier::external_body]
    pub fn into_cells(self) -> (r: Vec<GridCell>)
        ensures
            r@ == grid_cells(self),
    {
        self.cells.into_raw_vec()
    }
}

} // verus!
