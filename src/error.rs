//! The error type of the library.

use crate::draw::DrawError;
use crate::layout::FractionalArea;
use vstd::prelude::*;

verus! {

/// Why a plotting or drawing call failed.
#[derive(Clone, Debug)]
pub enum PltError {
    /// Input data is in an invalid state: lengths differ, or a value is out
    /// of range.
    InvalidData(String),
    /// A subplot index is out of range for the figure's grid.
    InvalidIndex { index: u32, nrows: u32, ncols: u32 },
    /// A row index is out of range for the layout.
    InvalidRow { row: usize, nrows: usize },
    /// A column index is out of range for the layout.
    InvalidColumn { col: usize, ncols: usize },
    /// A tick location is unusable.
    BadTickPlacement(String),
    /// Tick labels cannot be drawn, as their number differs from that of the ticks.
    BadTickLabels(String),
    /// The fractional area of a subplot is not valid.
    InvalidSubplotArea(FractionalArea),
    /// The drawing backend failed.
    DrawError(DrawError),
}

} // verus!
