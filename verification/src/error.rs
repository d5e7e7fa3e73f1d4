//! The errors that the matrix operations report.
use vstd::prelude::*;

verus! {

/// Why a matrix operation was rejected. A rejected operation leaves the
/// matrix as it was.
#[derive(Debug, Clone, Copy, PartialEq, Eq, Structural)]
pub enum MatrixError {
    /// The data handed to a constructor does not hold `rows * cols` elements.
    DimensionError,
    /// A row index is not below the number of rows, or a column index is not
    /// below the number of columns, or an index into a line is not below its
    /// length.
    IndexOutOfBounds,
    /// The data handed to a fill operation is not exactly as long as the line
    /// it should replace.
    LengthMismatch,
}

} // verus!
