//! Matrix views over a flat block of memory.
//!
//! One linear buffer is addressed as a two-dimensional grid under one of two
//! layouts: row first ([`RowPrio`]) or column first ([`ColumnPrio`]). Three
//! matrix types share the same operations and differ only in where the
//! buffer lives:
//!
//! * [`Matrix`] owns a heap buffer and takes its dimensions at run time.
//! * [`Reftrix`] borrows a mutable slice and writes through to it.
//! * [`Stacktrix`] holds a fixed-size array by value.
//!
//! The operations are those of [`RowPrioMatrix`] and [`ColumnPrioMatrix`].
//! A line that is contiguous under the layout is handed out as a plain
//! slice; the other axis is handed out as an [`IntermittentSlice`], which
//! steps through the buffer by a fixed stride.
//!
//! Every contract is stated over [`Grid`], the mathematical model of a
//! matrix: its two dimensions and the flat sequence of its cells. What holds
//! of every matrix is proved there: that a matrix reads back as the buffer
//! it was made over, that a write reaches one cell, that a line that was
//! replaced reads back as given, and that the rows, like the columns, hold
//! every cell exactly once and share none.
mod buffer;
pub mod error;
pub mod grid;
pub mod layout;
pub mod line;
pub mod lines;
pub mod matrix;
mod ops;
pub mod partition;
pub mod pretty;
pub mod prio;
pub mod reftrix;
pub mod stacktrix;

pub use error::MatrixError;
pub use grid::{Grid, Layout};
pub use layout::{ColumnPrio, RowPrio};
pub use line::{
    IntermittentSlice, IntermittentSliceIntoItterator, IntermittentSliceMut,
    IntermittentSliceMutIntoItterator,
};
pub use lines::{IterIntermittentSlices, IterMutIntermittentSlices, IterSlices, IterSlicesMut};
pub use matrix::Matrix;
pub use prio::{ColumnPrioMatrix, RowPrioMatrix};
pub use reftrix::Reftrix;
pub use stacktrix::Stacktrix;
