//! The two sets of matrix operations, one for each layout.
//!
//! Both traits offer the same operations. They differ in which axis is
//! handed out as a plain slice and which as a strided view, and in the
//! offset at which a cell is found.
use vstd::prelude::*;
use core::fmt::Debug;
use crate::error::MatrixError;
use crate::grid::{Grid, Layout};
use crate::layout::{is_place, with_stretch};
use crate::line::{IntermittentSlice, IntermittentSliceMut};
use crate::lines::{
    IterIntermittentSlices, IterMutIntermittentSlices, IterSlices, IterSlicesMut,
};
use crate::pretty::grid_text;

verus! {

/// The operations of a matrix whose buffer is read column first: the cell at
/// `(row, col)` sits at offset `col * rows + row`, so every column is
/// contiguous and every row is strided.
///
/// All indices count from zero. An operation that is handed an index outside
/// the matrix, or data of the wrong length, reports the error and leaves the
/// matrix as it was.
pub trait ColumnPrioMatrix<T: Copy>: View<V = Grid<T>> {
    /// Writes `value` to the cell at `(row, col)`. No other cell changes.
    fn insert(&mut self, row: usize, col: usize, value: T) -> (r: Result<(), MatrixError>)
        requires
            old(self)@.wf(),
        ensures
            final(self)@.wf(),
            old(self)@.in_bounds(row as int, col as int) ==> {
                &&& r.is_ok()
                &&& final(self)@ == old(self)@.put(
                    Layout::ColumnFirst,
                    row as int,
                    col as int,
                    value,
                )
            },
            !old(self)@.in_bounds(row as int, col as int) ==> {
                &&& r matches Err(MatrixError::IndexOutOfBounds)
                &&& final(self)@ == old(self)@
            },
    ;

    /// The cell at `(row, col)`.
    fn get(&self, row: usize, col: usize) -> (r: Result<&T, MatrixError>)
        requires
            self@.wf(),
        ensures
            self@.in_bounds(row as int, col as int) ==> {
                &&& r.is_ok()
                &&& *r.unwrap() == self@.at(Layout::ColumnFirst, row as int, col as int)
            },
            !self@.in_bounds(row as int, col as int) ==> {
                r matches Err(MatrixError::IndexOutOfBounds)
            },
    ;

    /// The cell at `(row, col)` for writing. What is written through the
    /// reference arrives at that cell and nowhere else.
    fn get_mut(&mut self, row: usize, col: usize) -> (r: Result<&mut T, MatrixError>)
        requires
            old(self)@.wf(),
        ensures
            final(self)@.wf(),
            old(self)@.in_bounds(row as int, col as int) ==> {
                &&& r.is_ok()
                &&& *r.unwrap() == old(self)@.at(Layout::ColumnFirst, row as int, col as int)
                &&& final(self)@ == old(self)@.put(
                    Layout::ColumnFirst,
                    row as int,
                    col as int,
                    *final(r.unwrap()),
                )
            },
            !old(self)@.in_bounds(row as int, col as int) ==> {
                &&& r matches Err(MatrixError::IndexOutOfBounds)
                &&& final(self)@ == old(self)@
            },
    ;

    /// Overwrites the whole column `col` with `data`, which must hold exactly
    /// one element for each row. The length is looked at first: data of
    /// the wrong length is a `LengthMismatch` whatever the index.
    fn fill_col(&mut self, col: usize, data: &[T]) -> (r: Result<(), MatrixError>)
        requires
            old(self)@.wf(),
        ensures
            final(self)@.wf(),
            data@.len() != old(self)@.rows ==> {
                &&& r matches Err(MatrixError::LengthMismatch)
                &&& final(self)@ == old(self)@
            },
            data@.len() == old(self)@.rows && col >= old(self)@.cols ==> {
                &&& r matches Err(MatrixError::IndexOutOfBounds)
                &&& final(self)@ == old(self)@
            },
            data@.len() == old(self)@.rows && col < old(self)@.cols ==> {
                &&& r.is_ok()
                &&& final(self)@ == old(self)@.put_col(Layout::ColumnFirst, col as int, data@)
            },
    ;

    /// Overwrites the whole row `row` with `data`, which must hold exactly
    /// one element for each column. The length is looked at first: data of
    /// the wrong length is a `LengthMismatch` whatever the index.
    fn fill_row(&mut self, row: usize, data: &[T]) -> (r: Result<(), MatrixError>)
        requires
            old(self)@.wf(),
        ensures
            final(self)@.wf(),
            data@.len() != old(self)@.cols ==> {
                &&& r matches Err(MatrixError::LengthMismatch)
                &&& final(self)@ == old(self)@
            },
            data@.len() == old(self)@.cols && row >= old(self)@.rows ==> {
                &&& r matches Err(MatrixError::IndexOutOfBounds)
                &&& final(self)@ == old(self)@
            },
            data@.len() == old(self)@.cols && row < old(self)@.rows ==> {
                &&& r.is_ok()
                &&& final(self)@ == old(self)@.put_row(Layout::ColumnFirst, row as int, data@)
            },
    ;

    /// The column `col` as a slice of the buffer.
    fn get_column(&self, col: usize) -> (r: Result<&[T], MatrixError>)
        requires
            self@.wf(),
        ensures
            col < self@.cols ==> {
                &&& r.is_ok()
                &&& r.unwrap()@ == self@.col(Layout::ColumnFirst, col as int)
            },
            col >= self@.cols ==> r matches Err(MatrixError::IndexOutOfBounds),
    ;

    /// The column `col` as a slice of the buffer for writing. The matrix ends
    /// up with that column as the holder of the slice leaves it and with
    /// every other cell as it was.
    fn get_mut_column(&mut self, col: usize) -> (r: Result<&mut [T], MatrixError>)
        requires
            old(self)@.wf(),
        ensures
            final(self)@.rows == old(self)@.rows,
            final(self)@.cols == old(self)@.cols,
            col < old(self)@.cols ==> {
                &&& r.is_ok()
                &&& r.unwrap()@ == old(self)@.col(Layout::ColumnFirst, col as int)
                &&& final(self)@.cells == with_stretch(
                    old(self)@.cells,
                    col as int,
                    old(self)@.rows,
                    final(r.unwrap())@,
                )
                &&& final(r.unwrap())@.len() == r.unwrap()@.len() ==> final(self)@
                    == old(self)@.put_col(Layout::ColumnFirst, col as int, final(r.unwrap())@)
            },
            col >= old(self)@.cols ==> {
                &&& r matches Err(MatrixError::IndexOutOfBounds)
                &&& final(self)@ == old(self)@
            },
    ;

    /// The row `row` as a strided view.
    fn get_row(&self, row: usize) -> (r: Result<IntermittentSlice<'_, T>, MatrixError>)
        requires
            self@.wf(),
        ensures
            row < self@.rows ==> {
                &&& r.is_ok()
                &&& r.unwrap()@ == self@.row(Layout::ColumnFirst, row as int)
            },
            row >= self@.rows ==> r matches Err(MatrixError::IndexOutOfBounds),
    ;

    /// The row `row` as a strided view for writing. The view borrows the
    /// buffer of the matrix: element `k` of the view is the cell at offset
    /// `row + k * rows`, and the matrix ends up with the buffer as the holder
    /// of the view leaves it.
    fn get_mut_row(&mut self, row: usize) -> (r: Result<
        IntermittentSliceMut<'_, T>,
        MatrixError,
    >)
        requires
            old(self)@.wf(),
        ensures
            final(self)@.rows == old(self)@.rows,
            final(self)@.cols == old(self)@.cols,
            row < old(self)@.rows ==> {
                &&& r.is_ok()
                &&& r.unwrap().wf()
                &&& r.unwrap()@ == old(self)@.row(Layout::ColumnFirst, row as int)
                &&& r.unwrap().buffer@ == old(self)@.cells
                &&& r.unwrap().start == row
                &&& r.unwrap().slices == old(self)@.rows
                &&& r.unwrap().len == old(self)@.cols
                &&& final(self)@.cells == final(r.unwrap().buffer)@
            },
            row >= old(self)@.rows ==> {
                &&& r matches Err(MatrixError::IndexOutOfBounds)
                &&& final(self)@ == old(self)@
            },
    ;

    /// The iterator over all rows, from row zero upwards.
    fn rows(&self) -> (it: IterIntermittentSlices<'_, T>)
        requires
            self@.wf(),
        ensures
            it.remaining() == self@.all_rows(Layout::ColumnFirst),
    ;

    /// The iterator over all rows for writing, from row zero upwards. The
    /// matrix ends up with the buffer as the iterator and the rows it handed
    /// out leave it.
    fn rows_mut(&mut self) -> (it: IterMutIntermittentSlices<'_, T>)
        requires
            old(self)@.wf(),
        ensures
            final(self)@.rows == old(self)@.rows,
            final(self)@.cols == old(self)@.cols,
            it.wf(),
            it.remaining() == old(self)@.all_rows(Layout::ColumnFirst),
            it.matrix_buffer@ == old(self)@.cells,
            it.slice_index == 0,
            it.slices == old(self)@.rows,
            it.len == old(self)@.cols,
            final(self)@.cells == final(it.matrix_buffer)@,
    ;

    /// The iterator over all columns, from column zero upwards.
    fn cols(&self) -> (it: IterSlices<'_, T>)
        requires
            self@.wf(),
        ensures
            it.remaining() == self@.all_cols(Layout::ColumnFirst),
    ;

    /// The iterator over all columns for writing, from column zero upwards.
    /// The matrix ends up with the buffer as the iterator and the columns it
    /// handed out leave it.
    fn cols_mut(&mut self) -> (it: IterSlicesMut<'_, T>)
        requires
            old(self)@.wf(),
        ensures
            final(self)@.rows == old(self)@.rows,
            final(self)@.cols == old(self)@.cols,
            it.wf(),
            it.remaining() == old(self)@.all_cols(Layout::ColumnFirst),
            it.matrix_buffer@ == old(self)@.cells,
            it.len == old(self)@.rows,
            it.lines == old(self)@.cols,
            final(self)@.cells == final(it.matrix_buffer)@,
    ;

    /// The matrix as text: one line for each row, from row zero downwards,
    /// with the cells of a row from column zero upwards and a `-` between
    /// neighbours. Each cell is written by its debug text, numbers in
    /// hexadecimal with two digits at least.
    fn pretty_string(&self) -> (text: String) where T: Debug
        requires
            self@.wf(),
        ensures
            exists|texts: Seq<Seq<char>>|
                texts.len() == self@.rows * self@.cols && text@ == #[trigger] grid_text(
                    texts,
                    self@.rows,
                    self@.cols,
                ),
    ;

    /// Runs `f` once on every cell, in memory order. Each cell ends up as
    /// that run of `f` leaves it; where `f` changes nothing, the matrix is
    /// left as it was.
    fn apply_all<F: Fn(&mut T)>(&mut self, f: F)
        requires
            old(self)@.wf(),
            forall|k: int, cell: &mut T|
                is_place(old(self)@.cells, k) && *cell == old(self)@.cells[k] ==> call_requires(
                    f,
                    (cell,),
                ),
        ensures
            final(self)@.wf(),
            final(self)@.rows == old(self)@.rows,
            final(self)@.cols == old(self)@.cols,
            forall|k: int|
                #![trigger is_place(old(self)@.cells, k)]
                #![trigger final(self)@.cells[k]]
                is_place(old(self)@.cells, k) ==> exists|cell: &mut T|
                    #![trigger call_ensures(f, (cell,), ())]
                    *cell == old(self)@.cells[k] && *final(cell) == final(self)@.cells[k]
                        && call_ensures(f, (cell,), ()),
            (forall|cell: &mut T| #[trigger] call_ensures(f, (cell,), ()) ==> *final(cell) == *cell)
                ==> final(self)@ == old(self)@,
    ;
}

/// The operations of a matrix whose buffer is read row first: the cell at
/// `(row, col)` sits at offset `row * cols + col`, so every row is contiguous
/// and every column is strided.
///
/// All indices count from zero. An operation that is handed an index outside
/// the matrix, or data of the wrong length, reports the error and leaves the
/// matrix as it was.
pub trait RowPrioMatrix<T: Copy>: View<V = Grid<T>> {
    /// Writes `value` to the cell at `(row, col)`. No other cell changes.
    fn insert(&mut self, row: usize, col: usize, value: T) -> (r: Result<(), MatrixError>)
        requires
            old(self)@.wf(),
        ensures
            final(self)@.wf(),
            old(self)@.in_bounds(row as int, col as int) ==> {
                &&& r.is_ok()
                &&& final(self)@ == old(self)@.put(
                    Layout::RowFirst,
                    row as int,
                    col as int,
                    value,
                )
            },
            !old(self)@.in_bounds(row as int, col as int) ==> {
                &&& r matches Err(MatrixError::IndexOutOfBounds)
                &&& final(self)@ == old(self)@
            },
    ;

    /// The cell at `(row, col)`.
    fn get(&self, row: usize, col: usize) -> (r: Result<&T, MatrixError>)
        requires
            self@.wf(),
        ensures
            self@.in_bounds(row as int, col as int) ==> {
                &&& r.is_ok()
                &&& *r.unwrap() == self@.at(Layout::RowFirst, row as int, col as int)
            },
            !self@.in_bounds(row as int, col as int) ==> {
                r matches Err(MatrixError::IndexOutOfBounds)
            },
    ;

    /// The cell at `(row, col)` for writing. What is written through the
    /// reference arrives at that cell and nowhere else.
    fn get_mut(&mut self, row: usize, col: usize) -> (r: Result<&mut T, MatrixError>)
        requires
            old(self)@.wf(),
        ensures
            final(self)@.wf(),
            old(self)@.in_bounds(row as int, col as int) ==> {
                &&& r.is_ok()
                &&& *r.unwrap() == old(self)@.at(Layout::RowFirst, row as int, col as int)
                &&& final(self)@ == old(self)@.put(
                    Layout::RowFirst,
                    row as int,
                    col as int,
                    *final(r.unwrap()),
                )
            },
            !old(self)@.in_bounds(row as int, col as int) ==> {
                &&& r matches Err(MatrixError::IndexOutOfBounds)
                &&& final(self)@ == old(self)@
            },
    ;

    /// Overwrites the whole row `row` with `data`, which must hold exactly
    /// one element for each column. The length is looked at first: data of
    /// the wrong length is a `LengthMismatch` whatever the index.
    fn fill_row(&mut self, row: usize, data: &[T]) -> (r: Result<(), MatrixError>)
        requires
            old(self)@.wf(),
        ensures
            final(self)@.wf(),
            data@.len() != old(self)@.cols ==> {
                &&& r matches Err(MatrixError::LengthMismatch)
                &&& final(self)@ == old(self)@
            },
            data@.len() == old(self)@.cols && row >= old(self)@.rows ==> {
                &&& r matches Err(MatrixError::IndexOutOfBounds)
                &&& final(self)@ == old(self)@
            },
            data@.len() == old(self)@.cols && row < old(self)@.rows ==> {
                &&& r.is_ok()
                &&& final(self)@ == old(self)@.put_row(Layout::RowFirst, row as int, data@)
            },
    ;

    /// Overwrites the whole column `col` with `data`, which must hold exactly
    /// one element for each row. The length is looked at first: data of
    /// the wrong length is a `LengthMismatch` whatever the index.
    fn fill_col(&mut self, col: usize, data: &[T]) -> (r: Result<(), MatrixError>)
        requires
            old(self)@.wf(),
        ensures
            final(self)@.wf(),
            data@.len() != old(self)@.rows ==> {
                &&& r matches Err(MatrixError::LengthMismatch)
                &&& final(self)@ == old(self)@
            },
            data@.len() == old(self)@.rows && col >= old(self)@.cols ==> {
                &&& r matches Err(MatrixError::IndexOutOfBounds)
                &&& final(self)@ == old(self)@
            },
            data@.len() == old(self)@.rows && col < old(self)@.cols ==> {
                &&& r.is_ok()
                &&& final(self)@ == old(self)@.put_col(Layout::RowFirst, col as int, data@)
            },
    ;

    /// The row `row` as a slice of the buffer.
    fn get_row(&self, row: usize) -> (r: Result<&[T], MatrixError>)
        requires
            self@.wf(),
        ensures
            row < self@.rows ==> {
                &&& r.is_ok()
                &&& r.unwrap()@ == self@.row(Layout::RowFirst, row as int)
            },
            row >= self@.rows ==> r matches Err(MatrixError::IndexOutOfBounds),
    ;

    /// The row `row` as a slice of the buffer for writing. The matrix ends
    /// up with that row as the holder of the slice leaves it and with
    /// every other cell as it was.
    fn get_mut_row(&mut self, row: usize) -> (r: Result<&mut [T], MatrixError>)
        requires
            old(self)@.wf(),
        ensures
            final(self)@.rows == old(self)@.rows,
            final(self)@.cols == old(self)@.cols,
            row < old(self)@.rows ==> {
                &&& r.is_ok()
                &&& r.unwrap()@ == old(self)@.row(Layout::RowFirst, row as int)
                &&& final(self)@.cells == with_stretch(
                    old(self)@.cells,
                    row as int,
                    old(self)@.cols,
                    final(r.unwrap())@,
                )
                &&& final(r.unwrap())@.len() == r.unwrap()@.len() ==> final(self)@
                    == old(self)@.put_row(Layout::RowFirst, row as int, final(r.unwrap())@)
            },
            row >= old(self)@.rows ==> {
                &&& r matches Err(MatrixError::IndexOutOfBounds)
                &&& final(self)@ == old(self)@
            },
    ;

    /// The column `col` as a strided view.
    fn get_column(&self, col: usize) -> (r: Result<IntermittentSlice<'_, T>, MatrixError>)
        requires
            self@.wf(),
        ensures
            col < self@.cols ==> {
                &&& r.is_ok()
                &&& r.unwrap()@ == self@.col(Layout::RowFirst, col as int)
            },
            col >= self@.cols ==> r matches Err(MatrixError::IndexOutOfBounds),
    ;

    /// The column `col` as a strided view for writing. The view borrows the
    /// buffer of the matrix: element `k` of the view is the cell at offset
    /// `col + k * cols`, and the matrix ends up with the buffer as the holder
    /// of the view leaves it.
    fn get_mut_column(&mut self, col: usize) -> (r: Result<
        IntermittentSliceMut<'_, T>,
        MatrixError,
    >)
        requires
            old(self)@.wf(),
        ensures
            final(self)@.rows == old(self)@.rows,
            final(self)@.cols == old(self)@.cols,
            col < old(self)@.cols ==> {
                &&& r.is_ok()
                &&& r.unwrap().wf()
                &&& r.unwrap()@ == old(self)@.col(Layout::RowFirst, col as int)
                &&& r.unwrap().buffer@ == old(self)@.cells
                &&& r.unwrap().start == col
                &&& r.unwrap().slices == old(self)@.cols
                &&& r.unwrap().len == old(self)@.rows
                &&& final(self)@.cells == final(r.unwrap().buffer)@
            },
            col >= old(self)@.cols ==> {
                &&& r matches Err(MatrixError::IndexOutOfBounds)
                &&& final(self)@ == old(self)@
            },
    ;

    /// The iterator over all rows, from row zero upwards.
    fn rows(&self) -> (it: IterSlices<'_, T>)
        requires
            self@.wf(),
        ensures
            it.remaining() == self@.all_rows(Layout::RowFirst),
    ;

    /// The iterator over all rows for writing, from row zero upwards. The
    /// matrix ends up with the buffer as the iterator and the rows it handed
    /// out leave it.
    fn rows_mut(&mut self) -> (it: IterSlicesMut<'_, T>)
        requires
            old(self)@.wf(),
        ensures
            final(self)@.rows == old(self)@.rows,
            final(self)@.cols == old(self)@.cols,
            it.wf(),
            it.remaining() == old(self)@.all_rows(Layout::RowFirst),
            it.matrix_buffer@ == old(self)@.cells,
            it.len == old(self)@.cols,
            it.lines == old(self)@.rows,
            final(self)@.cells == final(it.matrix_buffer)@,
    ;

    /// The iterator over all columns, from column zero upwards.
    fn cols(&self) -> (it: IterIntermittentSlices<'_, T>)
        requires
            self@.wf(),
        ensures
            it.remaining() == self@.all_cols(Layout::RowFirst),
    ;

    /// The iterator over all columns for writing, from column zero upwards.
    /// The matrix ends up with the buffer as the iterator and the columns it
    /// handed out leave it.
    fn cols_mut(&mut self) -> (it: IterMutIntermittentSlices<'_, T>)
        requires
            old(self)@.wf(),
        ensures
            final(self)@.rows == old(self)@.rows,
            final(self)@.cols == old(self)@.cols,
            it.wf(),
            it.remaining() == old(self)@.all_cols(Layout::RowFirst),
            it.matrix_buffer@ == old(self)@.cells,
            it.slice_index == 0,
            it.slices == old(self)@.cols,
            it.len == old(self)@.rows,
            final(self)@.cells == final(it.matrix_buffer)@,
    ;

    /// The matrix as text: one line for each row, from row zero downwards,
    /// with the cells of a row from column zero upwards and a `-` between
    /// neighbours. Each cell is written by its debug text, numbers in
    /// hexadecimal with two digits at least.
    fn pretty_string(&self) -> (text: String) where T: Debug
        requires
            self@.wf(),
        ensures
            exists|texts: Seq<Seq<char>>|
                texts.len() == self@.rows * self@.cols && text@ == #[trigger] grid_text(
                    texts,
                    self@.rows,
                    self@.cols,
                ),
    ;

    /// Runs `f` once on every cell, in memory order. Each cell ends up as
    /// that run of `f` leaves it; where `f` changes nothing, the matrix is
    /// left as it was.
    fn apply_all<F: Fn(&mut T)>(&mut self, f: F)
        requires
            old(self)@.wf(),
            forall|k: int, cell: &mut T|
                is_place(old(self)@.cells, k) && *cell == old(self)@.cells[k] ==> call_requires(
                    f,
                    (cell,),
                ),
        ensures
            final(self)@.wf(),
            final(self)@.rows == old(self)@.rows,
            final(self)@.cols == old(self)@.cols,
            forall|k: int|
                #![trigger is_place(old(self)@.cells, k)]
                #![trigger final(self)@.cells[k]]
                is_place(old(self)@.cells, k) ==> exists|cell: &mut T|
                    #![trigger call_ensures(f, (cell,), ())]
                    *cell == old(self)@.cells[k] && *final(cell) == final(self)@.cells[k]
                        && call_ensures(f, (cell,), ()),
            (forall|cell: &mut T| #[trigger] call_ensures(f, (cell,), ()) ==> *final(cell) == *cell)
                ==> final(self)@ == old(self)@,
    ;
}

} // verus!
