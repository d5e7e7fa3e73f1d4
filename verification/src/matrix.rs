//! The matrix that owns its buffer on the heap.
use vstd::prelude::*;
use core::fmt::Debug;
use core::marker::PhantomData;
use crate::buffer::apply_to_all;
use crate::error::MatrixError;
use crate::grid::{grid_of, Grid, Layout};
use crate::layout::{ColumnPrio, RowPrio};
use crate::line::{IntermittentSlice, IntermittentSliceMut};
use crate::lines::{
    IterIntermittentSlices, IterMutIntermittentSlices, IterSlices, IterSlicesMut,
};
use crate::ops;
use crate::pretty::pretty_string;
use crate::prio::{ColumnPrioMatrix, RowPrioMatrix};

verus! {

/// A matrix over a buffer that it owns on the heap. Its dimensions are given
/// when it is made and never change. `MemoryPriority` is [`ColumnPrio`] or
/// [`RowPrio`] and says how the buffer is read.
#[derive(Debug)]
pub struct Matrix<MemoryPriority, T> {
    inner: Vec<T>,
    rows: usize,
    cols: usize,
    _prio: PhantomData<MemoryPriority>,
}

impl<MemoryPriority, T> View for Matrix<MemoryPriority, T> {
    type V = Grid<T>;

    closed spec fn view(&self) -> Grid<T> {
        grid_of(self.inner@, self.rows, self.cols)
    }
}

impl<MemoryPriority, T: Copy> Clone for Matrix<MemoryPriority, T> {
    /// A matrix of the same dimensions over a copy of the buffer.
    fn clone(&self) -> (m: Self)
        ensures
            m@ == self@,
    {
        Matrix {
            inner: vstd::slice::slice_to_vec(self.inner.as_slice()),
            rows: self.rows,
            cols: self.cols,
            _prio: PhantomData,
        }
    }
}

impl<MemoryPriority, T: Copy> Matrix<MemoryPriority, T> {
    /// The matrix of `rows` by `cols` cells that all hold `init`. The number
    /// of cells must fit the address space.
    pub fn new(init: T, rows: usize, cols: usize) -> (m: Self)
        requires
            rows * cols <= usize::MAX,
        ensures
            m@ == grid_of(Seq::new((rows * cols) as nat, |k: int| init), rows, cols),
            m@.wf(),
    {
        let size = rows * cols;
        let mut inner: Vec<T> = Vec::with_capacity(size);
        let mut k: usize = 0;
        while k < size
            invariant
                k <= size,
                inner@ == Seq::new(k as nat, |j: int| init),
            decreases size - k,
        {
            inner.push(init);
            k += 1;
            assert(inner@ =~= Seq::new(k as nat, |j: int| init));
        }
        Matrix { inner, rows, cols, _prio: PhantomData }
    }

    /// The matrix of `rows` by `cols` cells over a copy of `data`, or
    /// `DimensionError` where `data` does not hold exactly `rows * cols`
    /// elements.
    pub fn from_values(rows: usize, cols: usize, data: &[T]) -> (r: Result<Self, MatrixError>)
        ensures
            rows * cols == data@.len() ==> (r matches Ok(m) && m@ == grid_of(data@, rows, cols)),
            rows * cols != data@.len() ==> r matches Err(MatrixError::DimensionError),
    {
        assert(data@.len() == data.len());
        match rows.checked_mul(cols) {
            Some(size) => {
                if size != data.len() {
                    return Err(MatrixError::DimensionError);
                }
            },
            None => {
                return Err(MatrixError::DimensionError);
            },
        }
        Ok(Matrix { inner: vstd::slice::slice_to_vec(data), rows, cols, _prio: PhantomData })
    }
}

/// The operations under the column first layout.
impl<T: Copy> ColumnPrioMatrix<T> for Matrix<ColumnPrio, T> {
    fn insert(&mut self, row: usize, col: usize, value: T) -> (r: Result<(), MatrixError>) {
        ops::insert(
            self.inner.as_mut_slice(),
            self.rows,
            self.cols,
            Layout::ColumnFirst,
            row,
            col,
            value,
        )
    }

    fn get(&self, row: usize, col: usize) -> (r: Result<&T, MatrixError>) {
        ops::get(self.inner.as_slice(), self.rows, self.cols, Layout::ColumnFirst, row, col)
    }

    fn get_mut(&mut self, row: usize, col: usize) -> (r: Result<&mut T, MatrixError>) {
        ops::get_mut(self.inner.as_mut_slice(), self.rows, self.cols, Layout::ColumnFirst, row, col)
    }

    fn fill_col(&mut self, col: usize, data: &[T]) -> (r: Result<(), MatrixError>) {
        ops::fill_native(
            self.inner.as_mut_slice(),
            self.rows,
            self.cols,
            Layout::ColumnFirst,
            col,
            data,
        )
    }

    fn fill_row(&mut self, row: usize, data: &[T]) -> (r: Result<(), MatrixError>) {
        ops::fill_foreign(
            self.inner.as_mut_slice(),
            self.rows,
            self.cols,
            Layout::ColumnFirst,
            row,
            data,
        )
    }

    fn get_column(&self, col: usize) -> (r: Result<&[T], MatrixError>) {
        ops::native_line(self.inner.as_slice(), self.rows, self.cols, Layout::ColumnFirst, col)
    }

    fn get_mut_column(&mut self, col: usize) -> (r: Result<&mut [T], MatrixError>) {
        ops::native_line_mut(
            self.inner.as_mut_slice(),
            self.rows,
            self.cols,
            Layout::ColumnFirst,
            col,
        )
    }

    fn get_row(&self, row: usize) -> (r: Result<IntermittentSlice<'_, T>, MatrixError>) {
        ops::foreign_line(self.inner.as_slice(), self.rows, self.cols, Layout::ColumnFirst, row)
    }

    fn get_mut_row(&mut self, row: usize) -> (r: Result<
        IntermittentSliceMut<'_, T>,
        MatrixError,
    >) {
        ops::foreign_line_mut(
            self.inner.as_mut_slice(),
            self.rows,
            self.cols,
            Layout::ColumnFirst,
            row,
        )
    }

    fn rows(&self) -> (it: IterIntermittentSlices<'_, T>) {
        ops::foreign_lines(self.inner.as_slice(), self.rows, self.cols, Layout::ColumnFirst)
    }

    fn rows_mut(&mut self) -> (it: IterMutIntermittentSlices<'_, T>) {
        ops::foreign_lines_mut(self.inner.as_mut_slice(), self.rows, self.cols, Layout::ColumnFirst)
    }

    fn cols(&self) -> (it: IterSlices<'_, T>) {
        ops::native_lines(self.inner.as_slice(), self.rows, self.cols, Layout::ColumnFirst)
    }

    fn cols_mut(&mut self) -> (it: IterSlicesMut<'_, T>) {
        ops::native_lines_mut(self.inner.as_mut_slice(), self.rows, self.cols, Layout::ColumnFirst)
    }

    fn pretty_string(&self) -> (text: String) where T: Debug {
        pretty_string(self.inner.as_slice(), self.rows, self.cols, Layout::ColumnFirst)
    }

    fn apply_all<F: Fn(&mut T)>(&mut self, f: F) {
        apply_to_all(self.inner.as_mut_slice(), &f)
    }
}

/// The operations under the row first layout.
impl<T: Copy> RowPrioMatrix<T> for Matrix<RowPrio, T> {
    fn insert(&mut self, row: usize, col: usize, value: T) -> (r: Result<(), MatrixError>) {
        ops::insert(
            self.inner.as_mut_slice(),
            self.rows,
            self.cols,
            Layout::RowFirst,
            row,
            col,
            value,
        )
    }

    fn get(&self, row: usize, col: usize) -> (r: Result<&T, MatrixError>) {
        ops::get(self.inner.as_slice(), self.rows, self.cols, Layout::RowFirst, row, col)
    }

    fn get_mut(&mut self, row: usize, col: usize) -> (r: Result<&mut T, MatrixError>) {
        ops::get_mut(self.inner.as_mut_slice(), self.rows, self.cols, Layout::RowFirst, row, col)
    }

    fn fill_row(&mut self, row: usize, data: &[T]) -> (r: Result<(), MatrixError>) {
        ops::fill_native(
            self.inner.as_mut_slice(),
            self.rows,
            self.cols,
            Layout::RowFirst,
            row,
            data,
        )
    }

    fn fill_col(&mut self, col: usize, data: &[T]) -> (r: Result<(), MatrixError>) {
        ops::fill_foreign(
            self.inner.as_mut_slice(),
            self.rows,
            self.cols,
            Layout::RowFirst,
            col,
            data,
        )
    }

    fn get_row(&self, row: usize) -> (r: Result<&[T], MatrixError>) {
        ops::native_line(self.inner.as_slice(), self.rows, self.cols, Layout::RowFirst, row)
    }

    fn get_mut_row(&mut self, row: usize) -> (r: Result<&mut [T], MatrixError>) {
        ops::native_line_mut(self.inner.as_mut_slice(), self.rows, self.cols, Layout::RowFirst, row)
    }

    fn get_column(&self, col: usize) -> (r: Result<IntermittentSlice<'_, T>, MatrixError>) {
        ops::foreign_line(self.inner.as_slice(), self.rows, self.cols, Layout::RowFirst, col)
    }

    fn get_mut_column(&mut self, col: usize) -> (r: Result<
        IntermittentSliceMut<'_, T>,
        MatrixError,
    >) {
        ops::foreign_line_mut(
            self.inner.as_mut_slice(),
            self.rows,
            self.cols,
            Layout::RowFirst,
            col,
        )
    }

    fn rows(&self) -> (it: IterSlices<'_, T>) {
        ops::native_lines(self.inner.as_slice(), self.rows, self.cols, Layout::RowFirst)
    }

    fn rows_mut(&mut self) -> (it: IterSlicesMut<'_, T>) {
        ops::native_lines_mut(self.inner.as_mut_slice(), self.rows, self.cols, Layout::RowFirst)
    }

    fn cols(&self) -> (it: IterIntermittentSlices<'_, T>) {
        ops::foreign_lines(self.inner.as_slice(), self.rows, self.cols, Layout::RowFirst)
    }

    fn cols_mut(&mut self) -> (it: IterMutIntermittentSlices<'_, T>) {
        ops::foreign_lines_mut(self.inner.as_mut_slice(), self.rows, self.cols, Layout::RowFirst)
    }

    fn pretty_string(&self) -> (text: String) where T: Debug {
        pretty_string(self.inner.as_slice(), self.rows, self.cols, Layout::RowFirst)
    }

    fn apply_all<F: Fn(&mut T)>(&mut self, f: F) {
        apply_to_all(self.inner.as_mut_slice(), &f)
    }
}

} // verus!
