//! The matrix over a borrowed buffer.
use vstd::prelude::*;
use core::fmt::Debug;
use core::marker::PhantomData;
use crate::buffer::apply_to_all;
use crate::error::MatrixError;
use crate::grid::{grid_of, Grid, Layout};
use crate::layout::{ColumnPrio, RowPrio};
use crate::line::{IntermittentSlice, IntermittentSliceMut};
use crate::lines::{
    IterIntermittentSlices, IterMutIntermittentSlices, IterSlices, IterSlicesMut,
};
use crate::ops;
use crate::pretty::pretty_string;
use crate::prio::{ColumnPrioMatrix, RowPrioMatrix};

verus! {

/// A matrix of `R` rows and `C` columns over a mutable slice that it
/// borrows. It allocates nothing: every write goes straight to the slice,
/// and the lender finds it there once the matrix is gone. `MemoryPriority`
/// is [`ColumnPrio`] or [`RowPrio`] and says how the buffer is read.
pub struct Reftrix<'a, const R: usize, const C: usize, MemoryPriority, T> {
    /// The borrowed buffer.
    pub inner: &'a mut [T],
    /// The layout under which the buffer is read.
    pub _prio: PhantomData<MemoryPriority>,
}

impl<'a, const R: usize, const C: usize, MemoryPriority, T> View for Reftrix<
    'a,
    R,
    C,
    MemoryPriority,
    T,
> {
    type V = Grid<T>;

    open spec fn view(&self) -> Grid<T> {
        grid_of(self.inner@, R, C)
    }
}

impl<'a, const R: usize, const C: usize, MemoryPriority, T> Reftrix<'a, R, C, MemoryPriority, T> {
    /// The matrix over `inner_values`, which must hold exactly `R * C`
    /// elements. The slice ends up as the matrix leaves its buffer.
    pub fn from_values(inner_values: &'a mut [T]) -> (m: Self)
        requires
            old(inner_values)@.len() == R * C,
        ensures
            m@ == grid_of(old(inner_values)@, R, C),
            m@.wf(),
            final(inner_values)@ == final(m.inner)@,
    {
        Reftrix { inner: inner_values, _prio: PhantomData }
    }
}

/// The operations under the column first layout. An operation that takes the
/// matrix for writing leaves the borrow itself alone, so that the lender
/// finds in the slice, in the end, what the matrix holds in the end.
impl<const R: usize, const C: usize, T: Copy> ColumnPrioMatrix<T> for Reftrix<
    '_,
    R,
    C,
    ColumnPrio,
    T,
> {
    fn insert(&mut self, row: usize, col: usize, value: T) -> (r: Result<(), MatrixError>)
        ensures
            final(final(self).inner)@ == final(old(self).inner)@,
    {
        ops::insert(self.inner, R, C, Layout::ColumnFirst, row, col, value)
    }

    fn get(&self, row: usize, col: usize) -> (r: Result<&T, MatrixError>) {
        ops::get(self.inner, R, C, Layout::ColumnFirst, row, col)
    }

    fn get_mut(&mut self, row: usize, col: usize) -> (r: Result<&mut T, MatrixError>)
        ensures
            final(final(self).inner)@ == final(old(self).inner)@,
    {
        ops::get_mut(self.inner, R, C, Layout::ColumnFirst, row, col)
    }

    fn fill_col(&mut self, col: usize, data: &[T]) -> (r: Result<(), MatrixError>)
        ensures
            final(final(self).inner)@ == final(old(self).inner)@,
    {
        ops::fill_native(self.inner, R, C, Layout::ColumnFirst, col, data)
    }

    fn fill_row(&mut self, row: usize, data: &[T]) -> (r: Result<(), MatrixError>)
        ensures
            final(final(self).inner)@ == final(old(self).inner)@,
    {
        ops::fill_foreign(self.inner, R, C, Layout::ColumnFirst, row, data)
    }

    fn get_column(&self, col: usize) -> (r: Result<&[T], MatrixError>) {
        ops::native_line(self.inner, R, C, Layout::ColumnFirst, col)
    }

    fn get_mut_column(&mut self, col: usize) -> (r: Result<&mut [T], MatrixError>)
        ensures
            final(final(self).inner)@ == final(old(self).inner)@,
    {
        ops::native_line_mut(self.inner, R, C, Layout::ColumnFirst, col)
    }

    fn get_row(&self, row: usize) -> (r: Result<IntermittentSlice<'_, T>, MatrixError>) {
        ops::foreign_line(self.inner, R, C, Layout::ColumnFirst, row)
    }

    fn get_mut_row(&mut self, row: usize) -> (r: Result<
        IntermittentSliceMut<'_, T>,
        MatrixError,
    >)
        ensures
            final(final(self).inner)@ == final(old(self).inner)@,
    {
        ops::foreign_line_mut(self.inner, R, C, Layout::ColumnFirst, row)
    }

    fn rows(&self) -> (it: IterIntermittentSlices<'_, T>) {
        ops::foreign_lines(self.inner, R, C, Layout::ColumnFirst)
    }

    fn rows_mut(&mut self) -> (it: IterMutIntermittentSlices<'_, T>)
        ensures
            final(final(self).inner)@ == final(old(self).inner)@,
    {
        ops::foreign_lines_mut(self.inner, R, C, Layout::ColumnFirst)
    }

    fn cols(&self) -> (it: IterSlices<'_, T>) {
        ops::native_lines(self.inner, R, C, Layout::ColumnFirst)
    }

    fn cols_mut(&mut self) -> (it: IterSlicesMut<'_, T>)
        ensures
            final(final(self).inner)@ == final(old(self).inner)@,
    {
        ops::native_lines_mut(self.inner, R, C, Layout::ColumnFirst)
    }

    fn pretty_string(&self) -> (text: String) where T: Debug {
        pretty_string(self.inner, R, C, Layout::ColumnFirst)
    }

    fn apply_all<F: Fn(&mut T)>(&mut self, f: F)
        ensures
            final(final(self).inner)@ == final(old(self).inner)@,
    {
        apply_to_all(self.inner, &f)
    }
}

/// The operations under the row first layout. An operation that takes the
/// matrix for writing leaves the borrow itself alone, so that the lender
/// finds in the slice, in the end, what the matrix holds in the end.
impl<const R: usize, const C: usize, T: Copy> RowPrioMatrix<T> for Reftrix<
    '_,
    R,
    C,
    RowPrio,
    T,
> {
    fn insert(&mut self, row: usize, col: usize, value: T) -> (r: Result<(), MatrixError>)
        ensures
            final(final(self).inner)@ == final(old(self).inner)@,
    {
        ops::insert(self.inner, R, C, Layout::RowFirst, row, col, value)
    }

    fn get(&self, row: usize, col: usize) -> (r: Result<&T, MatrixError>) {
        ops::get(self.inner, R, C, Layout::RowFirst, row, col)
    }

    fn get_mut(&mut self, row: usize, col: usize) -> (r: Result<&mut T, MatrixError>)
        ensures
            final(final(self).inner)@ == final(old(self).inner)@,
    {
        ops::get_mut(self.inner, R, C, Layout::RowFirst, row, col)
    }

    fn fill_row(&mut self, row: usize, data: &[T]) -> (r: Result<(), MatrixError>)
        ensures
            final(final(self).inner)@ == final(old(self).inner)@,
    {
        ops::fill_native(self.inner, R, C, Layout::RowFirst, row, data)
    }

    fn fill_col(&mut self, col: usize, data: &[T]) -> (r: Result<(), MatrixError>)
        ensures
            final(final(self).inner)@ == final(old(self).inner)@,
    {
        ops::fill_foreign(self.inner, R, C, Layout::RowFirst, col, data)
    }

    fn get_row(&self, row: usize) -> (r: Result<&[T], MatrixError>) {
        ops::native_line(self.inner, R, C, Layout::RowFirst, row)
    }

    fn get_mut_row(&mut self, row: usize) -> (r: Result<&mut [T], MatrixError>)
        ensures
            final(final(self).inner)@ == final(old(self).inner)@,
    {
        ops::native_line_mut(self.inner, R, C, Layout::RowFirst, row)
    }

    fn get_column(&self, col: usize) -> (r: Result<IntermittentSlice<'_, T>, MatrixError>) {
        ops::foreign_line(self.inner, R, C, Layout::RowFirst, col)
    }

    fn get_mut_column(&mut self, col: usize) -> (r: Result<
        IntermittentSliceMut<'_, T>,
        MatrixError,
    >)
        ensures
            final(final(self).inner)@ == final(old(self).inner)@,
    {
        ops::foreign_line_mut(self.inner, R, C, Layout::RowFirst, col)
    }

    fn rows(&self) -> (it: IterSlices<'_, T>) {
        ops::native_lines(self.inner, R, C, Layout::RowFirst)
    }

    fn rows_mut(&mut self) -> (it: IterSlicesMut<'_, T>)
        ensures
            final(final(self).inner)@ == final(old(self).inner)@,
    {
        ops::native_lines_mut(self.inner, R, C, Layout::RowFirst)
    }

    fn cols(&self) -> (it: IterIntermittentSlices<'_, T>) {
        ops::foreign_lines(self.inner, R, C, Layout::RowFirst)
    }

    fn cols_mut(&mut self) -> (it: IterMutIntermittentSlices<'_, T>)
        ensures
            final(final(self).inner)@ == final(old(self).inner)@,
    {
        ops::foreign_lines_mut(self.inner, R, C, Layout::RowFirst)
    }

    fn pretty_string(&self) -> (text: String) where T: Debug {
        pretty_string(self.inner, R, C, Layout::RowFirst)
    }

    fn apply_all<F: Fn(&mut T)>(&mut self, f: F)
        ensures
            final(final(self).inner)@ == final(old(self).inner)@,
    {
        apply_to_all(self.inner, &f)
    }
}

} // verus!
