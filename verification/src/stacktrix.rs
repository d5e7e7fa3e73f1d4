//! The matrix that holds its buffer by value.
use vstd::prelude::*;
use core::fmt::Debug;
use core::marker::PhantomData;
use crate::buffer::apply_to_all;
use crate::error::MatrixError;
use crate::grid::{grid_of, Grid, Layout};
use crate::layout::{ColumnPrio, RowPrio};
use crate::line::{IntermittentSlice, IntermittentSliceMut};
use crate::lines::{
    IterIntermittentSlices, IterMutIntermittentSlices, IterSlices, IterSlicesMut,
};
use crate::ops;
use crate::pretty::pretty_string;
use crate::prio::{ColumnPrioMatrix, RowPrioMatrix};

verus! {

/// A matrix of `R` rows and `C` columns over an array of `S` elements that
/// it holds by value, so that the data it was made from is left alone. `S`
/// must be `R * C`. `MemoryPriority` is [`ColumnPrio`] or [`RowPrio`] and
/// says how the buffer is read.
pub struct Stacktrix<const S: usize, const R: usize, const C: usize, MemoryPriority, T> {
    inner: [T; S],
    _prio: PhantomData<MemoryPriority>,
}

impl<const S: usize, const R: usize, const C: usize, MemoryPriority, T> View for Stacktrix<
    S,
    R,
    C,
    MemoryPriority,
    T,
> {
    type V = Grid<T>;

    closed spec fn view(&self) -> Grid<T> {
        grid_of(self.inner@, R, C)
    }
}

/// `<[T; S]>::try_from` on a slice, of the standard library: the array that
/// holds a copy of the elements of `values` where there are exactly `S` of
/// them, and `None` where there are not.
#[verifier::external_body]
fn array_from_slice<T: Copy, const S: usize>(values: &[T]) -> (r: Option<[T; S]>)
    ensures
        r.is_some() <==> values@.len() == S,
        r.is_some() ==> r.unwrap()@ == values@,
{
    <[T; S]>::try_from(values).ok()
}

impl<const S: usize, const R: usize, const C: usize, MemoryPriority, T: Copy> Stacktrix<
    S,
    R,
    C,
    MemoryPriority,
    T,
> {
    /// The matrix over the array `inner_values`. The size of the array must
    /// be the number of cells.
    pub fn with_values(inner_values: [T; S]) -> (m: Self)
        requires
            S == R * C,
        ensures
            m@ == grid_of(inner_values@, R, C),
            m@.wf(),
    {
        Stacktrix { inner: inner_values, _prio: PhantomData }
    }

    /// The matrix over a copy of `inner_values`, which must hold exactly
    /// `R * C` elements. The size of the array must be the number of cells.
    pub fn from_values(inner_values: &[T]) -> (m: Self)
        requires
            S == R * C,
            inner_values@.len() == R * C,
        ensures
            m@ == grid_of(inner_values@, R, C),
            m@.wf(),
    {
        match array_from_slice(inner_values) {
            Some(inner) => Stacktrix { inner, _prio: PhantomData },
            None => vstd::pervasive::unreached(),
        }
    }
}

/// The operations under the column first layout.
impl<const S: usize, const R: usize, const C: usize, T: Copy> ColumnPrioMatrix<T> for Stacktrix<
    S,
    R,
    C,
    ColumnPrio,
    T,
> {
    fn insert(&mut self, row: usize, col: usize, value: T) -> (r: Result<(), MatrixError>) {
        ops::insert(&mut self.inner, R, C, Layout::ColumnFirst, row, col, value)
    }

    fn get(&self, row: usize, col: usize) -> (r: Result<&T, MatrixError>) {
        ops::get(&self.inner, R, C, Layout::ColumnFirst, row, col)
    }

    fn get_mut(&mut self, row: usize, col: usize) -> (r: Result<&mut T, MatrixError>) {
        ops::get_mut(&mut self.inner, R, C, Layout::ColumnFirst, row, col)
    }

    fn fill_col(&mut self, col: usize, data: &[T]) -> (r: Result<(), MatrixError>) {
        ops::fill_native(&mut self.inner, R, C, Layout::ColumnFirst, col, data)
    }

    fn fill_row(&mut self, row: usize, data: &[T]) -> (r: Result<(), MatrixError>) {
        ops::fill_foreign(&mut self.inner, R, C, Layout::ColumnFirst, row, data)
    }

    fn get_column(&self, col: usize) -> (r: Result<&[T], MatrixError>) {
        ops::native_line(&self.inner, R, C, Layout::ColumnFirst, col)
    }

    fn get_mut_column(&mut self, col: usize) -> (r: Result<&mut [T], MatrixError>) {
        ops::native_line_mut(&mut self.inner, R, C, Layout::ColumnFirst, col)
    }

    fn get_row(&self, row: usize) -> (r: Result<IntermittentSlice<'_, T>, MatrixError>) {
        ops::foreign_line(&self.inner, R, C, Layout::ColumnFirst, row)
    }

    fn get_mut_row(&mut self, row: usize) -> (r: Result<
        IntermittentSliceMut<'_, T>,
        MatrixError,
    >) {
        ops::foreign_line_mut(&mut self.inner, R, C, Layout::ColumnFirst, row)
    }

    fn rows(&self) -> (it: IterIntermittentSlices<'_, T>) {
        ops::foreign_lines(&self.inner, R, C, Layout::ColumnFirst)
    }

    fn rows_mut(&mut self) -> (it: IterMutIntermittentSlices<'_, T>) {
        ops::foreign_lines_mut(&mut self.inner, R, C, Layout::ColumnFirst)
    }

    fn cols(&self) -> (it: IterSlices<'_, T>) {
        ops::native_lines(&self.inner, R, C, Layout::ColumnFirst)
    }

    fn cols_mut(&mut self) -> (it: IterSlicesMut<'_, T>) {
        ops::native_lines_mut(&mut self.inner, R, C, Layout::ColumnFirst)
    }

    fn pretty_string(&self) -> (text: String) where T: Debug {
        pretty_string(&self.inner, R, C, Layout::ColumnFirst)
    }

    fn apply_all<F: Fn(&mut T)>(&mut self, f: F) {
        apply_to_all(&mut self.inner, &f)
    }
}

/// The operations under the row first layout.
impl<const S: usize, const R: usize, const C: usize, T: Copy> RowPrioMatrix<T> for Stacktrix<
    S,
    R,
    C,
    RowPrio,
    T,
> {
    fn insert(&mut self, row: usize, col: usize, value: T) -> (r: Result<(), MatrixError>) {
        ops::insert(&mut self.inner, R, C, Layout::RowFirst, row, col, value)
    }

    fn get(&self, row: usize, col: usize) -> (r: Result<&T, MatrixError>) {
        ops::get(&self.inner, R, C, Layout::RowFirst, row, col)
    }

    fn get_mut(&mut self, row: usize, col: usize) -> (r: Result<&mut T, MatrixError>) {
        ops::get_mut(&mut self.inner, R, C, Layout::RowFirst, row, col)
    }

    fn fill_row(&mut self, row: usize, data: &[T]) -> (r: Result<(), MatrixError>) {
        ops::fill_native(&mut self.inner, R, C, Layout::RowFirst, row, data)
    }

    fn fill_col(&mut self, col: usize, data: &[T]) -> (r: Result<(), MatrixError>) {
        ops::fill_foreign(&mut self.inner, R, C, Layout::RowFirst, col, data)
    }

    fn get_row(&self, row: usize) -> (r: Result<&[T], MatrixError>) {
        ops::native_line(&self.inner, R, C, Layout::RowFirst, row)
    }

    fn get_mut_row(&mut self, row: usize) -> (r: Result<&mut [T], MatrixError>) {
        ops::native_line_mut(&mut self.inner, R, C, Layout::RowFirst, row)
    }

    fn get_column(&self, col: usize) -> (r: Result<IntermittentSlice<'_, T>, MatrixError>) {
        ops::foreign_line(&self.inner, R, C, Layout::RowFirst, col)
    }

    fn get_mut_column(&mut self, col: usize) -> (r: Result<
        IntermittentSliceMut<'_, T>,
        MatrixError,
    >) {
        ops::foreign_line_mut(&mut self.inner, R, C, Layout::RowFirst, col)
    }

    fn rows(&self) -> (it: IterSlices<'_, T>) {
        ops::native_lines(&self.inner, R, C, Layout::RowFirst)
    }

    fn rows_mut(&mut self) -> (it: IterSlicesMut<'_, T>) {
        ops::native_lines_mut(&mut self.inner, R, C, Layout::RowFirst)
    }

    fn cols(&self) -> (it: IterIntermittentSlices<'_, T>) {
        ops::foreign_lines(&self.inner, R, C, Layout::RowFirst)
    }

    fn cols_mut(&mut self) -> (it: IterMutIntermittentSlices<'_, T>) {
        ops::foreign_lines_mut(&mut self.inner, R, C, Layout::RowFirst)
    }

    fn pretty_string(&self) -> (text: String) where T: Debug {
        pretty_string(&self.inner, R, C, Layout::RowFirst)
    }

    fn apply_all<F: Fn(&mut T)>(&mut self, f: F) {
        apply_to_all(&mut self.inner, &f)
    }
}

} // verus!
