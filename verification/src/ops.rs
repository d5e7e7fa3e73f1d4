//! The matrix operations on a borrowed buffer with given dimensions.
//!
//! Every matrix type answers its operations by lending its buffer to one of
//! these functions, together with its dimensions and its layout. A line that
//! is contiguous under the layout is called native here, the other one
//! foreign.
use vstd::prelude::*;
use crate::buffer::{fill_stretch, fill_strided, stretch_of, stretch_of_mut};
use crate::error::MatrixError;
use crate::grid::{grid_of, Layout};
use crate::layout::with_stretch;
use crate::line::{IntermittentSlice, IntermittentSliceMut};
use crate::lines::{
    IterIntermittentSlices, IterMutIntermittentSlices, IterSlices, IterSlicesMut,
};
use crate::partition::lemma_stride_fits;

verus! {

/// Number and length of the native lines of a matrix of `rows` by `cols`
/// cells.
fn native_dims(rows: usize, cols: usize, layout: Layout) -> (dims: (usize, usize))
    ensures
        layout == Layout::RowFirst ==> dims == (rows, cols),
        layout == Layout::ColumnFirst ==> dims == (cols, rows),
{
    match layout {
        Layout::RowFirst => (rows, cols),
        Layout::ColumnFirst => (cols, rows),
    }
}

/// Offset of the cell `(row, col)`, which must be a cell of the matrix.
pub(crate) fn offset_at<T>(
    buffer: &[T],
    rows: usize,
    cols: usize,
    layout: Layout,
    row: usize,
    col: usize,
) -> (at: usize)
    requires
        grid_of(buffer@, rows, cols).wf(),
        row < rows,
        col < cols,
    ensures
        at == grid_of(buffer@, rows, cols).offset_of(layout, row as int, col as int),
        at < buffer@.len(),
{
    proof {
        assert(buffer@.len() == buffer.len());
        grid_of(buffer@, rows, cols).lemma_offset_bounds(layout, row as int, col as int);
        assert(0 <= row * cols && 0 <= col * rows) by (nonlinear_arith);
    }
    match layout {
        Layout::RowFirst => row * cols + col,
        Layout::ColumnFirst => col * rows + row,
    }
}

/// The cell at `(row, col)`.
pub(crate) fn get<'a, T>(
    buffer: &'a [T],
    rows: usize,
    cols: usize,
    layout: Layout,
    row: usize,
    col: usize,
) -> (r: Result<&'a T, MatrixError>)
    requires
        grid_of(buffer@, rows, cols).wf(),
    ensures
        row < rows && col < cols ==> (r matches Ok(cell) && *cell == grid_of(
            buffer@,
            rows,
            cols,
        ).at(layout, row as int, col as int)),
        !(row < rows && col < cols) ==> r matches Err(MatrixError::IndexOutOfBounds),
{
    if row >= rows || col >= cols {
        return Err(MatrixError::IndexOutOfBounds);
    }
    let at = offset_at(buffer, rows, cols, layout, row, col);
    Ok(&buffer[at])
}

/// The cell at `(row, col)` for writing.
pub(crate) fn get_mut<'a, T>(
    buffer: &'a mut [T],
    rows: usize,
    cols: usize,
    layout: Layout,
    row: usize,
    col: usize,
) -> (r: Result<&'a mut T, MatrixError>)
    requires
        grid_of(old(buffer)@, rows, cols).wf(),
    ensures
        final(buffer)@.len() == old(buffer)@.len(),
        row < rows && col < cols ==> {
            &&& r.is_ok()
            &&& *r.unwrap() == grid_of(old(buffer)@, rows, cols).at(layout, row as int, col as int)
            &&& grid_of(final(buffer)@, rows, cols) == grid_of(old(buffer)@, rows, cols).put(
                layout,
                row as int,
                col as int,
                *final(r.unwrap()),
            )
        },
        !(row < rows && col < cols) ==> {
            &&& r matches Err(MatrixError::IndexOutOfBounds)
            &&& final(buffer)@ == old(buffer)@
        },
{
    if row >= rows || col >= cols {
        return Err(MatrixError::IndexOutOfBounds);
    }
    let at = offset_at(buffer, rows, cols, layout, row, col);
    Ok(&mut buffer[at])
}

/// Writes `value` to the cell at `(row, col)`.
pub(crate) fn insert<T>(
    buffer: &mut [T],
    rows: usize,
    cols: usize,
    layout: Layout,
    row: usize,
    col: usize,
    value: T,
) -> (r: Result<(), MatrixError>)
    requires
        grid_of(old(buffer)@, rows, cols).wf(),
    ensures
        final(buffer)@.len() == old(buffer)@.len(),
        row < rows && col < cols ==> {
            &&& r.is_ok()
            &&& grid_of(final(buffer)@, rows, cols) == grid_of(old(buffer)@, rows, cols).put(
                layout,
                row as int,
                col as int,
                value,
            )
        },
        !(row < rows && col < cols) ==> {
            &&& r matches Err(MatrixError::IndexOutOfBounds)
            &&& final(buffer)@ == old(buffer)@
        },
{
    if row >= rows || col >= cols {
        return Err(MatrixError::IndexOutOfBounds);
    }
    let at = offset_at(buffer, rows, cols, layout, row, col);
    buffer[at] = value;
    Ok(())
}

/// Overwrites the native line `index` with `data`.
pub(crate) fn fill_native<T: Copy>(
    buffer: &mut [T],
    rows: usize,
    cols: usize,
    layout: Layout,
    index: usize,
    data: &[T],
) -> (r: Result<(), MatrixError>)
    requires
        grid_of(old(buffer)@, rows, cols).wf(),
    ensures
        data@.len() != grid_of(old(buffer)@, rows, cols).native_len(layout) ==> {
            &&& r matches Err(MatrixError::LengthMismatch)
            &&& final(buffer)@ == old(buffer)@
        },
        data@.len() == grid_of(old(buffer)@, rows, cols).native_len(layout) && index >= grid_of(
            old(buffer)@,
            rows,
            cols,
        ).native_count(layout) ==> {
            &&& r matches Err(MatrixError::IndexOutOfBounds)
            &&& final(buffer)@ == old(buffer)@
        },
        data@.len() == grid_of(old(buffer)@, rows, cols).native_len(layout) && index < grid_of(
            old(buffer)@,
            rows,
            cols,
        ).native_count(layout) ==> {
            &&& r.is_ok()
            &&& grid_of(final(buffer)@, rows, cols) == grid_of(
                old(buffer)@,
                rows,
                cols,
            ).put_native(layout, index as int, data@)
        },
{
    let (count, len) = native_dims(rows, cols, layout);
    if data.len() != len {
        return Err(MatrixError::LengthMismatch);
    }
    if index >= count {
        return Err(MatrixError::IndexOutOfBounds);
    }
    proof {
        let grid = grid_of(buffer@, rows, cols);
        grid.lemma_lines_in_buffer(layout);
        grid.lemma_put_line_in_buffer(layout, index as int, data@);
        assert(index * len + len <= count * len) by (nonlinear_arith)
            requires
                index < count,
        ;
    }
    fill_stretch(buffer, index, len, data);
    Ok(())
}

/// Overwrites the foreign line `index` with `data`.
pub(crate) fn fill_foreign<T: Copy>(
    buffer: &mut [T],
    rows: usize,
    cols: usize,
    layout: Layout,
    index: usize,
    data: &[T],
) -> (r: Result<(), MatrixError>)
    requires
        grid_of(old(buffer)@, rows, cols).wf(),
    ensures
        data@.len() != grid_of(old(buffer)@, rows, cols).native_count(layout) ==> {
            &&& r matches Err(MatrixError::LengthMismatch)
            &&& final(buffer)@ == old(buffer)@
        },
        data@.len() == grid_of(old(buffer)@, rows, cols).native_count(layout) && index >= grid_of(
            old(buffer)@,
            rows,
            cols,
        ).native_len(layout) ==> {
            &&& r matches Err(MatrixError::IndexOutOfBounds)
            &&& final(buffer)@ == old(buffer)@
        },
        data@.len() == grid_of(old(buffer)@, rows, cols).native_count(layout) && index < grid_of(
            old(buffer)@,
            rows,
            cols,
        ).native_len(layout) ==> {
            &&& r.is_ok()
            &&& grid_of(final(buffer)@, rows, cols) == grid_of(
                old(buffer)@,
                rows,
                cols,
            ).put_foreign(layout, index as int, data@)
        },
{
    let (count, len) = native_dims(rows, cols, layout);
    if data.len() != count {
        return Err(MatrixError::LengthMismatch);
    }
    if index >= len {
        return Err(MatrixError::IndexOutOfBounds);
    }
    proof {
        let grid = grid_of(buffer@, rows, cols);
        grid.lemma_lines_in_buffer(layout);
        grid.lemma_put_line_in_buffer(layout, index as int, data@);
        if count > 0 {
            lemma_stride_fits(index as int, len as int, count as int);
        }
        assert(len * count == count * len) by (nonlinear_arith);
    }
    fill_strided(buffer, index, len, data);
    Ok(())
}

/// The native line `index`.
pub(crate) fn native_line<'a, T>(
    buffer: &'a [T],
    rows: usize,
    cols: usize,
    layout: Layout,
    index: usize,
) -> (r: Result<&'a [T], MatrixError>)
    requires
        grid_of(buffer@, rows, cols).wf(),
    ensures
        index < grid_of(buffer@, rows, cols).native_count(layout) ==> (r matches Ok(line) && line@
            == grid_of(buffer@, rows, cols).native_line(layout, index as int)),
        index >= grid_of(buffer@, rows, cols).native_count(layout) ==> r matches Err(
            MatrixError::IndexOutOfBounds,
        ),
{
    let (count, len) = native_dims(rows, cols, layout);
    if index >= count {
        return Err(MatrixError::IndexOutOfBounds);
    }
    proof {
        grid_of(buffer@, rows, cols).lemma_lines_in_buffer(layout);
        assert(index * len + len <= count * len) by (nonlinear_arith)
            requires
                index < count,
        ;
    }
    Ok(stretch_of(buffer, index, len))
}

/// The native line `index` for writing.
pub(crate) fn native_line_mut<'a, T>(
    buffer: &'a mut [T],
    rows: usize,
    cols: usize,
    layout: Layout,
    index: usize,
) -> (r: Result<&'a mut [T], MatrixError>)
    requires
        grid_of(old(buffer)@, rows, cols).wf(),
    ensures
        index < grid_of(old(buffer)@, rows, cols).native_count(layout) ==> {
            &&& r.is_ok()
            &&& r.unwrap()@ == grid_of(old(buffer)@, rows, cols).native_line(layout, index as int)
            &&& final(buffer)@ == with_stretch(
                old(buffer)@,
                index as int,
                grid_of(old(buffer)@, rows, cols).native_len(layout),
                final(r.unwrap())@,
            )
            &&& final(r.unwrap())@.len() == r.unwrap()@.len() ==> grid_of(
                final(buffer)@,
                rows,
                cols,
            ) == grid_of(old(buffer)@, rows, cols).put_native(
                layout,
                index as int,
                final(r.unwrap())@,
            )
        },
        index >= grid_of(old(buffer)@, rows, cols).native_count(layout) ==> {
            &&& r matches Err(MatrixError::IndexOutOfBounds)
            &&& final(buffer)@ == old(buffer)@
        },
{
    let (count, len) = native_dims(rows, cols, layout);
    if index >= count {
        return Err(MatrixError::IndexOutOfBounds);
    }
    proof {
        grid_of(buffer@, rows, cols).lemma_lines_in_buffer(layout);
        assert(index * len + len <= count * len) by (nonlinear_arith)
            requires
                index < count,
        ;
    }
    let line = stretch_of_mut(buffer, index, len);
    proof {
        grid_of(old(buffer)@, rows, cols).lemma_put_line_in_buffer(
            layout,
            index as int,
            final(line)@,
        );
    }
    Ok(line)
}

/// The foreign line `index`.
pub(crate) fn foreign_line<'a, T>(
    buffer: &'a [T],
    rows: usize,
    cols: usize,
    layout: Layout,
    index: usize,
) -> (r: Result<IntermittentSlice<'a, T>, MatrixError>)
    requires
        grid_of(buffer@, rows, cols).wf(),
    ensures
        index < grid_of(buffer@, rows, cols).native_len(layout) ==> (r matches Ok(line) && line@
            == grid_of(buffer@, rows, cols).foreign_line(layout, index as int)),
        index >= grid_of(buffer@, rows, cols).native_len(layout) ==> r matches Err(
            MatrixError::IndexOutOfBounds,
        ),
{
    let (count, len) = native_dims(rows, cols, layout);
    if index >= len {
        return Err(MatrixError::IndexOutOfBounds);
    }
    proof {
        grid_of(buffer@, rows, cols).lemma_lines_in_buffer(layout);
        if count > 0 {
            lemma_stride_fits(index as int, len as int, count as int);
        }
        assert(len * count == count * len) by (nonlinear_arith);
    }
    Ok(IntermittentSlice::new(buffer, index, len, count))
}

/// The foreign line `index` for writing. The line borrows the whole buffer.
pub(crate) fn foreign_line_mut<'a, T>(
    buffer: &'a mut [T],
    rows: usize,
    cols: usize,
    layout: Layout,
    index: usize,
) -> (r: Result<IntermittentSliceMut<'a, T>, MatrixError>)
    requires
        grid_of(old(buffer)@, rows, cols).wf(),
    ensures
        index < grid_of(old(buffer)@, rows, cols).native_len(layout) ==> {
            &&& r.is_ok()
            &&& r.unwrap().wf()
            &&& r.unwrap()@ == grid_of(old(buffer)@, rows, cols).foreign_line(
                layout,
                index as int,
            )
            &&& r.unwrap().buffer@ == old(buffer)@
            &&& r.unwrap().start == index
            &&& r.unwrap().slices == grid_of(old(buffer)@, rows, cols).native_len(layout)
            &&& r.unwrap().len == grid_of(old(buffer)@, rows, cols).native_count(layout)
            &&& final(buffer)@ == final(r.unwrap().buffer)@
        },
        index >= grid_of(old(buffer)@, rows, cols).native_len(layout) ==> {
            &&& r matches Err(MatrixError::IndexOutOfBounds)
            &&& final(buffer)@ == old(buffer)@
        },
{
    let (count, len) = native_dims(rows, cols, layout);
    if index >= len {
        return Err(MatrixError::IndexOutOfBounds);
    }
    proof {
        grid_of(buffer@, rows, cols).lemma_lines_in_buffer(layout);
        if count > 0 {
            lemma_stride_fits(index as int, len as int, count as int);
        }
        assert(len * count == count * len) by (nonlinear_arith);
    }
    Ok(IntermittentSliceMut { buffer, start: index, slices: len, len: count })
}

/// The iterator over all native lines.
pub(crate) fn native_lines<'a, T>(
    buffer: &'a [T],
    rows: usize,
    cols: usize,
    layout: Layout,
) -> (it: IterSlices<'a, T>)
    requires
        grid_of(buffer@, rows, cols).wf(),
    ensures
        it.remaining() == grid_of(buffer@, rows, cols).native_lines(layout),
{
    let (count, len) = native_dims(rows, cols, layout);
    proof {
        grid_of(buffer@, rows, cols).lemma_lines_in_buffer(layout);
    }
    IterSlices::new(buffer, len, count)
}

/// The iterator over all native lines for writing.
pub(crate) fn native_lines_mut<'a, T>(
    buffer: &'a mut [T],
    rows: usize,
    cols: usize,
    layout: Layout,
) -> (it: IterSlicesMut<'a, T>)
    requires
        grid_of(old(buffer)@, rows, cols).wf(),
    ensures
        it.wf(),
        it.remaining() == grid_of(old(buffer)@, rows, cols).native_lines(layout),
        it.matrix_buffer@ == old(buffer)@,
        it.len == grid_of(old(buffer)@, rows, cols).native_len(layout),
        it.lines == grid_of(old(buffer)@, rows, cols).native_count(layout),
        final(buffer)@ == final(it.matrix_buffer)@,
{
    let (count, len) = native_dims(rows, cols, layout);
    proof {
        grid_of(buffer@, rows, cols).lemma_lines_in_buffer(layout);
    }
    IterSlicesMut { matrix_buffer: buffer, len, lines: count }
}

/// The iterator over all foreign lines.
pub(crate) fn foreign_lines<'a, T>(
    buffer: &'a [T],
    rows: usize,
    cols: usize,
    layout: Layout,
) -> (it: IterIntermittentSlices<'a, T>)
    requires
        grid_of(buffer@, rows, cols).wf(),
    ensures
        it.remaining() == grid_of(buffer@, rows, cols).foreign_lines(layout),
{
    let (count, len) = native_dims(rows, cols, layout);
    proof {
        grid_of(buffer@, rows, cols).lemma_lines_in_buffer(layout);
        assert(len * count == count * len) by (nonlinear_arith);
    }
    IterIntermittentSlices::new(buffer, len, count)
}

/// The iterator over all foreign lines for writing.
pub(crate) fn foreign_lines_mut<'a, T>(
    buffer: &'a mut [T],
    rows: usize,
    cols: usize,
    layout: Layout,
) -> (it: IterMutIntermittentSlices<'a, T>)
    requires
        grid_of(old(buffer)@, rows, cols).wf(),
    ensures
        it.wf(),
        it.remaining() == grid_of(old(buffer)@, rows, cols).foreign_lines(layout),
        it.matrix_buffer@ == old(buffer)@,
        it.slice_index == 0,
        it.slices == grid_of(old(buffer)@, rows, cols).native_len(layout),
        it.len == grid_of(old(buffer)@, rows, cols).native_count(layout),
        final(buffer)@ == final(it.matrix_buffer)@,
{
    let (count, len) = native_dims(rows, cols, layout);
    proof {
        grid_of(buffer@, rows, cols).lemma_lines_in_buffer(layout);
        assert(len * count == count * len) by (nonlinear_arith);
    }
    IterMutIntermittentSlices { slice_index: 0, matrix_buffer: buffer, slices: len, len: count }
}

} // verus!
