//! Iterators over all rows or all columns of a matrix.
//!
//! Each iterator hands out the lines of one axis in ascending order and then
//! reports `None`. What an iterator still has to hand out is its
//! `remaining()`: the sequence of the views of the lines to come.
use vstd::prelude::*;
use crate::line::{IntermittentSlice, IntermittentSliceMut};
use crate::partition::{
    lemma_stretches_after_split, lemma_stride_fits, lemma_strides_drop_first, stretches, strides,
};

verus! {

/// Iterator over the contiguous lines of a matrix: the rows of a row first
/// matrix, the columns of a column first one.
pub struct IterSlices<'a, T> {
    matrix_buffer: &'a [T],
    len: usize,
    lines: usize,
}

impl<'a, T> IterSlices<'a, T> {
    #[verifier::type_invariant]
    spec fn inv(self) -> bool {
        self.matrix_buffer@.len() == self.lines * self.len
    }

    /// The views of the lines still to come, in the order in which they
    /// come.
    pub closed spec fn remaining(&self) -> Seq<Seq<T>> {
        stretches(self.matrix_buffer@, 0, self.lines as nat, self.len as nat)
    }

    /// The iterator over the `lines` stretches of `len` cells that make up
    /// `buffer`.
    pub(crate) fn new(buffer: &'a [T], len: usize, lines: usize) -> (it: Self)
        requires
            buffer@.len() == lines * len,
        ensures
            it.remaining() == stretches(buffer@, 0, lines as nat, len as nat),
    {
        IterSlices { matrix_buffer: buffer, len, lines }
    }

    /// The next line, or `None` once all have been handed out.
    pub fn next(&mut self) -> (r: Option<&'a [T]>)
        ensures
            old(self).remaining().len() == 0 ==> {
                &&& r.is_none()
                &&& final(self).remaining() == old(self).remaining()
            },
            old(self).remaining().len() > 0 ==> {
                &&& r matches Some(line) && line@ == old(self).remaining()[0]
                &&& final(self).remaining() == old(self).remaining().drop_first()
            },
    {
        proof {
            use_type_invariant(&*self);
        }
        if self.lines == 0 {
            return None;
        }
        proof {
            lemma_stretches_after_split(self.matrix_buffer@, self.lines as nat, self.len as nat);
        }
        let (line, rest) = self.matrix_buffer.split_at(self.len);
        *self = IterSlices { matrix_buffer: rest, len: self.len, lines: self.lines - 1 };
        Some(line)
    }
}

/// Iterator over the contiguous lines of a matrix that hands each line out
/// for writing. The lines are cut off the buffer one by one, so no two of
/// them share a cell.
pub struct IterSlicesMut<'a, T> {
    /// The part of the buffer that holds the lines still to come.
    pub matrix_buffer: &'a mut [T],
    /// Number of cells of a line.
    pub len: usize,
    /// Number of lines still to come.
    pub lines: usize,
}

impl<'a, T> IterSlicesMut<'a, T> {
    /// The buffer holds exactly the lines still to come.
    pub open spec fn wf(&self) -> bool {
        self.matrix_buffer@.len() == self.lines * self.len
    }

    /// The views of the lines still to come, in the order in which they
    /// come.
    pub open spec fn remaining(&self) -> Seq<Seq<T>> {
        stretches(self.matrix_buffer@, 0, self.lines as nat, self.len as nat)
    }

    /// The next line, or `None` once all have been handed out. The buffer
    /// that the iterator was made over ends up as the line that was handed
    /// out, as its holder leaves it, followed by what becomes of the rest.
    pub fn next(&mut self) -> (r: Option<&'a mut [T]>)
        requires
            old(self).wf(),
        ensures
            final(self).wf(),
            final(self).len == old(self).len,
            old(self).lines == 0 ==> {
                &&& r.is_none()
                &&& final(self).lines == 0
                &&& final(self).matrix_buffer@ == old(self).matrix_buffer@
                &&& final(final(self).matrix_buffer)@ == final(old(self).matrix_buffer)@
            },
            old(self).lines > 0 ==> {
                &&& r.is_some()
                &&& r.unwrap()@ == old(self).remaining()[0]
                &&& final(self).lines == old(self).lines - 1
                &&& final(self).remaining() == old(self).remaining().drop_first()
                &&& final(old(self).matrix_buffer)@
                    == final(r.unwrap())@ + final(final(self).matrix_buffer)@
            },
    {
        if self.lines == 0 {
            return None;
        }
        proof {
            lemma_stretches_after_split(self.matrix_buffer@, self.lines as nat, self.len as nat);
        }
        let mut taken: &'a mut [T] = &mut [];
        core::mem::swap(&mut self.matrix_buffer, &mut taken);
        let (line, rest) = taken.split_at_mut(self.len);
        self.matrix_buffer = rest;
        self.lines = self.lines - 1;
        Some(line)
    }
}

/// Iterator over the strided lines of a matrix: the columns of a row first
/// matrix, the rows of a column first one.
pub struct IterIntermittentSlices<'a, T> {
    slice_index: usize,
    matrix_buffer: &'a [T],
    slices: usize,
    len: usize,
}

impl<'a, T> IterIntermittentSlices<'a, T> {
    #[verifier::type_invariant]
    spec fn inv(self) -> bool {
        &&& self.slice_index <= self.slices
        &&& self.matrix_buffer@.len() == self.slices * self.len
    }

    /// The views of the lines still to come, in the order in which they
    /// come.
    pub closed spec fn remaining(&self) -> Seq<Seq<T>> {
        strides(
            self.matrix_buffer@,
            self.slice_index as int,
            (self.slices - self.slice_index) as nat,
            self.slices as int,
            self.len as nat,
        )
    }

    /// The iterator over the `slices` strided lines of `len` elements each
    /// that run across `buffer`.
    pub(crate) fn new(buffer: &'a [T], slices: usize, len: usize) -> (it: Self)
        requires
            buffer@.len() == slices * len,
        ensures
            it.remaining() == strides(buffer@, 0, slices as nat, slices as int, len as nat),
    {
        IterIntermittentSlices { slice_index: 0, matrix_buffer: buffer, slices, len }
    }

    /// The next line, or `None` once all have been handed out.
    pub fn next(&mut self) -> (r: Option<IntermittentSlice<'a, T>>)
        ensures
            old(self).remaining().len() == 0 ==> {
                &&& r.is_none()
                &&& final(self).remaining() == old(self).remaining()
            },
            old(self).remaining().len() > 0 ==> {
                &&& r matches Some(line) && line@ == old(self).remaining()[0]
                &&& final(self).remaining() == old(self).remaining().drop_first()
            },
    {
        proof {
            use_type_invariant(&*self);
        }
        if self.slice_index >= self.slices {
            return None;
        }
        proof {
            if self.len > 0 {
                lemma_stride_fits(self.slice_index as int, self.slices as int, self.len as int);
            }
            lemma_strides_drop_first(
                self.matrix_buffer@,
                self.slice_index as int,
                (self.slices - self.slice_index) as nat,
                self.slices as int,
                self.len as nat,
            );
        }
        let line = IntermittentSlice::new(
            self.matrix_buffer,
            self.slice_index,
            self.slices,
            self.len,
        );
        self.slice_index = self.slice_index + 1;
        Some(line)
    }
}

/// Iterator over the strided lines of a matrix that hands each line out for
/// writing. A line is lent out until the next one is asked for, so no two of
/// them are ever held at once.
pub struct IterMutIntermittentSlices<'a, T> {
    /// Offset at which the next line starts.
    pub slice_index: usize,
    /// The buffer of the matrix.
    pub matrix_buffer: &'a mut [T],
    /// Number of lines, which is also the distance between two neighbours of
    /// a line.
    pub slices: usize,
    /// Number of elements of a line.
    pub len: usize,
}

impl<'a, T> IterMutIntermittentSlices<'a, T> {
    /// The walk has not left the buffer, and the buffer holds every line in
    /// full.
    pub open spec fn wf(&self) -> bool {
        &&& self.slice_index <= self.slices
        &&& self.matrix_buffer@.len() == self.slices * self.len
    }

    /// The views of the lines still to come, in the order in which they
    /// come.
    pub open spec fn remaining(&self) -> Seq<Seq<T>> {
        strides(
            self.matrix_buffer@,
            self.slice_index as int,
            (self.slices - self.slice_index) as nat,
            self.slices as int,
            self.len as nat,
        )
    }

    /// The next line, or `None` once all have been handed out. The line
    /// borrows the buffer; what its holder leaves in it is what the iterator
    /// goes on with.
    pub fn next(&mut self) -> (r: Option<IntermittentSliceMut<'_, T>>)
        requires
            old(self).wf(),
        ensures
            final(self).slices == old(self).slices,
            final(self).len == old(self).len,
            final(final(self).matrix_buffer)@ == final(old(self).matrix_buffer)@,
            old(self).remaining().len() == 0 ==> {
                &&& r.is_none()
                &&& final(self).slice_index == old(self).slice_index
                &&& final(self).matrix_buffer@ == old(self).matrix_buffer@
            },
            old(self).remaining().len() > 0 ==> {
                &&& r.is_some()
                &&& r.unwrap().wf()
                &&& r.unwrap()@ == old(self).remaining()[0]
                &&& r.unwrap().buffer@ == old(self).matrix_buffer@
                &&& r.unwrap().start == old(self).slice_index
                &&& r.unwrap().slices == old(self).slices
                &&& r.unwrap().len == old(self).len
                &&& final(self).slice_index == old(self).slice_index + 1
                &&& final(self).matrix_buffer@ == final(r.unwrap().buffer)@
            },
    {
        if self.slice_index >= self.slices {
            return None;
        }
        proof {
            if self.len > 0 {
                lemma_stride_fits(self.slice_index as int, self.slices as int, self.len as int);
            }
        }
        let start = self.slice_index;
        self.slice_index = start + 1;
        Some(
            IntermittentSliceMut {
                buffer: &mut *self.matrix_buffer,
                start,
                slices: self.slices,
                len: self.len,
            },
        )
    }
}

} // verus!
