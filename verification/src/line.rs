//! Strided views of one row or one column.
//!
//! A line that runs across the contiguous stretches of the buffer cannot be
//! handed out as a slice. It is handed out as a view that remembers where
//! the line starts, how far apart its elements lie, and how many there are.
use vstd::prelude::*;
use core::ops::Index;
use crate::error::MatrixError;
use crate::layout::{lemma_strided_in_range, lemma_strided_update, strided};

verus! {

/// Offset of element `index` of the line of `len` elements that starts at
/// `start` and steps by `slices` through a buffer of `size` cells.
fn place(size: usize, start: usize, slices: usize, len: usize, index: usize) -> (at: usize)
    requires
        index < len,
        start + (len - 1) * slices < size,
    ensures
        at == start + index * slices,
        at < size,
{
    proof {
        lemma_strided_in_range(start as int, slices as int, len as int, index as int, size as int);
    }
    start + index * slices
}

/// A read-only row or column whose elements are not contiguous in memory.
///
/// It can be indexed and iterated over. Its view is the sequence of its
/// elements.
pub struct IntermittentSlice<'a, T> {
    buffer: &'a [T],
    start: usize,
    slices: usize,
    len: usize,
}

impl<'a, T> View for IntermittentSlice<'a, T> {
    type V = Seq<T>;

    closed spec fn view(&self) -> Seq<T> {
        strided(self.buffer@, self.start as int, self.slices as int, self.len as nat)
    }
}

impl<'a, T> IntermittentSlice<'a, T> {
    #[verifier::type_invariant]
    spec fn inv(self) -> bool {
        self.len > 0 ==> self.start + (self.len - 1) * self.slices < self.buffer@.len()
    }

    /// The line of `len` elements of `buffer` that starts at `start` and
    /// steps by `slices`.
    pub(crate) fn new(buffer: &'a [T], start: usize, slices: usize, len: usize) -> (line: Self)
        requires
            len > 0 ==> start + (len - 1) * slices < buffer@.len(),
        ensures
            line@ == strided(buffer@, start as int, slices as int, len as nat),
    {
        IntermittentSlice { buffer, start, slices, len }
    }

    /// Number of elements of the line.
    pub fn len(&self) -> (n: usize)
        ensures
            n == self@.len(),
    {
        self.len
    }

    /// The element at `index`, or `IndexOutOfBounds` where the line has no
    /// such element.
    pub fn get(&self, index: usize) -> (r: Result<&'a T, MatrixError>)
        ensures
            index < self@.len() ==> r.is_ok() && *r.unwrap() == self@[index as int],
            index >= self@.len() ==> r matches Err(MatrixError::IndexOutOfBounds),
    {
        if index >= self.len {
            return Err(MatrixError::IndexOutOfBounds);
        }
        proof {
            use_type_invariant(self);
        }
        let at = place(self.buffer.len(), self.start, self.slices, self.len, index);
        Ok(&self.buffer[at])
    }

    /// The iterator over the elements of the line, first to last.
    pub fn into_iter(self) -> (it: IntermittentSliceIntoItterator<'a, T>)
        ensures
            it.remaining() == self@,
    {
        proof {
            use_type_invariant(&self);
        }
        let it = IntermittentSliceIntoItterator { row: self, index: 0 };
        assert(it.remaining() =~= self@);
        it
    }
}

impl<'a, T> Index<usize> for IntermittentSlice<'a, T> {
    type Output = T;

    /// The element at `index`, which must be below the length of the line.
    fn index(&self, index: usize) -> (element: &T)
        ensures
            *element == self@[index as int],
    {
        proof {
            use_type_invariant(self);
        }
        let at = place(self.buffer.len(), self.start, self.slices, self.len, index);
        &self.buffer[at]
    }
}

impl<'a, T> vstd::std_specs::core::IndexSpecImpl<usize> for IntermittentSlice<'a, T> {
    open spec fn index_req(&self, index: &usize) -> bool {
        *index < self@.len()
    }
}

/// Iterator over the elements of an [`IntermittentSlice`].
pub struct IntermittentSliceIntoItterator<'a, T> {
    row: IntermittentSlice<'a, T>,
    index: usize,
}

impl<'a, T> IntermittentSliceIntoItterator<'a, T> {
    #[verifier::type_invariant]
    spec fn inv(self) -> bool {
        self.index <= self.row.len
    }

    /// The elements still to come, in the order in which they come.
    pub closed spec fn remaining(&self) -> Seq<T> {
        self.row@.skip(self.index as int)
    }

    /// The next element of the line, or `None` once all have been handed
    /// out.
    pub fn next(&mut self) -> (r: Option<&'a T>)
        ensures
            old(self).remaining().len() == 0 ==> {
                &&& r.is_none()
                &&& final(self).remaining() == old(self).remaining()
            },
            old(self).remaining().len() > 0 ==> {
                &&& r.is_some()
                &&& *r.unwrap() == old(self).remaining()[0]
                &&& final(self).remaining() == old(self).remaining().drop_first()
            },
    {
        proof {
            use_type_invariant(&*self);
        }
        match self.row.get(self.index) {
            Ok(element) => {
                self.index = self.index + 1;
                assert(self.remaining() =~= old(self).remaining().drop_first());
                Some(element)
            },
            Err(_) => None,
        }
    }
}

/// A mutable row or column whose elements are not contiguous in memory.
///
/// It can be indexed and iterated over, and two of its elements can be
/// swapped. Its view is the sequence of its elements. The line borrows the
/// whole buffer of its matrix; its operations write to the elements of the
/// line only.
pub struct IntermittentSliceMut<'a, T> {
    /// The buffer of the matrix that the line belongs to.
    pub buffer: &'a mut [T],
    /// Offset of the first element of the line.
    pub start: usize,
    /// Distance between two neighbours of the line.
    pub slices: usize,
    /// Number of elements of the line.
    pub len: usize,
}

impl<'a, T> View for IntermittentSliceMut<'a, T> {
    type V = Seq<T>;

    open spec fn view(&self) -> Seq<T> {
        strided(self.buffer@, self.start as int, self.slices as int, self.len as nat)
    }
}

impl<'a, T> IntermittentSliceMut<'a, T> {
    /// The line steps forward and ends inside its buffer.
    pub open spec fn wf(&self) -> bool {
        &&& self.slices > 0
        &&& self.len > 0 ==> self.start + (self.len - 1) * self.slices < self.buffer@.len()
    }

    /// Where element `index` of the line sits in the buffer.
    pub open spec fn offset_of(&self, index: int) -> int {
        self.start + index * self.slices
    }

    /// Number of elements of the line.
    pub fn len(&self) -> (n: usize)
        ensures
            n == self@.len(),
    {
        self.len
    }

    /// The element at `index`, or `IndexOutOfBounds` where the line has no
    /// such element.
    pub fn get(&self, index: usize) -> (r: Result<&T, MatrixError>)
        requires
            self.wf(),
        ensures
            index < self@.len() ==> r.is_ok() && *r.unwrap() == self@[index as int],
            index >= self@.len() ==> r matches Err(MatrixError::IndexOutOfBounds),
    {
        if index >= self.len {
            return Err(MatrixError::IndexOutOfBounds);
        }
        let at = place(self.buffer.len(), self.start, self.slices, self.len, index);
        Ok(&self.buffer[at])
    }

    /// The element at `index` for writing, or `IndexOutOfBounds` where the
    /// line has no such element. What is written through the reference
    /// arrives at that element of the line, which is one cell of the buffer,
    /// and nowhere else.
    pub fn get_mut(&mut self, index: usize) -> (r: Result<&mut T, MatrixError>)
        requires
            old(self).wf(),
        ensures
            final(self).start == old(self).start,
            final(self).slices == old(self).slices,
            final(self).len == old(self).len,
            final(final(self).buffer)@ == final(old(self).buffer)@,
            index < old(self)@.len() ==> {
                &&& r.is_ok()
                &&& *r.unwrap() == old(self)@[index as int]
                &&& final(self)@ == old(self)@.update(index as int, *final(r.unwrap()))
                &&& final(self).buffer@ == old(self).buffer@.update(
                    old(self).offset_of(index as int),
                    *final(r.unwrap()),
                )
            },
            index >= old(self)@.len() ==> {
                &&& r matches Err(MatrixError::IndexOutOfBounds)
                &&& final(self).buffer@ == old(self).buffer@
            },
    {
        if index >= self.len {
            return Err(MatrixError::IndexOutOfBounds);
        }
        let at = place(self.buffer.len(), self.start, self.slices, self.len, index);
        proof {
            assert forall|value: T| #[trigger]
                strided(
                    self.buffer@.update(at as int, value),
                    self.start as int,
                    self.slices as int,
                    self.len as nat,
                ) == self@.update(index as int, value) by {
                lemma_strided_update(
                    self.buffer@,
                    self.start as int,
                    self.slices as int,
                    self.len as nat,
                    index as int,
                    value,
                );
            }
        }
        Ok(&mut self.buffer[at])
    }

    /// Exchanges the elements at `a` and `b`, or reports `IndexOutOfBounds`
    /// and changes nothing where one of them is not below the length. No
    /// other cell of the buffer changes.
    pub fn swap(&mut self, a: usize, b: usize) -> (r: Result<(), MatrixError>)
        requires
            old(self).wf(),
        ensures
            final(self).start == old(self).start,
            final(self).slices == old(self).slices,
            final(self).len == old(self).len,
            final(final(self).buffer)@ == final(old(self).buffer)@,
            a < old(self)@.len() && b < old(self)@.len() ==> {
                &&& r.is_ok()
                &&& final(self)@ == old(self)@.update(a as int, old(self)@[b as int]).update(
                    b as int,
                    old(self)@[a as int],
                )
                &&& final(self).buffer@ == old(self).buffer@.update(
                    old(self).offset_of(a as int),
                    old(self)@[b as int],
                ).update(old(self).offset_of(b as int), old(self)@[a as int])
            },
            !(a < old(self)@.len() && b < old(self)@.len()) ==> {
                &&& r matches Err(MatrixError::IndexOutOfBounds)
                &&& final(self).buffer@ == old(self).buffer@
            },
    {
        if a >= self.len || b >= self.len {
            return Err(MatrixError::IndexOutOfBounds);
        }
        let at_a = place(self.buffer.len(), self.start, self.slices, self.len, a);
        let at_b = place(self.buffer.len(), self.start, self.slices, self.len, b);
        proof {
            let first = self.buffer@.update(at_a as int, self@[b as int]);
            lemma_strided_update(
                self.buffer@,
                self.start as int,
                self.slices as int,
                self.len as nat,
                a as int,
                self@[b as int],
            );
            lemma_strided_update(
                first,
                self.start as int,
                self.slices as int,
                self.len as nat,
                b as int,
                self@[a as int],
            );
        }
        if at_a < at_b {
            let (left, right) = self.buffer.split_at_mut(at_b);
            core::mem::swap(&mut left[at_a], &mut right[0]);
        } else if at_b < at_a {
            let (left, right) = self.buffer.split_at_mut(at_a);
            core::mem::swap(&mut left[at_b], &mut right[0]);
        }
        assert(self.buffer@ =~= old(self).buffer@.update(
            at_a as int,
            old(self)@[b as int],
        ).update(at_b as int, old(self)@[a as int]));
        Ok(())
    }

    /// The iterator over the elements of the line, first to last.
    pub fn into_iter(self) -> (it: IntermittentSliceMutIntoItterator<'a, T>)
        requires
            self.wf(),
        ensures
            it.wf(),
            it.index == 0,
            it.row == self,
            it.remaining() == self@,
    {
        let it = IntermittentSliceMutIntoItterator { row: self, index: 0 };
        assert(it.remaining() =~= it.row@);
        it
    }
}

impl<'a, T> Index<usize> for IntermittentSliceMut<'a, T> {
    type Output = T;

    /// The element at `index`, which must be below the length of the line.
    fn index(&self, index: usize) -> (element: &T)
        ensures
            *element == self@[index as int],
    {
        let at = place(self.buffer.len(), self.start, self.slices, self.len, index);
        &self.buffer[at]
    }
}

impl<'a, T> vstd::std_specs::core::IndexSpecImpl<usize> for IntermittentSliceMut<'a, T> {
    open spec fn index_req(&self, index: &usize) -> bool {
        self.wf() && *index < self@.len()
    }
}

/// Iterator over the elements of an [`IntermittentSliceMut`]. Each element
/// is lent out until the next one is asked for.
pub struct IntermittentSliceMutIntoItterator<'a, T> {
    /// The line that is walked.
    pub row: IntermittentSliceMut<'a, T>,
    /// Place of the element that comes next.
    pub index: usize,
}

impl<'a, T> IntermittentSliceMutIntoItterator<'a, T> {
    /// The line is well formed and the walk has not left it.
    pub open spec fn wf(&self) -> bool {
        &&& self.row.wf()
        &&& self.index <= self.row.len
    }

    /// The elements still to come, in the order in which they come.
    pub open spec fn remaining(&self) -> Seq<T> {
        self.row@.skip(self.index as int)
    }

    /// The next element of the line, or `None` once all have been handed
    /// out. What is written through the reference arrives at that element
    /// of the line and nowhere else.
    pub fn next(&mut self) -> (r: Option<&mut T>)
        requires
            old(self).wf(),
        ensures
            final(self).row.start == old(self).row.start,
            final(self).row.slices == old(self).row.slices,
            final(self).row.len == old(self).row.len,
            final(final(self).row.buffer)@ == final(old(self).row.buffer)@,
            old(self).remaining().len() == 0 ==> {
                &&& r.is_none()
                &&& final(self).index == old(self).index
                &&& final(self).row.buffer@ == old(self).row.buffer@
            },
            old(self).remaining().len() > 0 ==> {
                &&& r.is_some()
                &&& *r.unwrap() == old(self).remaining()[0]
                &&& final(self).index == old(self).index + 1
                &&& final(self).remaining() == old(self).remaining().drop_first()
                &&& final(self).row@ == old(self).row@.update(
                    old(self).index as int,
                    *final(r.unwrap()),
                )
                &&& final(self).row.buffer@ == old(self).row.buffer@.update(
                    old(self).row.offset_of(old(self).index as int),
                    *final(r.unwrap()),
                )
            },
    {
        if self.index >= self.row.len {
            return None;
        }
        let index = self.index;
        self.index = index + 1;
        proof {
            let line = self.row@;
            assert forall|value: T| #[trigger]
                line.update(index as int, value).skip(index + 1) == line.skip(
                    index as int,
                ).drop_first() by {
                assert(line.update(index as int, value).skip(index + 1) =~= line.skip(
                    index as int,
                ).drop_first());
            }
        }
        match self.row.get_mut(index) {
            Ok(element) => Some(element),
            Err(_) => None,
        }
    }
}

} // verus!
