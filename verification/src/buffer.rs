//! The operations on a flat buffer that all matrix types share.
//!
//! A matrix type only decides where its buffer lives. Reading and writing a
//! contiguous stretch or a strided line of that buffer is the same for all
//! of them, and is done here on plain slices.
use vstd::prelude::*;
use crate::layout::{
    is_place, lemma_strided_in_range, lemma_strided_place, lemma_strided_place_converse, stretch,
    with_stretch, with_strided,
};

verus! {

/// The stretch `i` of `buffer`, where a stretch holds `len` cells.
pub(crate) fn stretch_of<'a, T>(buffer: &'a [T], i: usize, len: usize) -> (line: &'a [T])
    requires
        i * len + len <= buffer@.len(),
    ensures
        line@ == stretch(buffer@, i as int, len as nat),
{
    assert(buffer@.len() == buffer.len());
    assert(0 <= i * len) by (nonlinear_arith);
    let start = i * len;
    &buffer[start..start + len]
}

/// The stretch `i` of `buffer` for writing. The buffer ends up with that
/// stretch as its holder leaves it and every other cell as it was.
pub(crate) fn stretch_of_mut<'a, T>(
    buffer: &'a mut [T],
    i: usize,
    len: usize,
) -> (line: &'a mut [T])
    requires
        i * len + len <= old(buffer)@.len(),
    ensures
        line@ == stretch(old(buffer)@, i as int, len as nat),
        final(buffer)@ == with_stretch(old(buffer)@, i as int, len as nat, final(line)@),
{
    assert(buffer@.len() == buffer.len());
    assert(0 <= i * len) by (nonlinear_arith);
    let start = i * len;
    let (_, tail) = buffer.split_at_mut(start);
    let (line, _) = tail.split_at_mut(len);
    line
}

/// Overwrites the stretch `i` of `buffer` with `data`, element for element.
pub(crate) fn fill_stretch<T: Copy>(buffer: &mut [T], i: usize, len: usize, data: &[T])
    requires
        i * len + len <= old(buffer)@.len(),
        data@.len() == len,
    ensures
        final(buffer)@ == with_stretch(old(buffer)@, i as int, len as nat, data@),
{
    assert(buffer@.len() == buffer.len());
    assert(0 <= i * len) by (nonlinear_arith);
    let start = i * len;
    let mut j: usize = 0;
    while j < len
        invariant
            j <= len,
            start == i * len,
            start + len <= buffer@.len(),
            data@.len() == len,
            buffer@.len() == old(buffer)@.len(),
            buffer@.len() <= usize::MAX,
            forall|k: int|
                0 <= k < buffer@.len() ==> buffer@[k] == if start <= k < start + j {
                    data@[k - start]
                } else {
                    old(buffer)@[k]
                },
        decreases len - j,
    {
        buffer[start + j] = data[j];
        j += 1;
    }
    assert(buffer@ =~= with_stretch(old(buffer)@, i as int, len as nat, data@));
}

/// Overwrites the cells of `buffer` at `start`, `start + stride`, ... with
/// the elements of `data`, in order.
pub(crate) fn fill_strided<T: Copy>(buffer: &mut [T], start: usize, stride: usize, data: &[T])
    requires
        stride > 0,
        data@.len() > 0 ==> start + (data@.len() - 1) * stride < old(buffer)@.len(),
    ensures
        final(buffer)@ == with_strided(old(buffer)@, start as int, stride as int, data@),
{
    assert(buffer@.len() == buffer.len());
    let len = data.len();
    let mut j: usize = 0;
    assert(buffer@ =~= with_strided(old(buffer)@, start as int, stride as int, data@.take(0)));
    while j < len
        invariant
            j <= len,
            stride > 0,
            len == data@.len(),
            len > 0 ==> start + (len - 1) * stride < buffer@.len(),
            buffer@.len() == old(buffer)@.len(),
            buffer@.len() <= usize::MAX,
            buffer@ == with_strided(
                old(buffer)@,
                start as int,
                stride as int,
                data@.take(j as int),
            ),
        decreases len - j,
    {
        proof {
            lemma_strided_in_range(
                start as int,
                stride as int,
                len as int,
                j as int,
                buffer@.len() as int,
            );
        }
        let at = start + j * stride;
        buffer[at] = data[j];
        proof {
            let next = with_strided(
                old(buffer)@,
                start as int,
                stride as int,
                data@.take(j + 1),
            );
            assert forall|k: int| 0 <= k < buffer@.len() implies buffer@[k] == next[k] by {
                lemma_strided_place(start as int, stride as int, j as int);
                if k != at && k >= start && (k - start) % (stride as int) == 0 {
                    lemma_strided_place_converse(start as int, stride as int, k);
                }
            }
            assert(buffer@ =~= next);
        }
        j += 1;
    }
    assert(data@.take(len as int) =~= data@);
}

/// Runs `f` on every cell of `buffer`, in memory order. Each cell ends up
/// as one run of `f` leaves it; a function that changes nothing leaves the
/// buffer as it was.
pub(crate) fn apply_to_all<T, F: Fn(&mut T)>(buffer: &mut [T], f: &F)
    requires
        forall|k: int, cell: &mut T|
            is_place(old(buffer)@, k) && *cell == old(buffer)@[k] ==> call_requires(
                *f,
                (cell,),
            ),
    ensures
        final(buffer)@.len() == old(buffer)@.len(),
        forall|k: int|
            #![trigger is_place(old(buffer)@, k)]
            #![trigger final(buffer)@[k]]
            is_place(old(buffer)@, k) ==> exists|cell: &mut T|
                #![trigger call_ensures(*f, (cell,), ())]
                *cell == old(buffer)@[k] && *final(cell) == final(buffer)@[k] && call_ensures(
                    *f,
                    (cell,),
                    (),
                ),
        (forall|cell: &mut T| #[trigger] call_ensures(*f, (cell,), ()) ==> *final(cell) == *cell)
            ==> final(buffer)@ == old(buffer)@,
{
    let n: usize = buffer.len();
    let mut k: usize = 0;
    while k < n
        invariant
            k <= n,
            n == buffer@.len(),
            n == old(buffer)@.len(),
            forall|j: int, cell: &mut T|
                is_place(old(buffer)@, j) && *cell == old(buffer)@[j] ==> call_requires(
                    *f,
                    (cell,),
                ),
            forall|j: int|
                #![trigger is_place(old(buffer)@, j)]
                is_place(old(buffer)@, j) && j < k ==> exists|cell: &mut T|
                    #![trigger call_ensures(*f, (cell,), ())]
                    *cell == old(buffer)@[j] && *final(cell) == buffer@[j] && call_ensures(
                        *f,
                        (cell,),
                        (),
                    ),
            forall|j: int| k <= j < n ==> buffer@[j] == old(buffer)@[j],
            (forall|cell: &mut T|
                #[trigger] call_ensures(*f, (cell,), ()) ==> *final(cell) == *cell) ==> buffer@
                == old(buffer)@,
        decreases n - k,
    {
        assert(is_place(old(buffer)@, k as int));
        let ghost before = buffer@;
        f(&mut buffer[k]);
        assert((forall|cell: &mut T|
            #[trigger] call_ensures(*f, (cell,), ()) ==> *final(cell) == *cell) ==> buffer@
            =~= before);
        k += 1;
    }
}

} // verus!
