//! The two ways of cutting a buffer into lines.
//!
//! A buffer of `count * len` cells is either cut into `count` stretches of
//! `len` cells, or into `len` strided lines of `count` cells that run across
//! those stretches. Either way every cell ends up in exactly one line.
use vstd::prelude::*;
use crate::layout::{stretch, strided};

verus! {

/// The stretches `from`, `from + 1`, ..., `count` of them, of a buffer cut
/// into stretches of `len` cells.
pub open spec fn stretches<T>(cells: Seq<T>, from: int, count: nat, len: nat) -> Seq<Seq<T>> {
    Seq::new(count, |k: int| stretch(cells, from + k, len))
}

/// The strided lines that start at `from`, `from + 1`, ..., `count` of them,
/// each with `len` elements that lie `stride` apart.
pub open spec fn strides<T>(cells: Seq<T>, from: int, count: nat, stride: int, len: nat) -> Seq<
    Seq<T>,
> {
    Seq::new(count, |k: int| strided(cells, from + k, stride, len))
}

/// Cutting the first stretch off a buffer moves every other stretch one
/// place forward.
pub proof fn lemma_stretches_after_split<T>(cells: Seq<T>, count: nat, len: nat)
    requires
        count > 0,
        cells.len() == count * len,
    ensures
        len <= cells.len(),
        cells.subrange(0, len as int) == stretches(cells, 0, count, len)[0],
        stretches(cells.subrange(len as int, cells.len() as int), 0, (count - 1) as nat, len)
            == stretches(cells, 0, count, len).drop_first(),
        cells.subrange(len as int, cells.len() as int).len() == (count - 1) * len,
{
    assert(count * len == (count - 1) * len + len && (count - 1) * len >= 0) by (nonlinear_arith)
        requires
            count > 0,
    ;
    let rest = cells.subrange(len as int, cells.len() as int);
    let left = stretches(rest, 0, (count - 1) as nat, len);
    let right = stretches(cells, 0, count, len).drop_first();
    assert(cells.subrange(0, len as int) =~= stretch(cells, 0, len));
    assert forall|k: int| 0 <= k < count - 1 implies #[trigger] left[k] == right[k] by {
        assert((k + 1) * len == k * len + len && 0 <= k * len && k * len + len <= (count - 1)
            * len) by (nonlinear_arith)
            requires
                0 <= k < count - 1,
        ;
        assert(stretch(rest, k, len) =~= stretch(cells, k + 1, len));
    }
    assert(left =~= right);
}

/// The stretches of a buffer, one after the other, are the buffer again.
pub proof fn lemma_stretches_flatten<T>(cells: Seq<T>, count: nat, len: nat)
    requires
        cells.len() == count * len,
    ensures
        stretches(cells, 0, count, len).flatten() == cells,
    decreases count,
{
    let lines = stretches(cells, 0, count, len);
    if count == 0 {
        assert(cells.len() == 0) by (nonlinear_arith)
            requires
                cells.len() == count * len,
                count == 0,
        ;
        assert(lines.flatten() =~= cells);
    } else {
        lemma_stretches_after_split(cells, count, len);
        let rest = cells.subrange(len as int, cells.len() as int);
        lemma_stretches_flatten(rest, (count - 1) as nat, len);
        assert(lines.flatten() == lines.first() + lines.drop_first().flatten());
        assert(cells.subrange(0, len as int) + rest =~= cells);
    }
}

/// Lines without elements flatten to nothing.
pub proof fn lemma_flatten_empty_lines<T>(lines: Seq<Seq<T>>)
    requires
        forall|j: int| 0 <= j < lines.len() ==> (#[trigger] lines[j]).len() == 0,
    ensures
        lines.flatten() == Seq::<T>::empty(),
    decreases lines.len(),
{
    if lines.len() > 0 {
        lemma_flatten_empty_lines(lines.drop_first());
        assert(lines.flatten() =~= lines.first() + lines.drop_first().flatten());
    }
}

/// Giving each of some lines one more element adds exactly those elements
/// to what the lines hold together.
pub proof fn lemma_flatten_push_each<T>(lines: Seq<Seq<T>>, more: Seq<T>)
    requires
        lines.len() == more.len(),
    ensures
        Seq::new(lines.len(), |j: int| lines[j].push(more[j])).flatten().to_multiset()
            == lines.flatten().to_multiset().add(more.to_multiset()),
    decreases lines.len(),
{
    broadcast use vstd::seq_lib::group_to_multiset_ensures;

    let longer = Seq::new(lines.len(), |j: int| lines[j].push(more[j]));
    if lines.len() == 0 {
        assert(more =~= Seq::<T>::empty());
        assert(longer =~= lines);
        assert(lines.flatten().to_multiset().add(more.to_multiset())
            =~= lines.flatten().to_multiset());
    } else {
        let front = lines.drop_last();
        let front_more = more.drop_last();
        let front_longer = Seq::new(front.len(), |j: int| front[j].push(front_more[j]));
        lemma_flatten_push_each(front, front_more);
        assert(longer =~= front_longer.push(lines.last().push(more.last())));
        assert(lines =~= front.push(lines.last()));
        assert(more =~= front_more.push(more.last()));
        front_longer.lemma_flatten_push(lines.last().push(more.last()));
        front.lemma_flatten_push(lines.last());
        vstd::seq_lib::lemma_multiset_commutative(
            front_longer.flatten(),
            lines.last().push(more.last()),
        );
        vstd::seq_lib::lemma_multiset_commutative(front.flatten(), lines.last());
        assert(longer.flatten().to_multiset() =~= lines.flatten().to_multiset().add(
            more.to_multiset(),
        ));
    }
}

/// The strided lines that run across a buffer hold every cell of the buffer
/// exactly once.
pub proof fn lemma_strides_flatten<T>(cells: Seq<T>, stride: nat, len: nat)
    requires
        cells.len() == len * stride,
    ensures
        strides(cells, 0, stride, stride as int, len).flatten().to_multiset()
            == cells.to_multiset(),
    decreases len,
{
    broadcast use vstd::seq_lib::group_to_multiset_ensures;

    let lines = strides(cells, 0, stride, stride as int, len);
    if len == 0 {
        assert(cells.len() == 0) by (nonlinear_arith)
            requires
                cells.len() == len * stride,
                len == 0,
        ;
        lemma_flatten_empty_lines(lines);
        assert(cells =~= Seq::<T>::empty());
    } else {
        assert(len * stride == (len - 1) * stride + stride && (len - 1) * stride >= 0)
            by (nonlinear_arith)
            requires
                len > 0,
        ;
        let cut = (len - 1) * stride;
        let head = cells.subrange(0, cut);
        let last = cells.subrange(cut, cells.len() as int);
        let shorter = strides(head, 0, stride, stride as int, (len - 1) as nat);
        lemma_strides_flatten(head, stride, (len - 1) as nat);
        lemma_flatten_push_each(shorter, last);
        assert forall|j: int| 0 <= j < stride implies #[trigger] lines[j] == shorter[j].push(
            last[j],
        ) by {
            let longer = shorter[j].push(last[j]);
            assert forall|k: int| 0 <= k < len implies #[trigger] lines[j][k] == longer[k] by {
                if k < len - 1 {
                    assert(0 <= k * stride && j + k * stride < (len - 1) * stride)
                        by (nonlinear_arith)
                        requires
                            0 <= k < len - 1,
                            0 <= j < stride,
                    ;
                }
            }
            assert(lines[j] =~= longer);
        }
        assert(lines =~= Seq::new(shorter.len(), |j: int| shorter[j].push(last[j])));
        assert(head + last =~= cells);
        vstd::seq_lib::lemma_multiset_commutative(head, last);
    }
}

/// One strided line more starts one cell further on.
pub proof fn lemma_strides_drop_first<T>(
    cells: Seq<T>,
    from: int,
    count: nat,
    stride: int,
    len: nat,
)
    requires
        count > 0,
    ensures
        strides(cells, from, count, stride, len)[0] == strided(cells, from, stride, len),
        strides(cells, from + 1, (count - 1) as nat, stride, len) == strides(
            cells,
            from,
            count,
            stride,
            len,
        ).drop_first(),
{
    assert(strides(cells, from + 1, (count - 1) as nat, stride, len) =~= strides(
        cells,
        from,
        count,
        stride,
        len,
    ).drop_first());
}

/// The strided line that starts at `start`, below the stride, ends inside a
/// buffer of `stride * len` cells.
pub proof fn lemma_stride_fits(start: int, stride: int, len: int)
    requires
        0 <= start < stride,
        0 < len,
    ensures
        start + (len - 1) * stride < stride * len,
{
    assert(start + (len - 1) * stride < stride * len) by (nonlinear_arith)
        requires
            0 <= start < stride,
            0 < len,
    ;
}

} // verus!
