//! The two memory layouts, and the arithmetic of offsets that both rest on.
//!
//! A buffer of `lines * len` cells is cut into `lines` consecutive stretches
//! of `len` cells each. Cell `j` of stretch `i` sits at offset `i * len + j`.
//! Under the row first layout a stretch is a row; under the column first
//! layout it is a column. The other axis runs across the stretches: its line
//! `j` visits the offsets `j`, `j + len`, `j + 2 * len`, and so on.
use vstd::prelude::*;

verus! {

/// Column first layout: the cell at `(row, col)` sits at offset
/// `col * rows + row`. Columns are contiguous, rows are strided.
///
/// The buffer `[1, 1, 1, 1, 2, 2, 2, 2, 3, 3, 3, 3, 4, 4, 4, 4]` read as a
/// four by four matrix has `[1, 2, 3, 4]` in every row.
#[derive(Debug, Clone, Copy)]
pub struct ColumnPrio;

/// Row first layout: the cell at `(row, col)` sits at offset
/// `row * cols + col`. Rows are contiguous, columns are strided.
///
/// The buffer `[1, 1, 1, 1, 2, 2, 2, 2, 3, 3, 3, 3, 4, 4, 4, 4]` read as a
/// four by four matrix has `[1, 2, 3, 4]` in every column.
#[derive(Debug, Clone, Copy)]
pub struct RowPrio;

/// `k` is a place of the buffer `cells`.
pub open spec fn is_place<T>(cells: Seq<T>, k: int) -> bool {
    0 <= k < cells.len()
}

/// Offset of cell `j` of stretch `i`, where a stretch holds `len` cells.
pub open spec fn offset(i: int, j: int, len: int) -> int {
    i * len + j
}

/// The cells of `cells` at `start`, `start + stride`, ..., `len` of them.
pub open spec fn strided<T>(cells: Seq<T>, start: int, stride: int, len: nat) -> Seq<T> {
    Seq::new(len, |k: int| cells[start + k * stride])
}

/// The stretch `i` of `cells`, where a stretch holds `len` cells.
pub open spec fn stretch<T>(cells: Seq<T>, i: int, len: nat) -> Seq<T> {
    cells.subrange(i * len, i * len + len)
}

/// `cells` with the stretch `i` replaced by `line`.
pub open spec fn with_stretch<T>(cells: Seq<T>, i: int, len: nat, line: Seq<T>) -> Seq<T> {
    cells.subrange(0, i * len) + line + cells.subrange(i * len + len, cells.len() as int)
}

/// `cells` with the cells at `start`, `start + stride`, ... replaced by the
/// elements of `line`, in order.
pub open spec fn with_strided<T>(cells: Seq<T>, start: int, stride: int, line: Seq<T>) -> Seq<T> {
    Seq::new(
        cells.len(),
        |k: int|
            if k >= start && (k - start) % stride == 0 && (k - start) / stride < line.len() {
                line[(k - start) / stride]
            } else {
                cells[k]
            },
    )
}

/// An offset built from in-range indices lies inside the buffer, and so does
/// the whole stretch that holds it.
pub proof fn lemma_offset_in_range(i: int, j: int, lines: int, len: int)
    requires
        0 <= i < lines,
        0 <= j < len,
    ensures
        0 <= i * len,
        0 <= offset(i, j, len) < lines * len,
        i * len + len <= lines * len,
{
    assert(0 <= i * len && i * len + len <= lines * len) by (nonlinear_arith)
        requires
            0 <= i < lines,
            0 < len,
    ;
}

/// The offset determines both indices: dividing by the stretch length gives
/// the stretch, the remainder gives the place in it.
pub proof fn lemma_offset_div_mod(i: int, j: int, len: int)
    requires
        0 <= j < len,
    ensures
        offset(i, j, len) / len == i,
        offset(i, j, len) % len == j,
{
    vstd::arithmetic::div_mod::lemma_fundamental_div_mod_converse(offset(i, j, len), len, i, j);
}

/// Every offset below `lines * len` comes from exactly one pair of in-range
/// indices.
pub proof fn lemma_offset_split(k: int, lines: int, len: int)
    requires
        0 <= k < lines * len,
        0 < len,
    ensures
        0 <= k / len < lines,
        0 <= k % len < len,
        offset(k / len, k % len, len) == k,
{
    vstd::arithmetic::div_mod::lemma_fundamental_div_mod(k, len);
    vstd::arithmetic::div_mod::lemma_mod_bound(k, len);
    let q = k / len;
    assert(len * q == q * len) by (nonlinear_arith);
    assert(0 <= q < lines) by (nonlinear_arith)
        requires
            0 <= k < lines * len,
            0 < len,
            k == q * len + k % len,
            0 <= k % len < len,
    ;
}

/// Two pairs of in-range indices with the same offset are the same pair: no
/// cell is reached twice.
pub proof fn lemma_offset_injective(i1: int, j1: int, i2: int, j2: int, len: int)
    requires
        0 <= j1 < len,
        0 <= j2 < len,
        offset(i1, j1, len) == offset(i2, j2, len),
    ensures
        i1 == i2,
        j1 == j2,
{
    lemma_offset_div_mod(i1, j1, len);
    lemma_offset_div_mod(i2, j2, len);
}

/// A strided line that ends inside a buffer of `size` cells has all its
/// offsets inside it.
pub proof fn lemma_strided_in_range(start: int, stride: int, len: int, k: int, size: int)
    requires
        0 <= start,
        0 <= stride,
        0 <= k < len,
        start + (len - 1) * stride < size,
    ensures
        0 <= k * stride,
        start + k * stride <= start + (len - 1) * stride,
        start + k * stride < size,
{
    assert(0 <= k * stride <= (len - 1) * stride) by (nonlinear_arith)
        requires
            0 <= stride,
            0 <= k < len,
    ;
}

/// Distinct places of a strided line are distinct offsets.
pub proof fn lemma_strided_injective(start: int, stride: int, k1: int, k2: int)
    requires
        0 < stride,
        start + k1 * stride == start + k2 * stride,
    ensures
        k1 == k2,
{
    assert(k1 == k2) by (nonlinear_arith)
        requires
            0 < stride,
            k1 * stride == k2 * stride,
    ;
}

/// Writing to place `k` of a strided line changes that element of the line
/// and no other.
pub proof fn lemma_strided_update<T>(
    cells: Seq<T>,
    start: int,
    stride: int,
    len: nat,
    k: int,
    value: T,
)
    requires
        0 <= start,
        0 < stride,
        0 <= k < len,
        start + (len - 1) * stride < cells.len(),
    ensures
        strided(cells.update(start + k * stride, value), start, stride, len) == strided(
            cells,
            start,
            stride,
            len,
        ).update(k, value),
{
    let before = strided(cells, start, stride, len);
    let after = strided(cells.update(start + k * stride, value), start, stride, len);
    assert forall|j: int| 0 <= j < len implies #[trigger] after[j] == before.update(
        k,
        value,
    )[j] by {
        lemma_strided_in_range(start, stride, len as int, j, cells.len() as int);
        lemma_strided_in_range(start, stride, len as int, k, cells.len() as int);
        if j != k && start + j * stride == start + k * stride {
            lemma_strided_injective(start, stride, j, k);
        }
    }
    assert(after =~= before.update(k, value));
}

/// Writing to a strided line leaves every other strided line of the same
/// stride as it was: two lines that start at different offsets below the
/// stride share no cell.
pub proof fn lemma_strided_lines_apart<T>(
    cells: Seq<T>,
    written: int,
    other: int,
    stride: int,
    len: nat,
    k: int,
    value: T,
)
    requires
        0 <= written < stride,
        0 <= other < stride,
        written != other,
        0 <= k,
        written + k * stride < cells.len(),
        len > 0 ==> other + (len - 1) * stride < cells.len(),
    ensures
        strided(cells.update(written + k * stride, value), other, stride, len) == strided(
            cells,
            other,
            stride,
            len,
        ),
{
    let after = strided(cells.update(written + k * stride, value), other, stride, len);
    assert forall|j: int| 0 <= j < len implies #[trigger] after[j] == strided(
        cells,
        other,
        stride,
        len,
    )[j] by {
        lemma_strided_in_range(other, stride, len as int, j, cells.len() as int);
        if other + j * stride == written + k * stride {
            lemma_offset_injective(j, other, k, written, stride);
        }
    }
    assert(after =~= strided(cells, other, stride, len));
}

/// Place `k` of a strided line is found again from its offset: the distance
/// from the start is a multiple of the stride, `k` times.
pub proof fn lemma_strided_place(start: int, stride: int, k: int)
    requires
        0 < stride,
    ensures
        (start + k * stride - start) % stride == 0,
        (start + k * stride - start) / stride == k,
{
    vstd::arithmetic::div_mod::lemma_fundamental_div_mod_converse(k * stride, stride, k, 0);
}

/// An offset whose distance from the start is a multiple of the stride is a
/// place of the strided line.
pub proof fn lemma_strided_place_converse(start: int, stride: int, at: int)
    requires
        0 < stride,
        (at - start) % stride == 0,
    ensures
        at == start + ((at - start) / stride) * stride,
{
    vstd::arithmetic::div_mod::lemma_fundamental_div_mod(at - start, stride);
    assert(stride * ((at - start) / stride) == ((at - start) / stride) * stride)
        by (nonlinear_arith);
}

/// Replacing a stretch changes exactly the cells whose offset divided by
/// the stretch length gives that stretch, each to the element of `line`
/// that the remainder names.
pub proof fn lemma_with_stretch_by_place<T>(
    cells: Seq<T>,
    i: int,
    lines: int,
    len: nat,
    line: Seq<T>,
)
    requires
        0 <= i < lines,
        cells.len() == lines * len,
        line.len() == len,
    ensures
        with_stretch(cells, i, len, line) == Seq::new(
            cells.len(),
            |k: int|
                if k / (len as int) == i {
                    line[k % (len as int)]
                } else {
                    cells[k]
                },
        ),
{
    let by_place = Seq::new(
        cells.len(),
        |k: int|
            if k / (len as int) == i {
                line[k % (len as int)]
            } else {
                cells[k]
            },
    );
    if len == 0 {
        assert(cells.len() == 0) by (nonlinear_arith)
            requires
                cells.len() == lines * len,
                len == 0,
        ;
    } else {
        lemma_offset_in_range(i, 0, lines, len as int);
        assert forall|k: int| 0 <= k < cells.len() implies with_stretch(cells, i, len, line)[k]
            == by_place[k] by {
            lemma_offset_split(k, lines, len as int);
            if i * len <= k < i * len + len {
                lemma_offset_div_mod(i, k - i * len, len as int);
            }
        }
    }
    assert(with_stretch(cells, i, len, line) =~= by_place);
}

/// Replacing a strided line that starts below the stride changes exactly
/// the cells whose offset leaves the start as remainder, each to the element
/// of `line` that the quotient names.
pub proof fn lemma_with_strided_by_place<T>(
    cells: Seq<T>,
    j: int,
    lines: int,
    len: nat,
    line: Seq<T>,
)
    requires
        0 <= j < len,
        cells.len() == lines * len,
        line.len() == lines,
    ensures
        with_strided(cells, j, len as int, line) == Seq::new(
            cells.len(),
            |k: int|
                if k % (len as int) == j {
                    line[k / (len as int)]
                } else {
                    cells[k]
                },
        ),
{
    let by_place = Seq::new(
        cells.len(),
        |k: int|
            if k % (len as int) == j {
                line[k / (len as int)]
            } else {
                cells[k]
            },
    );
    assert forall|k: int| 0 <= k < cells.len() implies with_strided(cells, j, len as int, line)[k]
        == by_place[k] by {
        lemma_offset_split(k, lines, len as int);
        if k % (len as int) == j {
            lemma_strided_place(j, len as int, k / (len as int));
        } else if k >= j && (k - j) % (len as int) == 0 {
            lemma_strided_place_converse(j, len as int, k);
            lemma_offset_div_mod((k - j) / (len as int), j, len as int);
        }
    }
    assert(with_strided(cells, j, len as int, line) =~= by_place);
}

} // verus!
