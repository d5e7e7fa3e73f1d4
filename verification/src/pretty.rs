//! A matrix as text, for looking at it.
//!
//! Every cell is written with two hexadecimal digits at least. The cells of
//! a row stand on one line with a `-` between neighbours, and the rows
//! follow each other from row zero downwards.
use vstd::prelude::*;
use core::fmt::Debug;
use crate::grid::{grid_of, Layout};
use crate::ops;

verus! {

/// The first `count` of the texts `texts`, with a `-` between neighbours.
pub open spec fn joined(texts: Seq<Seq<char>>, count: nat) -> Seq<char>
    decreases count,
{
    if count == 0 {
        Seq::empty()
    } else if count == 1 {
        texts[0]
    } else {
        joined(texts, (count - 1) as nat) + seq!['-'] + texts[count - 1]
    }
}

/// The text of the first `rows` rows of a matrix with `cols` columns, whose
/// cells have the texts `texts`, row after row: each row is its texts with a
/// `-` between neighbours and a line break behind.
pub open spec fn grid_text(texts: Seq<Seq<char>>, rows: nat, cols: nat) -> Seq<char>
    decreases rows,
{
    if rows == 0 {
        Seq::empty()
    } else {
        grid_text(texts, (rows - 1) as nat, cols) + joined(
            texts.subrange((rows - 1) * cols, (rows * cols) as int),
            cols,
        ) + seq!['\n']
    }
}

/// `String::push_str` of the standard library appends the given text to the
/// end of the string.
pub assume_specification[ String::push_str ](text: &mut String, more: &str)
    ensures
        final(text)@ == old(text)@ + more@,
;

/// `format!` of the standard library with the directive `{:02x?}`: the debug
/// text of `cell`, with numbers in hexadecimal and at least two digits wide.
/// Nothing is claimed of the text.
#[verifier::external_body]
fn cell_text<T: Debug>(cell: &T) -> String {
    format!("{:02x?}", cell)
}

/// The text of a matrix of `rows` by `cols` cells whose cells, row after
/// row, have the texts `texts`.
pub fn render(texts: &Vec<String>, rows: usize, cols: usize) -> (text: String)
    requires
        texts@.len() == rows * cols,
    ensures
        text@ == grid_text(texts.deep_view(), rows as nat, cols as nat),
{
    assert(texts@.len() == texts.len());
    let mut text = String::new();
    let mut row: usize = 0;
    while row < rows
        invariant
            row <= rows,
            texts@.len() == rows * cols,
            texts@.len() <= usize::MAX,
            text@ == grid_text(texts.deep_view(), row as nat, cols as nat),
        decreases rows - row,
    {
        proof {
            assert(0 <= row * cols && row * cols + cols == (row + 1) * cols && (row + 1) * cols
                <= rows * cols) by (nonlinear_arith)
                requires
                    row < rows,
            ;
        }
        let start = row * cols;
        let ghost line = texts.deep_view().subrange(start as int, start + cols);
        let ghost before = text@;
        let mut col: usize = 0;
        while col < cols
            invariant
                col <= cols,
                start + cols <= texts@.len(),
                texts@.len() <= usize::MAX,
                line == texts.deep_view().subrange(start as int, start + cols),
                text@ == before + joined(line, col as nat),
            decreases cols - col,
        {
            if col != 0 {
                proof {
                    reveal_strlit("-");
                }
                text.push_str("-");
                assert("-"@ =~= seq!['-']);
            }
            text.push_str(texts[start + col].as_str());
            proof {
                assert(line[col as int] == texts@[start + col]@);
                assert(text@ =~= before + joined(line, (col + 1) as nat));
            }
            col += 1;
        }
        proof {
            reveal_strlit("\n");
        }
        text.push_str("\n");
        assert("\n"@ =~= seq!['\n']);
        row += 1;
    }
    text
}

/// The text of the matrix of `rows` by `cols` cells over `buffer`.
pub(crate) fn pretty_string<T: Debug>(
    buffer: &[T],
    rows: usize,
    cols: usize,
    layout: Layout,
) -> (text: String)
    requires
        grid_of(buffer@, rows, cols).wf(),
    ensures
        exists|texts: Seq<Seq<char>>|
            texts.len() == rows * cols && text@ == #[trigger] grid_text(
                texts,
                rows as nat,
                cols as nat,
            ),
{
    assert(buffer@.len() == buffer.len());
    let mut texts: Vec<String> = Vec::new();
    let mut row: usize = 0;
    while row < rows
        invariant
            row <= rows,
            grid_of(buffer@, rows, cols).wf(),
            buffer@.len() <= usize::MAX,
            texts@.len() == row * cols,
        decreases rows - row,
    {
        proof {
            assert(row * cols + cols == (row + 1) * cols && (row + 1) * cols <= rows * cols)
                by (nonlinear_arith)
                requires
                    row < rows,
            ;
        }
        let mut col: usize = 0;
        while col < cols
            invariant
                col <= cols,
                row < rows,
                grid_of(buffer@, rows, cols).wf(),
                texts@.len() == row * cols + col,
            decreases cols - col,
        {
            let at = ops::offset_at(buffer, rows, cols, layout, row, col);
            texts.push(cell_text(&buffer[at]));
            col += 1;
        }
        row += 1;
    }
    render(&texts, rows, cols)
}

} // verus!
