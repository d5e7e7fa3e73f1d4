//! The mathematical model of a matrix, and what holds of it.
//!
//! A [`Grid`] is a flat sequence of cells together with the two dimensions
//! under which it is read. Which cell stands at `(row, col)` depends on the
//! [`Layout`]. The contracts of all matrix types are stated over this model.
use vstd::prelude::*;
use crate::layout::{
    lemma_offset_div_mod, lemma_offset_in_range, lemma_offset_injective, lemma_offset_split,
    lemma_with_stretch_by_place, lemma_with_strided_by_place, offset, stretch, strided,
    with_stretch, with_strided,
};
use crate::partition::{lemma_stretches_flatten, lemma_strides_flatten, stretches, strides};

verus! {

/// The rule that maps a cell `(row, col)` to an offset in the buffer.
#[derive(Debug, Clone, Copy, PartialEq, Eq, Structural)]
pub enum Layout {
    /// Offset `row * cols + col`: every row is contiguous.
    RowFirst,
    /// Offset `col * rows + row`: every column is contiguous.
    ColumnFirst,
}

/// A matrix as a mathematical value: its dimensions and its buffer.
pub struct Grid<T> {
    /// Number of rows.
    pub rows: nat,
    /// Number of columns.
    pub cols: nat,
    /// The buffer, in memory order.
    pub cells: Seq<T>,
}

/// The matrix of `rows` by `cols` cells over the buffer `cells`.
pub open spec fn grid_of<T>(cells: Seq<T>, rows: usize, cols: usize) -> Grid<T> {
    Grid { rows: rows as nat, cols: cols as nat, cells }
}

impl<T> Grid<T> {
    /// The buffer holds exactly one cell for every position.
    pub open spec fn wf(self) -> bool {
        self.cells.len() == self.rows * self.cols
    }

    /// `(row, col)` names a cell of this matrix.
    pub open spec fn in_bounds(self, row: int, col: int) -> bool {
        0 <= row < self.rows && 0 <= col < self.cols
    }

    /// Where the cell `(row, col)` sits in the buffer.
    pub open spec fn offset_of(self, layout: Layout, row: int, col: int) -> int {
        match layout {
            Layout::RowFirst => offset(row, col, self.cols as int),
            Layout::ColumnFirst => offset(col, row, self.rows as int),
        }
    }

    /// The row of the cell that sits at offset `k`.
    pub open spec fn row_of(self, layout: Layout, k: int) -> int {
        match layout {
            Layout::RowFirst => k / (self.cols as int),
            Layout::ColumnFirst => k % (self.rows as int),
        }
    }

    /// The column of the cell that sits at offset `k`.
    pub open spec fn col_of(self, layout: Layout, k: int) -> int {
        match layout {
            Layout::RowFirst => k % (self.cols as int),
            Layout::ColumnFirst => k / (self.rows as int),
        }
    }

    /// The cell at `(row, col)`.
    pub open spec fn at(self, layout: Layout, row: int, col: int) -> T {
        self.cells[self.offset_of(layout, row, col)]
    }

    /// Row `row`, from column zero upwards.
    pub open spec fn row(self, layout: Layout, row: int) -> Seq<T> {
        Seq::new(self.cols, |c: int| self.at(layout, row, c))
    }

    /// Column `col`, from row zero upwards.
    pub open spec fn col(self, layout: Layout, col: int) -> Seq<T> {
        Seq::new(self.rows, |r: int| self.at(layout, r, col))
    }

    /// All rows, in ascending order.
    pub open spec fn all_rows(self, layout: Layout) -> Seq<Seq<T>> {
        Seq::new(self.rows, |r: int| self.row(layout, r))
    }

    /// All columns, in ascending order.
    pub open spec fn all_cols(self, layout: Layout) -> Seq<Seq<T>> {
        Seq::new(self.cols, |c: int| self.col(layout, c))
    }

    /// The same matrix over another buffer.
    pub open spec fn with_cells(self, cells: Seq<T>) -> Grid<T> {
        Grid { rows: self.rows, cols: self.cols, cells }
    }

    /// The matrix with `value` written to `(row, col)`.
    pub open spec fn put(self, layout: Layout, row: int, col: int, value: T) -> Grid<T> {
        self.with_cells(self.cells.update(self.offset_of(layout, row, col), value))
    }

    /// The matrix with row `row` replaced by `line`.
    pub open spec fn put_row(self, layout: Layout, row: int, line: Seq<T>) -> Grid<T> {
        self.with_cells(
            Seq::new(
                self.cells.len(),
                |k: int|
                    if self.row_of(layout, k) == row {
                        line[self.col_of(layout, k)]
                    } else {
                        self.cells[k]
                    },
            ),
        )
    }

    /// The matrix with column `col` replaced by `line`.
    pub open spec fn put_col(self, layout: Layout, col: int, line: Seq<T>) -> Grid<T> {
        self.with_cells(
            Seq::new(
                self.cells.len(),
                |k: int|
                    if self.col_of(layout, k) == col {
                        line[self.row_of(layout, k)]
                    } else {
                        self.cells[k]
                    },
            ),
        )
    }

    /// Number of contiguous lines: rows under the row first layout, columns
    /// under the column first one.
    pub open spec fn native_count(self, layout: Layout) -> nat {
        match layout {
            Layout::RowFirst => self.rows,
            Layout::ColumnFirst => self.cols,
        }
    }

    /// Length of a contiguous line, which is also the number of strided
    /// lines and the distance between two neighbours of a strided line.
    pub open spec fn native_len(self, layout: Layout) -> nat {
        match layout {
            Layout::RowFirst => self.cols,
            Layout::ColumnFirst => self.rows,
        }
    }

    /// The contiguous line `i`: a row under the row first layout, a column
    /// under the column first one.
    pub open spec fn native_line(self, layout: Layout, i: int) -> Seq<T> {
        match layout {
            Layout::RowFirst => self.row(layout, i),
            Layout::ColumnFirst => self.col(layout, i),
        }
    }

    /// The strided line `j`: a column under the row first layout, a row
    /// under the column first one.
    pub open spec fn foreign_line(self, layout: Layout, j: int) -> Seq<T> {
        match layout {
            Layout::RowFirst => self.col(layout, j),
            Layout::ColumnFirst => self.row(layout, j),
        }
    }

    /// All contiguous lines, in ascending order.
    pub open spec fn native_lines(self, layout: Layout) -> Seq<Seq<T>> {
        match layout {
            Layout::RowFirst => self.all_rows(layout),
            Layout::ColumnFirst => self.all_cols(layout),
        }
    }

    /// All strided lines, in ascending order.
    pub open spec fn foreign_lines(self, layout: Layout) -> Seq<Seq<T>> {
        match layout {
            Layout::RowFirst => self.all_cols(layout),
            Layout::ColumnFirst => self.all_rows(layout),
        }
    }

    /// The matrix with the contiguous line `i` replaced by `line`.
    pub open spec fn put_native(self, layout: Layout, i: int, line: Seq<T>) -> Grid<T> {
        match layout {
            Layout::RowFirst => self.put_row(layout, i, line),
            Layout::ColumnFirst => self.put_col(layout, i, line),
        }
    }

    /// The matrix with the strided line `j` replaced by `line`.
    pub open spec fn put_foreign(self, layout: Layout, j: int, line: Seq<T>) -> Grid<T> {
        match layout {
            Layout::RowFirst => self.put_col(layout, j, line),
            Layout::ColumnFirst => self.put_row(layout, j, line),
        }
    }

    /// The offset of a cell of the matrix lies inside the buffer.
    pub proof fn lemma_offset_bounds(self, layout: Layout, row: int, col: int)
        requires
            self.wf(),
            self.in_bounds(row, col),
        ensures
            0 <= self.offset_of(layout, row, col) < self.cells.len(),
            self.row_of(layout, self.offset_of(layout, row, col)) == row,
            self.col_of(layout, self.offset_of(layout, row, col)) == col,
    {
        match layout {
            Layout::RowFirst => {
                lemma_offset_in_range(row, col, self.rows as int, self.cols as int);
                lemma_offset_div_mod(row, col, self.cols as int);
            },
            Layout::ColumnFirst => {
                lemma_offset_in_range(col, row, self.cols as int, self.rows as int);
                lemma_offset_div_mod(col, row, self.rows as int);
                assert(self.cols * self.rows == self.rows * self.cols) by (nonlinear_arith);
            },
        }
    }

    /// Every place in the buffer is the offset of a cell of the matrix: no
    /// place is left out.
    pub proof fn lemma_cell_of_offset(self, layout: Layout, k: int)
        requires
            self.wf(),
            0 <= k < self.cells.len(),
        ensures
            self.in_bounds(self.row_of(layout, k), self.col_of(layout, k)),
            self.offset_of(layout, self.row_of(layout, k), self.col_of(layout, k)) == k,
    {
        assert(self.rows > 0 && self.cols > 0) by (nonlinear_arith)
            requires
                0 <= k < self.rows * self.cols,
        ;
        match layout {
            Layout::RowFirst => {
                lemma_offset_split(k, self.rows as int, self.cols as int);
            },
            Layout::ColumnFirst => {
                assert(self.cols * self.rows == self.rows * self.cols) by (nonlinear_arith);
                lemma_offset_split(k, self.cols as int, self.rows as int);
            },
        }
    }

    /// Two cells of the matrix that share an offset are the same cell: no
    /// place in the buffer is used twice.
    pub proof fn lemma_offset_unique(self, layout: Layout, r1: int, c1: int, r2: int, c2: int)
        requires
            self.in_bounds(r1, c1),
            self.in_bounds(r2, c2),
            self.offset_of(layout, r1, c1) == self.offset_of(layout, r2, c2),
        ensures
            r1 == r2,
            c1 == c2,
    {
        match layout {
            Layout::RowFirst => {
                lemma_offset_injective(r1, c1, r2, c2, self.cols as int);
            },
            Layout::ColumnFirst => {
                lemma_offset_injective(c1, r1, c2, r2, self.rows as int);
            },
        }
    }

    /// Where a row lies in the buffer: it is a stretch under the row first
    /// layout and a strided line under the column first one.
    pub proof fn lemma_row_in_buffer(self, layout: Layout, row: int)
        requires
            self.wf(),
            0 <= row < self.rows,
        ensures
            self.row(layout, row) == match layout {
                Layout::RowFirst => stretch(self.cells, row, self.cols),
                Layout::ColumnFirst => strided(self.cells, row, self.rows as int, self.cols),
            },
    {
        match layout {
            Layout::RowFirst => {
                assert(0 <= row * self.cols && row * self.cols + self.cols <= self.rows
                    * self.cols) by (nonlinear_arith)
                    requires
                        0 <= row < self.rows,
                ;
                assert(self.row(layout, row) =~= stretch(self.cells, row, self.cols));
            },
            Layout::ColumnFirst => {
                assert(self.row(layout, row) =~= strided(
                    self.cells,
                    row,
                    self.rows as int,
                    self.cols,
                ));
            },
        }
    }

    /// Where a column lies in the buffer: it is a strided line under the row
    /// first layout and a stretch under the column first one.
    pub proof fn lemma_col_in_buffer(self, layout: Layout, col: int)
        requires
            self.wf(),
            0 <= col < self.cols,
        ensures
            self.col(layout, col) == match layout {
                Layout::RowFirst => strided(self.cells, col, self.cols as int, self.rows),
                Layout::ColumnFirst => stretch(self.cells, col, self.rows),
            },
    {
        match layout {
            Layout::RowFirst => {
                assert(self.col(layout, col) =~= strided(
                    self.cells,
                    col,
                    self.cols as int,
                    self.rows,
                ));
            },
            Layout::ColumnFirst => {
                assert(self.cols * self.rows == self.rows * self.cols) by (nonlinear_arith);
                assert(0 <= col * self.rows && col * self.rows + self.rows <= self.cols
                    * self.rows) by (nonlinear_arith)
                    requires
                        0 <= col < self.cols,
                ;
                assert(self.col(layout, col) =~= stretch(self.cells, col, self.rows));
            },
        }
    }

    /// All rows as they lie in the buffer.
    pub proof fn lemma_all_rows_in_buffer(self, layout: Layout)
        requires
            self.wf(),
        ensures
            self.all_rows(layout) == match layout {
                Layout::RowFirst => stretches(self.cells, 0, self.rows, self.cols),
                Layout::ColumnFirst => strides(
                    self.cells,
                    0,
                    self.rows,
                    self.rows as int,
                    self.cols,
                ),
            },
    {
        assert forall|r: int| 0 <= r < self.rows implies #[trigger] self.row(layout, r)
            == match layout {
            Layout::RowFirst => stretch(self.cells, r, self.cols),
            Layout::ColumnFirst => strided(self.cells, r, self.rows as int, self.cols),
        } by {
            self.lemma_row_in_buffer(layout, r);
        }
        match layout {
            Layout::RowFirst => {
                assert(self.all_rows(layout) =~= stretches(self.cells, 0, self.rows, self.cols));
            },
            Layout::ColumnFirst => {
                assert(self.all_rows(layout) =~= strides(
                    self.cells,
                    0,
                    self.rows,
                    self.rows as int,
                    self.cols,
                ));
            },
        }
    }

    /// All columns as they lie in the buffer.
    pub proof fn lemma_all_cols_in_buffer(self, layout: Layout)
        requires
            self.wf(),
        ensures
            self.all_cols(layout) == match layout {
                Layout::RowFirst => strides(
                    self.cells,
                    0,
                    self.cols,
                    self.cols as int,
                    self.rows,
                ),
                Layout::ColumnFirst => stretches(self.cells, 0, self.cols, self.rows),
            },
    {
        assert forall|c: int| 0 <= c < self.cols implies #[trigger] self.col(layout, c)
            == match layout {
            Layout::RowFirst => strided(self.cells, c, self.cols as int, self.rows),
            Layout::ColumnFirst => stretch(self.cells, c, self.rows),
        } by {
            self.lemma_col_in_buffer(layout, c);
        }
        match layout {
            Layout::RowFirst => {
                assert(self.all_cols(layout) =~= strides(
                    self.cells,
                    0,
                    self.cols,
                    self.cols as int,
                    self.rows,
                ));
            },
            Layout::ColumnFirst => {
                assert(self.all_cols(layout) =~= stretches(self.cells, 0, self.cols, self.rows));
            },
        }
    }

    /// What replacing a row does to the buffer.
    pub proof fn lemma_put_row_in_buffer(self, layout: Layout, row: int, line: Seq<T>)
        requires
            self.wf(),
            0 <= row < self.rows,
            line.len() == self.cols,
        ensures
            self.put_row(layout, row, line).cells == match layout {
                Layout::RowFirst => with_stretch(self.cells, row, self.cols, line),
                Layout::ColumnFirst => with_strided(self.cells, row, self.rows as int, line),
            },
    {
        match layout {
            Layout::RowFirst => {
                lemma_with_stretch_by_place(self.cells, row, self.rows as int, self.cols, line);
                assert(self.put_row(layout, row, line).cells =~= with_stretch(
                    self.cells,
                    row,
                    self.cols,
                    line,
                ));
            },
            Layout::ColumnFirst => {
                assert(self.cols * self.rows == self.rows * self.cols) by (nonlinear_arith);
                lemma_with_strided_by_place(self.cells, row, self.cols as int, self.rows, line);
                assert(self.put_row(layout, row, line).cells =~= with_strided(
                    self.cells,
                    row,
                    self.rows as int,
                    line,
                ));
            },
        }
    }

    /// What replacing a column does to the buffer.
    pub proof fn lemma_put_col_in_buffer(self, layout: Layout, col: int, line: Seq<T>)
        requires
            self.wf(),
            0 <= col < self.cols,
            line.len() == self.rows,
        ensures
            self.put_col(layout, col, line).cells == match layout {
                Layout::RowFirst => with_strided(self.cells, col, self.cols as int, line),
                Layout::ColumnFirst => with_stretch(self.cells, col, self.rows, line),
            },
    {
        match layout {
            Layout::RowFirst => {
                lemma_with_strided_by_place(self.cells, col, self.rows as int, self.cols, line);
                assert(self.put_col(layout, col, line).cells =~= with_strided(
                    self.cells,
                    col,
                    self.cols as int,
                    line,
                ));
            },
            Layout::ColumnFirst => {
                assert(self.cols * self.rows == self.rows * self.cols) by (nonlinear_arith);
                lemma_with_stretch_by_place(self.cells, col, self.cols as int, self.rows, line);
                assert(self.put_col(layout, col, line).cells =~= with_stretch(
                    self.cells,
                    col,
                    self.rows,
                    line,
                ));
            },
        }
    }

    /// The buffer is the contiguous lines one after the other, each
    /// `native_len` long, and the strided lines run across them.
    pub proof fn lemma_lines_in_buffer(self, layout: Layout)
        requires
            self.wf(),
        ensures
            self.cells.len() == self.native_count(layout) * self.native_len(layout),
            self.native_lines(layout) == stretches(
                self.cells,
                0,
                self.native_count(layout),
                self.native_len(layout),
            ),
            self.foreign_lines(layout) == strides(
                self.cells,
                0,
                self.native_len(layout),
                self.native_len(layout) as int,
                self.native_count(layout),
            ),
            forall|i: int|
                0 <= i < self.native_count(layout) ==> #[trigger] self.native_line(layout, i)
                    == stretch(self.cells, i, self.native_len(layout)),
            forall|j: int|
                0 <= j < self.native_len(layout) ==> #[trigger] self.foreign_line(layout, j)
                    == strided(
                    self.cells,
                    j,
                    self.native_len(layout) as int,
                    self.native_count(layout),
                ),
    {
        assert(self.cols * self.rows == self.rows * self.cols) by (nonlinear_arith);
        self.lemma_all_rows_in_buffer(layout);
        self.lemma_all_cols_in_buffer(layout);
        assert forall|i: int| 0 <= i < self.native_count(layout) implies #[trigger]
            self.native_line(layout, i) == stretch(self.cells, i, self.native_len(layout)) by {
            match layout {
                Layout::RowFirst => self.lemma_row_in_buffer(layout, i),
                Layout::ColumnFirst => self.lemma_col_in_buffer(layout, i),
            }
        }
        assert forall|j: int| 0 <= j < self.native_len(layout) implies #[trigger]
            self.foreign_line(layout, j) == strided(
            self.cells,
            j,
            self.native_len(layout) as int,
            self.native_count(layout),
        ) by {
            match layout {
                Layout::RowFirst => self.lemma_col_in_buffer(layout, j),
                Layout::ColumnFirst => self.lemma_row_in_buffer(layout, j),
            }
        }
    }

    /// What replacing a contiguous or a strided line does to the buffer.
    pub proof fn lemma_put_line_in_buffer(self, layout: Layout, index: int, line: Seq<T>)
        requires
            self.wf(),
        ensures
            0 <= index < self.native_count(layout) && line.len() == self.native_len(layout)
                ==> self.put_native(layout, index, line).cells == with_stretch(
                self.cells,
                index,
                self.native_len(layout),
                line,
            ),
            0 <= index < self.native_len(layout) && line.len() == self.native_count(layout)
                ==> self.put_foreign(layout, index, line).cells == with_strided(
                self.cells,
                index,
                self.native_len(layout) as int,
                line,
            ),
    {
        if 0 <= index < self.native_count(layout) && line.len() == self.native_len(layout) {
            match layout {
                Layout::RowFirst => self.lemma_put_row_in_buffer(layout, index, line),
                Layout::ColumnFirst => self.lemma_put_col_in_buffer(layout, index, line),
            }
        }
        if 0 <= index < self.native_len(layout) && line.len() == self.native_count(layout) {
            match layout {
                Layout::RowFirst => self.lemma_put_col_in_buffer(layout, index, line),
                Layout::ColumnFirst => self.lemma_put_row_in_buffer(layout, index, line),
            }
        }
    }

    /// Reading a matrix back cell by cell gives the buffer it was made over:
    /// the cell `(row, col)` is the element of the buffer at the offset that
    /// the layout names, that offset lies inside the buffer, and every
    /// element of the buffer is read as a cell of the matrix.
    pub proof fn lemma_read_back(self, layout: Layout)
        requires
            self.wf(),
        ensures
            forall|row: int, col: int| #[trigger]
                self.in_bounds(row, col) ==> 0 <= self.offset_of(layout, row, col)
                    < self.cells.len() && self.at(layout, row, col) == match layout {
                    Layout::RowFirst => self.cells[row * self.cols + col],
                    Layout::ColumnFirst => self.cells[col * self.rows + row],
                },
            forall|k: int|
                #![trigger self.row_of(layout, k)]
                #![trigger self.col_of(layout, k)]
                0 <= k < self.cells.len() ==> {
                    &&& self.in_bounds(self.row_of(layout, k), self.col_of(layout, k))
                    &&& self.offset_of(layout, self.row_of(layout, k), self.col_of(layout, k)) == k
                    &&& self.at(layout, self.row_of(layout, k), self.col_of(layout, k))
                        == self.cells[k]
                },
    {
        assert forall|row: int, col: int| #[trigger] self.in_bounds(row, col) implies 0
            <= self.offset_of(layout, row, col) < self.cells.len() by {
            self.lemma_offset_bounds(layout, row, col);
        }
        assert forall|k: int|
            #![trigger self.row_of(layout, k)]
            #![trigger self.col_of(layout, k)]
            0 <= k < self.cells.len() implies {
            &&& self.in_bounds(self.row_of(layout, k), self.col_of(layout, k))
            &&& self.offset_of(layout, self.row_of(layout, k), self.col_of(layout, k)) == k
        } by {
            self.lemma_cell_of_offset(layout, k);
        }
    }

    /// A value written to a cell is read back from it, and every other cell
    /// and every other place of the buffer keeps what it held.
    pub proof fn lemma_put_then_at(self, layout: Layout, row: int, col: int, value: T)
        requires
            self.wf(),
            self.in_bounds(row, col),
        ensures
            self.put(layout, row, col, value).wf(),
            self.put(layout, row, col, value).at(layout, row, col) == value,
            forall|r: int, c: int| #[trigger]
                self.in_bounds(r, c) && (r != row || c != col) ==> self.put(
                    layout,
                    row,
                    col,
                    value,
                ).at(layout, r, c) == self.at(layout, r, c),
            forall|k: int|
                0 <= k < self.cells.len() && k != self.offset_of(layout, row, col) ==> self.put(
                    layout,
                    row,
                    col,
                    value,
                ).cells[k] == self.cells[k],
    {
        self.lemma_offset_bounds(layout, row, col);
        assert forall|r: int, c: int| #[trigger]
            self.in_bounds(r, c) && (r != row || c != col) implies self.put(
            layout,
            row,
            col,
            value,
        ).at(layout, r, c) == self.at(layout, r, c) by {
            self.lemma_offset_bounds(layout, r, c);
            if self.offset_of(layout, r, c) == self.offset_of(layout, row, col) {
                self.lemma_offset_unique(layout, r, c, row, col);
            }
        }
    }

    /// A row that was replaced reads back as the line it was replaced by,
    /// element for element and in order, and every other row keeps what it
    /// held.
    pub proof fn lemma_put_row_then_row(self, layout: Layout, row: int, line: Seq<T>)
        requires
            self.wf(),
            0 <= row < self.rows,
            line.len() == self.cols,
        ensures
            self.put_row(layout, row, line).wf(),
            self.put_row(layout, row, line).row(layout, row) == line,
            forall|r: int|
                0 <= r < self.rows && r != row ==> #[trigger] self.put_row(layout, row, line).row(
                    layout,
                    r,
                ) == self.row(layout, r),
    {
        let after = self.put_row(layout, row, line);
        assert forall|r: int, c: int| self.in_bounds(r, c) implies #[trigger] after.at(layout, r, c)
            == if r == row {
            line[c]
        } else {
            self.at(layout, r, c)
        } by {
            self.lemma_offset_bounds(layout, r, c);
        }
        assert(after.row(layout, row) =~= line);
        assert forall|r: int| 0 <= r < self.rows && r != row implies #[trigger] after.row(layout, r)
            == self.row(layout, r) by {
            assert(after.row(layout, r) =~= self.row(layout, r));
        }
    }

    /// A column that was replaced reads back as the line it was replaced
    /// by, element for element and in order, and every other column keeps
    /// what it held.
    pub proof fn lemma_put_col_then_col(self, layout: Layout, col: int, line: Seq<T>)
        requires
            self.wf(),
            0 <= col < self.cols,
            line.len() == self.rows,
        ensures
            self.put_col(layout, col, line).wf(),
            self.put_col(layout, col, line).col(layout, col) == line,
            forall|c: int|
                0 <= c < self.cols && c != col ==> #[trigger] self.put_col(layout, col, line).col(
                    layout,
                    c,
                ) == self.col(layout, c),
    {
        let after = self.put_col(layout, col, line);
        assert forall|r: int, c: int| self.in_bounds(r, c) implies #[trigger] after.at(layout, r, c)
            == if c == col {
            line[r]
        } else {
            self.at(layout, r, c)
        } by {
            self.lemma_offset_bounds(layout, r, c);
        }
        assert(after.col(layout, col) =~= line);
        assert forall|c: int| 0 <= c < self.cols && c != col implies #[trigger] after.col(layout, c)
            == self.col(layout, c) by {
            assert(after.col(layout, c) =~= self.col(layout, c));
        }
    }

    /// Two different rows share no place of the buffer, and neither do two
    /// different columns: writing to one line never reaches another.
    pub proof fn lemma_lines_disjoint(self, layout: Layout)
        ensures
            forall|r1: int, c1: int, r2: int, c2: int|
                self.in_bounds(r1, c1) && self.in_bounds(r2, c2) && r1 != r2
                    ==> #[trigger] self.offset_of(layout, r1, c1) != #[trigger] self.offset_of(
                    layout,
                    r2,
                    c2,
                ),
            forall|r1: int, c1: int, r2: int, c2: int|
                self.in_bounds(r1, c1) && self.in_bounds(r2, c2) && c1 != c2
                    ==> #[trigger] self.offset_of(layout, r1, c1) != #[trigger] self.offset_of(
                    layout,
                    r2,
                    c2,
                ),
    {
        assert forall|r1: int, c1: int, r2: int, c2: int|
            self.in_bounds(r1, c1) && self.in_bounds(r2, c2) && (r1 != r2 || c1 != c2)
                implies #[trigger] self.offset_of(layout, r1, c1) != #[trigger] self.offset_of(
            layout,
            r2,
            c2,
        ) by {
            if self.offset_of(layout, r1, c1) == self.offset_of(layout, r2, c2) {
                self.lemma_offset_unique(layout, r1, c1, r2, c2);
            }
        }
    }

    /// Walking all rows, or all columns, visits every cell of the buffer
    /// exactly once: the lines, one after the other, hold what the buffer
    /// holds, nothing twice and nothing left out. The contiguous lines, one
    /// after the other, are the buffer itself.
    pub proof fn lemma_lines_cover(self, layout: Layout)
        requires
            self.wf(),
        ensures
            self.all_rows(layout).flatten().to_multiset() == self.cells.to_multiset(),
            self.all_cols(layout).flatten().to_multiset() == self.cells.to_multiset(),
            self.native_lines(layout).flatten() == self.cells,
    {
        self.lemma_lines_in_buffer(layout);
        lemma_stretches_flatten(self.cells, self.native_count(layout), self.native_len(layout));
        lemma_strides_flatten(self.cells, self.native_len(layout), self.native_count(layout));
    }
}

} // verus!
