//! Rows, columns and the diagonal of a matrix, taken out or written back as
//! vectors: a row is a `1` by `cols` matrix, a column a `rows` by `1` one.

use vstd::prelude::*;
use crate::index::{lemma_linear_in_bounds, lemma_linear_round_trip, lemma_position_round_trip,
    linear, row_of, col_of};
use crate::matrix::DoubleMatrix;

verus! {

impl<T: Copy> DoubleMatrix<T> {
    /// Column `col` as a column vector.
    pub fn get_column(&self, col: usize) -> (v: DoubleMatrix<T>)
        requires
            self.wf(),
            col < self.ncols(),
        ensures
            v.wf(),
            v.nrows() == self.nrows(),
            v.ncols() == 1,
            forall|r: int| 0 <= r < self.nrows() ==> #[trigger] v@[r] == self.at(r, col as int),
    {
        let rows: usize = self.rows();
        let mut out: Vec<T> = Vec::new();
        let mut r: usize = 0;
        while r < rows
            invariant
                r <= rows,
                rows == self.nrows(),
                self.wf(),
                col < self.ncols(),
                out@.len() == r,
                forall|p: int| 0 <= p < r ==> #[trigger] out@[p] == self.at(p, col as int),
            decreases rows - r,
        {
            proof {
                lemma_linear_in_bounds(rows as int, self.ncols() as int, r as int, col as int);
            }
            out.push(self.get(r, col));
            r += 1;
        }
        DoubleMatrix::from_parts(rows, 1, out)
    }

    /// Row `row` as a row vector.
    pub fn get_row(&self, row: usize) -> (v: DoubleMatrix<T>)
        requires
            self.wf(),
            row < self.nrows(),
        ensures
            v.wf(),
            v.nrows() == 1,
            v.ncols() == self.ncols(),
            forall|c: int| 0 <= c < self.ncols() ==> #[trigger] v@[c] == self.at(row as int, c),
    {
        let cols: usize = self.cols();
        let mut out: Vec<T> = Vec::new();
        let mut c: usize = 0;
        while c < cols
            invariant
                c <= cols,
                cols == self.ncols(),
                self.wf(),
                row < self.nrows(),
                out@.len() == c,
                forall|p: int| 0 <= p < c ==> #[trigger] out@[p] == self.at(row as int, p),
            decreases cols - c,
        {
            proof {
                lemma_linear_in_bounds(self.nrows() as int, cols as int, row as int, c as int);
            }
            out.push(self.get(row, c));
            c += 1;
        }
        DoubleMatrix::from_parts(1, cols, out)
    }

    /// Overwrites column `col` with the column vector `vector`; the other
    /// columns stay as they were.
    pub fn put_column(&mut self, col: usize, vector: &DoubleMatrix<T>)
        requires
            old(self).wf(),
            vector.wf(),
            vector.nrows() == old(self).nrows(),
            vector.ncols() == 1,
            col < old(self).ncols(),
        ensures
            final(self).wf(),
            final(self).nrows() == old(self).nrows(),
            final(self).ncols() == old(self).ncols(),
            forall|k: int| 0 <= k < old(self)@.len() ==> #[trigger] final(self)@[k] == (
                if col_of(old(self).nrows() as int, k) == col {
                    vector@[row_of(old(self).nrows() as int, k)]
                } else {
                    old(self)@[k]
                }),
            forall|r: int, c: int| 0 <= r < old(self).nrows() && 0 <= c < old(self).ncols()
                ==> #[trigger] final(self).at(r, c) == (
                    if c == col { vector@[r] } else { old(self).at(r, c) }),
    {
        let rows: usize = self.rows();
        let ghost cols = self.ncols() as int;
        let ghost before = self@;
        let mut r: usize = 0;
        while r < rows
            invariant
                r <= rows,
                rows == self.nrows(),
                cols == self.ncols(),
                self.wf(),
                col < cols,
                vector@.len() == rows,
                before.len() == self@.len(),
                forall|k: int| 0 <= k < before.len() ==> #[trigger] self@[k] == (
                    if col_of(rows as int, k) == col && row_of(rows as int, k) < r {
                        vector@[row_of(rows as int, k)]
                    } else {
                        before[k]
                    }),
            decreases rows - r,
        {
            proof {
                lemma_linear_in_bounds(rows as int, cols, r as int, col as int);
                lemma_linear_round_trip(rows as int, cols, r as int, col as int);
            }
            self.put(r, col, vector.get_linear(r));
            proof {
                assert forall|k: int| 0 <= k < before.len() implies #[trigger] self@[k] == (
                    if col_of(rows as int, k) == col && row_of(rows as int, k) < r + 1 {
                        vector@[row_of(rows as int, k)]
                    } else {
                        before[k]
                    }) by {
                    lemma_position_round_trip(rows as int, cols, k);
                }
            }
            r += 1;
        }
        proof {
            assert forall|k: int| 0 <= k < before.len() implies #[trigger] self@[k] == (
                if col_of(rows as int, k) == col {
                    vector@[row_of(rows as int, k)]
                } else {
                    before[k]
                }) by {
                if rows > 0 {
                    lemma_position_round_trip(rows as int, cols, k);
                }
            }
            assert forall|r: int, c: int| 0 <= r < rows && 0 <= c < cols
                implies #[trigger] self.at(r, c) == (
                    if c == col { vector@[r] } else { old(self).at(r, c) }) by {
                lemma_linear_in_bounds(rows as int, cols, r, c);
                lemma_linear_round_trip(rows as int, cols, r, c);
            }
        }
    }

    /// Overwrites row `row` with the row vector `vector`; the other rows
    /// stay as they were.
    pub fn put_row(&mut self, row: usize, vector: &DoubleMatrix<T>)
        requires
            old(self).wf(),
            vector.wf(),
            vector.nrows() == 1,
            vector.ncols() == old(self).ncols(),
            row < old(self).nrows(),
        ensures
            final(self).wf(),
            final(self).nrows() == old(self).nrows(),
            final(self).ncols() == old(self).ncols(),
            forall|k: int| 0 <= k < old(self)@.len() ==> #[trigger] final(self)@[k] == (
                if row_of(old(self).nrows() as int, k) == row {
                    vector@[col_of(old(self).nrows() as int, k)]
                } else {
                    old(self)@[k]
                }),
            forall|r: int, c: int| 0 <= r < old(self).nrows() && 0 <= c < old(self).ncols()
                ==> #[trigger] final(self).at(r, c) == (
                    if r == row { vector@[c] } else { old(self).at(r, c) }),
    {
        let cols: usize = self.cols();
        let ghost rows = self.nrows() as int;
        let ghost before = self@;
        let mut c: usize = 0;
        while c < cols
            invariant
                c <= cols,
                rows == self.nrows(),
                cols == self.ncols(),
                self.wf(),
                row < rows,
                vector@.len() == cols,
                before.len() == self@.len(),
                forall|k: int| 0 <= k < before.len() ==> #[trigger] self@[k] == (
                    if row_of(rows, k) == row && col_of(rows, k) < c {
                        vector@[col_of(rows, k)]
                    } else {
                        before[k]
                    }),
            decreases cols - c,
        {
            proof {
                lemma_linear_in_bounds(rows, cols as int, row as int, c as int);
                lemma_linear_round_trip(rows, cols as int, row as int, c as int);
            }
            self.put(row, c, vector.get_linear(c));
            proof {
                assert forall|k: int| 0 <= k < before.len() implies #[trigger] self@[k] == (
                    if row_of(rows, k) == row && col_of(rows, k) < c + 1 {
                        vector@[col_of(rows, k)]
                    } else {
                        before[k]
                    }) by {
                    lemma_position_round_trip(rows, cols as int, k);
                }
            }
            c += 1;
        }
        proof {
            assert forall|k: int| 0 <= k < before.len() implies #[trigger] self@[k] == (
                if row_of(rows, k) == row {
                    vector@[col_of(rows, k)]
                } else {
                    before[k]
                }) by {
                lemma_position_round_trip(rows, cols as int, k);
            }
            assert forall|r: int, c: int| 0 <= r < rows && 0 <= c < cols
                implies #[trigger] self.at(r, c) == (
                    if r == row { vector@[c] } else { old(self).at(r, c) }) by {
                lemma_linear_in_bounds(rows, cols as int, r, c);
                lemma_linear_round_trip(rows, cols as int, r, c);
            }
        }
    }

    /// The main diagonal of a square matrix as a column vector.
    pub fn diag(&self) -> (v: DoubleMatrix<T>)
        requires
            self.wf(),
            self.nrows() == self.ncols(),
        ensures
            v.wf(),
            v.nrows() == self.nrows(),
            v.ncols() == 1,
            forall|i: int| 0 <= i < self.nrows() ==> #[trigger] v@[i] == self.at(i, i),
    {
        let n: usize = self.rows();
        let mut out: Vec<T> = Vec::new();
        let mut i: usize = 0;
        while i < n
            invariant
                i <= n,
                n == self.nrows(),
                n == self.ncols(),
                self.wf(),
                out@.len() == i,
                forall|p: int| 0 <= p < i ==> #[trigger] out@[p] == self.at(p, p),
            decreases n - i,
        {
            proof {
                lemma_linear_in_bounds(n as int, n as int, i as int, i as int);
            }
            out.push(self.get(i, i));
            i += 1;
        }
        DoubleMatrix::from_parts(n, 1, out)
    }
}

} // verus!
