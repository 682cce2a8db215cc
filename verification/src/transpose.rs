//! Transposition: the permutation of a column-major buffer that swaps the
//! roles of rows and columns.

use vstd::prelude::*;
use crate::index::{col_of, lemma_linear_round_trip, lemma_position_round_trip, linear, row_of};
use crate::matrix::DoubleMatrix;

verus! {

/// The buffer of the transpose of a `rows` by `cols` matrix whose buffer is
/// `data`. Position `j` of the result is element `(j % cols, j / cols)` of a
/// matrix with `cols` rows, and so element `(j / cols, j % cols)` of the
/// matrix that is transposed.
pub open spec fn transposed<T>(rows: int, cols: int, data: Seq<T>) -> Seq<T> {
    Seq::new(data.len(), |j: int| data[linear(rows, col_of(cols, j), row_of(cols, j))])
}

/// Where position `j` of a transposed buffer reads from, and that the
/// source lies inside the buffer.
pub proof fn lemma_transposed_source(rows: int, cols: int, j: int)
    requires
        0 <= rows,
        0 <= cols,
        0 <= j < rows * cols,
    ensures
        0 <= linear(rows, col_of(cols, j), row_of(cols, j)) < rows * cols,
        0 <= row_of(cols, j) < cols,
        0 <= col_of(cols, j) < rows,
{
    assert(rows > 0 && cols > 0) by (nonlinear_arith)
        requires 0 <= j < rows * cols, 0 <= rows, 0 <= cols;
    assert(cols * rows == rows * cols) by (nonlinear_arith);
    lemma_position_round_trip(cols, rows, j);
    crate::index::lemma_linear_in_bounds(rows, cols, col_of(cols, j), row_of(cols, j));
}

/// Transposing twice gives back the buffer one started with.
pub proof fn lemma_transpose_involution<T>(rows: int, cols: int, data: Seq<T>)
    requires
        0 <= rows,
        0 <= cols,
        data.len() == rows * cols,
    ensures
        transposed(cols, rows, transposed(rows, cols, data)) == data,
{
    let t = transposed(rows, cols, data);
    let tt = transposed(cols, rows, t);
    assert(cols * rows == rows * cols) by (nonlinear_arith);
    assert forall|i: int| 0 <= i < data.len() implies tt[i] == data[i] by {
        assert(rows > 0 && cols > 0) by (nonlinear_arith)
            requires 0 <= i < rows * cols, 0 <= rows, 0 <= cols;
        // Position i of the untransposed matrix is (r, c).
        lemma_position_round_trip(rows, cols, i);
        let r = row_of(rows, i);
        let c = col_of(rows, i);
        // In the transpose that element sits at (c, r), position k.
        let k = linear(cols, c, r);
        crate::index::lemma_linear_in_bounds(cols, rows, c, r);
        lemma_linear_round_trip(cols, rows, c, r);
        assert(tt[i] == t[k]);
        assert(t[k] == data[linear(rows, r, c)]);
    }
    assert(tt =~= data);
}

impl<T: Copy> DoubleMatrix<T> {
    /// The transpose as a new matrix: the shape is swapped and element
    /// `(c, r)` of the result is element `(r, c)` of `self`.
    pub fn transpose(&self) -> (t: DoubleMatrix<T>)
        requires
            self.wf(),
        ensures
            t.wf(),
            t.nrows() == self.ncols(),
            t.ncols() == self.nrows(),
            t@ == transposed(self.nrows() as int, self.ncols() as int, self@),
            forall|r: int, c: int| 0 <= r < self.nrows() && 0 <= c < self.ncols()
                ==> t.at(c, r) == #[trigger] self.at(r, c),
    {
        let rows: usize = self.rows();
        let cols: usize = self.cols();
        let src = self.data();
        let len: usize = src.len();
        let mut out: Vec<T> = Vec::new();
        let mut j: usize = 0;
        while j < len
            invariant
                j <= len,
                len == rows * cols,
                src@ == self@,
                src@.len() == len,
                out@.len() == j,
                forall|k: int| 0 <= k < j ==> out@[k] == transposed(
                    rows as int, cols as int, src@)[k],
            decreases len - j,
        {
            proof {
                lemma_transposed_source(rows as int, cols as int, j as int);
            }
            let r: usize = j / cols;
            let c: usize = j % cols;
            assert(c * rows <= r + c * rows) by (nonlinear_arith);
            out.push(src[r + c * rows]);
            j += 1;
        }
        assert(out@ =~= transposed(rows as int, cols as int, self@));
        proof {
            assert(cols * rows == rows * cols) by (nonlinear_arith);
        }
        let t = DoubleMatrix::from_parts(cols, rows, out);
        proof {
            assert forall|r: int, c: int| 0 <= r < self.nrows() && 0 <= c < self.ncols()
                implies t.at(c, r) == #[trigger] self.at(r, c) by {
                crate::index::lemma_linear_in_bounds(cols as int, rows as int, c, r);
                lemma_linear_round_trip(cols as int, rows as int, c, r);
            }
        }
        t
    }
}

/// Whether element `(r, c)` has already traded places with `(c, r)` when the
/// in-place transposition stands at pair `(i, j)`: pairs are visited by
/// their larger index, then by their smaller one.
pub open spec fn traded(r: int, c: int, i: int, j: int) -> bool {
    let hi = if r >= c { r } else { c };
    let lo = if r >= c { c } else { r };
    hi < i || (hi == i && lo < j)
}

/// The buffer of an `n` by `n` matrix part-way through in-place
/// transposition.
pub open spec fn partly_transposed<T>(n: int, now: Seq<T>, before: Seq<T>, i: int, j: int) -> bool {
    &&& now.len() == before.len()
    &&& forall|k: int| 0 <= k < now.len() ==> #[trigger] now[k] == (
        if traded(row_of(n, k), col_of(n, k), i, j) {
            before[linear(n, col_of(n, k), row_of(n, k))]
        } else {
            before[k]
        })
}

impl<T: Copy> DoubleMatrix<T> {
    /// Transposes a square matrix in place.
    pub fn transpose_mut(&mut self)
        requires
            old(self).wf(),
            old(self).nrows() == old(self).ncols(),
        ensures
            final(self).wf(),
            final(self).nrows() == old(self).nrows(),
            final(self).ncols() == old(self).ncols(),
            final(self)@ == transposed(
                old(self).nrows() as int, old(self).ncols() as int, old(self)@),
            forall|r: int, c: int| 0 <= r < old(self).nrows() && 0 <= c < old(self).ncols()
                ==> final(self).at(c, r) == #[trigger] old(self).at(r, c),
    {
        let n: usize = self.rows();
        let ghost before = self@;
        let total: usize = self.data().len();
        let mut i: usize = 0;
        while i < n
            invariant
                i <= n,
                total == n * n,
                self.nrows() == n,
                self.ncols() == n,
                before.len() == n * n,
                partly_transposed(n as int, self@, before, i as int, 0),
            decreases n - i,
        {
            let mut j: usize = 0;
            while j < i
                invariant
                    j <= i,
                    i < n,
                    total == n * n,
                    self.nrows() == n,
                    self.ncols() == n,
                    before.len() == n * n,
                    partly_transposed(n as int, self@, before, i as int, j as int),
                decreases i - j,
            {
                proof {
                    crate::index::lemma_linear_in_bounds(n as int, n as int, i as int, j as int);
                    crate::index::lemma_linear_in_bounds(n as int, n as int, j as int, i as int);
                    lemma_linear_round_trip(n as int, n as int, i as int, j as int);
                    lemma_linear_round_trip(n as int, n as int, j as int, i as int);
                }
                let a: usize = self.m2v(i, j);
                let b: usize = self.m2v(j, i);
                let x = self.get_linear(a);
                let y = self.get_linear(b);
                self.put_linear(a, y);
                self.put_linear(b, x);
                proof {
                    assert forall|k: int| 0 <= k < self@.len() implies #[trigger] self@[k] == (
                        if traded(row_of(n as int, k), col_of(n as int, k), i as int, j + 1) {
                            before[linear(n as int, col_of(n as int, k), row_of(n as int, k))]
                        } else {
                            before[k]
                        }) by {
                        lemma_position_round_trip(n as int, n as int, k);
                    }
                }
                j += 1;
            }
            proof {
                assert forall|k: int| 0 <= k < self@.len() implies #[trigger] self@[k] == (
                    if traded(row_of(n as int, k), col_of(n as int, k), i + 1, 0) {
                        before[linear(n as int, col_of(n as int, k), row_of(n as int, k))]
                    } else {
                        before[k]
                    }) by {
                    lemma_position_round_trip(n as int, n as int, k);
                }
            }
            i += 1;
        }
        proof {
            assert forall|k: int| 0 <= k < self@.len() implies self@[k] == transposed(
                n as int, n as int, before)[k] by {
                lemma_position_round_trip(n as int, n as int, k);
            }
            assert(self@ =~= transposed(n as int, n as int, before));
            assert forall|r: int, c: int| 0 <= r < n && 0 <= c < n
                implies self.at(c, r) == #[trigger] old(self).at(r, c) by {
                crate::index::lemma_linear_in_bounds(n as int, n as int, c, r);
                lemma_linear_round_trip(n as int, n as int, c, r);
            }
        }
    }
}

/// Transposing a matrix twice gives back a matrix with the shape and the
/// elements of the first.
pub proof fn lemma_transpose_twice<T>(
    m: &DoubleMatrix<T>,
    t: &DoubleMatrix<T>,
    tt: &DoubleMatrix<T>,
)
    requires
        m.wf(),
        t.nrows() == m.ncols(),
        t.ncols() == m.nrows(),
        t@ == transposed(m.nrows() as int, m.ncols() as int, m@),
        tt.nrows() == t.ncols(),
        tt.ncols() == t.nrows(),
        tt@ == transposed(t.nrows() as int, t.ncols() as int, t@),
    ensures
        tt.same(m),
{
    lemma_transpose_involution(m.nrows() as int, m.ncols() as int, m@);
}

} // verus!
