//! Matrices built from a rule rather than from a column-major buffer.

use vstd::prelude::*;
use crate::index::{col_of, lemma_linear_in_bounds, lemma_linear_round_trip,
    lemma_position_round_trip, row_of};
use crate::matrix::{DimensionMismatch, DoubleMatrix};

verus! {

/// Buffer of the `rows` by `cols` matrix with `one` on the main diagonal and
/// `zero` elsewhere.
pub open spec fn identity_data<T>(rows: int, cols: int, zero: T, one: T) -> Seq<T> {
    Seq::new((rows * cols) as nat, |k: int|
        if row_of(rows, k) == col_of(rows, k) { one } else { zero })
}

/// Column-major buffer of the `rows` by `cols` matrix whose rows, one after
/// the other, are `data`.
pub open spec fn from_row_major<T>(rows: int, cols: int, data: Seq<T>) -> Seq<T> {
    Seq::new(data.len(), |k: int| data[cols * row_of(rows, k) + col_of(rows, k)])
}

/// Reading a buffer row by row builds the transpose of the matrix that
/// reading it column by column builds with the sides exchanged.
pub proof fn lemma_row_major_is_transposed<T>(rows: int, cols: int, data: Seq<T>)
    requires
        0 <= rows,
        0 <= cols,
        data.len() == rows * cols,
    ensures
        from_row_major(rows, cols, data) == crate::transpose::transposed(cols, rows, data),
{
    let by_rows = from_row_major(rows, cols, data);
    let turned = crate::transpose::transposed(cols, rows, data);
    assert forall|k: int| 0 <= k < data.len() implies by_rows[k] == turned[k] by {
        assert(cols * row_of(rows, k) == row_of(rows, k) * cols) by (nonlinear_arith);
    }
    assert(by_rows =~= turned);
}

impl<T: Copy> DoubleMatrix<T> {
    /// The matrix with `one` along the main diagonal, as far as the shorter
    /// side reaches, and `zero` everywhere else. `None` when `rows * cols`
    /// is not a length that a buffer can have.
    pub fn identity(rows: usize, cols: usize, zero: T, one: T) -> (r: Option<Self>)
        ensures
            r is Some <==> rows * cols <= usize::MAX,
            r matches Some(m) ==> m.wf() && m.nrows() == rows && m.ncols() == cols
                && m@ == identity_data(rows as int, cols as int, zero, one)
                && forall|i: int, j: int| 0 <= i < rows && 0 <= j < cols
                    ==> #[trigger] m.at(i, j) == (if i == j { one } else { zero }),
    {
        match rows.checked_mul(cols) {
            None => None,
            Some(len) => {
                let mut data: Vec<T> = Vec::new();
                let mut k: usize = 0;
                while k < len
                    invariant
                        k <= len,
                        len == rows * cols,
                        data@.len() == k,
                        forall|p: int| 0 <= p < k ==> data@[p] == identity_data(
                            rows as int, cols as int, zero, one)[p],
                    decreases len - k,
                {
                    assert(rows > 0) by (nonlinear_arith)
                        requires k < rows * cols;
                    if k % rows == k / rows {
                        data.push(one);
                    } else {
                        data.push(zero);
                    }
                    k += 1;
                }
                assert(data@ =~= identity_data(rows as int, cols as int, zero, one));
                let m = DoubleMatrix::from_parts(rows, cols, data);
                proof {
                    assert forall|i: int, j: int| 0 <= i < rows && 0 <= j < cols
                        implies #[trigger] m.at(i, j) == (if i == j { one } else { zero }) by {
                        lemma_linear_in_bounds(rows as int, cols as int, i, j);
                        lemma_linear_round_trip(rows as int, cols as int, i, j);
                    }
                }
                Some(m)
            },
        }
    }

    /// Builds a matrix from its rows written one after the other. The slice
    /// is accepted exactly when its length is `rows * cols`.
    pub fn from_row_slice(rows: usize, cols: usize, data: &[T]) -> (r: Result<
        Self,
        DimensionMismatch,
    >)
        ensures
            r is Ok <==> rows * cols == data@.len(),
            r matches Ok(m) ==> m.wf() && m.nrows() == rows && m.ncols() == cols
                && m@ == from_row_major(rows as int, cols as int, data@)
                && forall|i: int, j: int| 0 <= i < rows && 0 <= j < cols
                    ==> #[trigger] m.at(i, j) == data@[cols * i + j],
            r matches Err(e) ==> e == (DimensionMismatch { rows, cols, len: data.len() }),
    {
        let len: usize = data.len();
        match rows.checked_mul(cols) {
            Some(n) if n == len => {
                let mut out: Vec<T> = Vec::new();
                let mut k: usize = 0;
                while k < len
                    invariant
                        k <= len,
                        len == rows * cols,
                        len == data@.len(),
                        out@.len() == k,
                        forall|p: int| 0 <= p < k ==> out@[p] == from_row_major(
                            rows as int, cols as int, data@)[p],
                    decreases len - k,
                {
                    assert(rows > 0) by (nonlinear_arith)
                        requires k < rows * cols;
                    let i: usize = k % rows;
                    let j: usize = k / rows;
                    proof {
                        lemma_position_round_trip(rows as int, cols as int, k as int);
                        lemma_linear_in_bounds(cols as int, rows as int, j as int, i as int);
                        assert(rows * cols == cols * rows) by (nonlinear_arith);
                        assert(i * cols == cols * i) by (nonlinear_arith);
                        assert(0 <= cols * i) by (nonlinear_arith);
                    }
                    out.push(data[cols * i + j]);
                    k += 1;
                }
                assert(out@ =~= from_row_major(rows as int, cols as int, data@));
                let m = DoubleMatrix::from_parts(rows, cols, out);
                proof {
                    assert forall|i: int, j: int| 0 <= i < rows && 0 <= j < cols
                        implies #[trigger] m.at(i, j) == data@[cols * i + j] by {
                        lemma_linear_in_bounds(rows as int, cols as int, i, j);
                        lemma_linear_round_trip(rows as int, cols as int, i, j);
                    }
                }
                Ok(m)
            },
            _ => Err(DimensionMismatch { rows, cols, len }),
        }
    }
}

} // verus!
