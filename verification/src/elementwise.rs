//! Elementwise traversals. The operator is a parameter: one routine serves
//! every scalar operation, one every matrix-with-matrix operation, and one
//! every operation of a matrix with a row vector spread over its rows.
//!
//! A contract here says of each element of the result that it is what the
//! operator may return for the corresponding inputs.

use vstd::prelude::*;
use crate::index::{col_of, lemma_position_round_trip};
use crate::matrix::DoubleMatrix;

verus! {

impl<T: Copy> DoubleMatrix<T> {
    /// Applies `op` to every element, in place.
    pub fn map_mut<F: Fn(T) -> T>(&mut self, op: F)
        requires
            forall|i: int| 0 <= i < old(self)@.len() ==> call_requires(op, (old(self)@[i],)),
        ensures
            final(self).nrows() == old(self).nrows(),
            final(self).ncols() == old(self).ncols(),
            final(self)@.len() == old(self)@.len(),
            forall|i: int| 0 <= i < old(self)@.len() ==> call_ensures(
                op, (old(self)@[i],), #[trigger] final(self)@[i]),
    {
        let len: usize = self.data().len();
        let ghost before = self@;
        let mut i: usize = 0;
        while i < len
            invariant
                i <= len,
                len == before.len(),
                self@.len() == len,
                self.nrows() == old(self).nrows(),
                self.ncols() == old(self).ncols(),
                forall|k: int| 0 <= k < len ==> call_requires(op, (before[k],)),
                forall|k: int| 0 <= k < i ==> call_ensures(op, (before[k],), #[trigger] self@[k]),
                forall|k: int| i <= k < len ==> #[trigger] self@[k] == before[k],
            decreases len - i,
        {
            let x = self.get_linear(i);
            let y = op(x);
            self.put_linear(i, y);
            i += 1;
        }
    }

    /// The matrix of `op(x)` for every element `x`.
    pub fn map<F: Fn(T) -> T>(&self, op: F) -> (r: DoubleMatrix<T>)
        requires
            forall|i: int| 0 <= i < self@.len() ==> call_requires(op, (self@[i],)),
        ensures
            r.nrows() == self.nrows(),
            r.ncols() == self.ncols(),
            r@.len() == self@.len(),
            forall|i: int| 0 <= i < self@.len() ==> call_ensures(
                op, (self@[i],), #[trigger] r@[i]),
    {
        let mut r = self.clone();
        r.map_mut(op);
        r
    }

    /// Replaces every element `x` by `op(x, value)`.
    pub fn scalar_op_mut<F: Fn(T, T) -> T>(&mut self, value: T, op: F)
        requires
            forall|i: int| 0 <= i < old(self)@.len() ==> call_requires(
                op, (old(self)@[i], value)),
        ensures
            final(self).nrows() == old(self).nrows(),
            final(self).ncols() == old(self).ncols(),
            final(self)@.len() == old(self)@.len(),
            forall|i: int| 0 <= i < old(self)@.len() ==> call_ensures(
                op, (old(self)@[i], value), #[trigger] final(self)@[i]),
    {
        let len: usize = self.data().len();
        let ghost before = self@;
        let mut i: usize = 0;
        while i < len
            invariant
                i <= len,
                len == before.len(),
                self@.len() == len,
                self.nrows() == old(self).nrows(),
                self.ncols() == old(self).ncols(),
                forall|k: int| 0 <= k < len ==> call_requires(op, (before[k], value)),
                forall|k: int| 0 <= k < i ==> call_ensures(
                    op, (before[k], value), #[trigger] self@[k]),
                forall|k: int| i <= k < len ==> #[trigger] self@[k] == before[k],
            decreases len - i,
        {
            let x = self.get_linear(i);
            let y = op(x, value);
            self.put_linear(i, y);
            i += 1;
        }
    }

    /// The matrix of `op(x, value)` for every element `x`.
    pub fn scalar_op<F: Fn(T, T) -> T>(&self, value: T, op: F) -> (r: DoubleMatrix<T>)
        requires
            forall|i: int| 0 <= i < self@.len() ==> call_requires(op, (self@[i], value)),
        ensures
            r.nrows() == self.nrows(),
            r.ncols() == self.ncols(),
            r@.len() == self@.len(),
            forall|i: int| 0 <= i < self@.len() ==> call_ensures(
                op, (self@[i], value), #[trigger] r@[i]),
    {
        let mut r = self.clone();
        r.scalar_op_mut(value, op);
        r
    }

    /// Replaces every element `x` by `op(x, y)`, where `y` is the element
    /// of `other` at the same place. The two matrices have one shape.
    pub fn matrix_op_mut<F: Fn(T, T) -> T>(&mut self, other: &DoubleMatrix<T>, op: F)
        requires
            old(self).wf(),
            other.wf(),
            old(self).same_shape(other),
            forall|i: int| 0 <= i < old(self)@.len() ==> call_requires(
                op, (old(self)@[i], other@[i])),
        ensures
            final(self).wf(),
            final(self).nrows() == old(self).nrows(),
            final(self).ncols() == old(self).ncols(),
            forall|i: int| 0 <= i < old(self)@.len() ==> call_ensures(
                op, (old(self)@[i], other@[i]), #[trigger] final(self)@[i]),
    {
        let len: usize = self.data().len();
        let ghost before = self@;
        let mut i: usize = 0;
        while i < len
            invariant
                i <= len,
                len == before.len(),
                other@.len() == len,
                self@.len() == len,
                self.nrows() == old(self).nrows(),
                self.ncols() == old(self).ncols(),
                forall|k: int| 0 <= k < len ==> call_requires(op, (before[k], other@[k])),
                forall|k: int| 0 <= k < i ==> call_ensures(
                    op, (before[k], other@[k]), #[trigger] self@[k]),
                forall|k: int| i <= k < len ==> #[trigger] self@[k] == before[k],
            decreases len - i,
        {
            let x = self.get_linear(i);
            let y = op(x, other.get_linear(i));
            self.put_linear(i, y);
            i += 1;
        }
    }

    /// The matrix of `op(x, y)` for every element `x` and the element `y`
    /// of `other` at the same place. The two matrices have one shape.
    pub fn matrix_op<F: Fn(T, T) -> T>(&self, other: &DoubleMatrix<T>, op: F) -> (r:
        DoubleMatrix<T>)
        requires
            self.wf(),
            other.wf(),
            self.same_shape(other),
            forall|i: int| 0 <= i < self@.len() ==> call_requires(op, (self@[i], other@[i])),
        ensures
            r.wf(),
            r.nrows() == self.nrows(),
            r.ncols() == self.ncols(),
            forall|i: int| 0 <= i < self@.len() ==> call_ensures(
                op, (self@[i], other@[i]), #[trigger] r@[i]),
    {
        let mut r = self.clone();
        r.matrix_op_mut(other, op);
        r
    }

    /// The matrix of `op(x, y)` for every element `x` and the element `y`
    /// of the row vector `row` in the same column: the vector is spread
    /// over all rows.
    pub fn row_op<F: Fn(T, T) -> T>(&self, row: &DoubleMatrix<T>, op: F) -> (r: DoubleMatrix<T>)
        requires
            self.wf(),
            row.wf(),
            row.nrows() == 1,
            row.ncols() == self.ncols(),
            forall|i: int| 0 <= i < self@.len() ==> call_requires(
                op, (self@[i], row@[col_of(self.nrows() as int, i)])),
        ensures
            r.wf(),
            r.nrows() == self.nrows(),
            r.ncols() == self.ncols(),
            forall|i: int| 0 <= i < self@.len() ==> call_ensures(
                op, (self@[i], row@[col_of(self.nrows() as int, i)]), #[trigger] r@[i]),
    {
        let rows: usize = self.rows();
        let cols: usize = self.cols();
        let len: usize = self.data().len();
        let mut out: Vec<T> = Vec::new();
        let mut i: usize = 0;
        while i < len
            invariant
                i <= len,
                self.wf(),
                row.wf(),
                rows == self.nrows(),
                cols == self.ncols(),
                row@.len() == cols,
                len == self@.len(),
                out@.len() == i,
                forall|k: int| 0 <= k < len ==> call_requires(
                    op, (self@[k], row@[col_of(rows as int, k)])),
                forall|k: int| 0 <= k < i ==> call_ensures(
                    op, (self@[k], row@[col_of(rows as int, k)]), #[trigger] out@[k]),
            decreases len - i,
        {
            assert(rows > 0) by (nonlinear_arith)
                requires i < rows * cols;
            proof {
                lemma_position_round_trip(rows as int, cols as int, i as int);
            }
            let y = op(self.get_linear(i), row.get_linear(i / rows));
            out.push(y);
            i += 1;
        }
        DoubleMatrix::from_parts(rows, cols, out)
    }
}

/// Where `undo` takes back what `op` does with the scalar `value`, applying
/// `op` and then `undo` to every element gives back the elements one
/// started with. `first` is a matrix, `second` what `scalar_op` makes of it
/// with `op`, and `third` what `scalar_op` makes of `second` with `undo`.
pub proof fn lemma_scalar_op_undone<T, F: Fn(T, T) -> T, G: Fn(T, T) -> T>(
    op: F,
    undo: G,
    value: T,
    first: Seq<T>,
    second: Seq<T>,
    third: Seq<T>,
)
    requires
        first.len() == second.len(),
        second.len() == third.len(),
        forall|i: int| 0 <= i < first.len() ==> call_ensures(
            op, (first[i], value), #[trigger] second[i]),
        forall|i: int| 0 <= i < second.len() ==> call_ensures(
            undo, (second[i], value), #[trigger] third[i]),
        forall|a: T, b: T, c: T|
            #[trigger] call_ensures(op, (a, value), b)
                && #[trigger] call_ensures(undo, (b, value), c) ==> c == a,
    ensures
        third == first,
{
    assert forall|i: int| 0 <= i < first.len() implies third[i] == first[i] by {
        assert(call_ensures(op, (first[i], value), second[i]));
        assert(call_ensures(undo, (second[i], value), third[i]));
    }
    assert(third =~= first);
}

} // verus!
