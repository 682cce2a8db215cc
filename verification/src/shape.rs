//! Questions about the shape of a matrix, and the exchange of its buffer
//! for another of the same length.

use vstd::prelude::*;
use crate::index::{lemma_linear_in_bounds};
use crate::matrix::{DimensionMismatch, DoubleMatrix};

verus! {

impl<T: Copy> DoubleMatrix<T> {
    /// Whether there are as many rows as columns.
    pub fn is_square(&self) -> (r: bool)
        ensures
            r == (self.nrows() == self.ncols()),
    {
        self.rows() == self.cols()
    }

    /// Whether there is exactly one row.
    pub fn is_row_vector(&self) -> (r: bool)
        ensures
            r == (self.nrows() == 1),
    {
        self.rows() == 1
    }

    /// Whether there is exactly one column.
    pub fn is_column_vector(&self) -> (r: bool)
        ensures
            r == (self.ncols() == 1),
    {
        self.cols() == 1
    }

    /// Whether there is exactly one row or exactly one column.
    pub fn is_vector(&self) -> (r: bool)
        ensures
            r == (self.nrows() == 1 || self.ncols() == 1),
    {
        self.is_row_vector() || self.is_column_vector()
    }

    /// Whether the matrix is square and `same` holds of every element and
    /// its mirror image across the main diagonal.
    pub fn is_symmetric<F: Fn(T, T) -> bool>(&self, same: F) -> (r: bool)
        requires
            self.wf(),
            forall|x: T, y: T| #[trigger] call_requires(same, (x, y)),
        ensures
            r ==> self.nrows() == self.ncols() && forall|i: int, j: int|
                0 <= i < self.nrows() && 0 <= j < self.ncols() ==> call_ensures(
                    same, (#[trigger] self.at(i, j), self.at(j, i)), true),
            !r ==> self.nrows() != self.ncols() || exists|i: int, j: int|
                0 <= i < self.nrows() && 0 <= j < self.ncols() && call_ensures(
                    same, (#[trigger] self.at(i, j), self.at(j, i)), false),
    {
        if !self.is_square() {
            return false;
        }
        let n: usize = self.rows();
        let mut i: usize = 0;
        while i < n
            invariant
                i <= n,
                self.wf(),
                n == self.nrows(),
                n == self.ncols(),
                forall|x: T, y: T| #[trigger] call_requires(same, (x, y)),
                forall|p: int, q: int| 0 <= p < i && 0 <= q < n ==> call_ensures(
                    same, (#[trigger] self.at(p, q), self.at(q, p)), true),
            decreases n - i,
        {
            let mut j: usize = 0;
            while j < n
                invariant
                    j <= n,
                    i < n,
                    self.wf(),
                    n == self.nrows(),
                    n == self.ncols(),
                    forall|x: T, y: T| #[trigger] call_requires(same, (x, y)),
                    forall|p: int, q: int| 0 <= p < i && 0 <= q < n ==> call_ensures(
                        same, (#[trigger] self.at(p, q), self.at(q, p)), true),
                    forall|q: int| 0 <= q < j ==> call_ensures(
                        same, (#[trigger] self.at(i as int, q), self.at(q, i as int)), true),
                decreases n - j,
            {
                proof {
                    lemma_linear_in_bounds(n as int, n as int, i as int, j as int);
                    lemma_linear_in_bounds(n as int, n as int, j as int, i as int);
                }
                let alike = same(self.get(i, j), self.get(j, i));
                if !alike {
                    assert(call_ensures(
                        same, (self.at(i as int, j as int), self.at(j as int, i as int)), false));
                    return false;
                }
                j += 1;
            }
            i += 1;
        }
        true
    }

    /// Exchanges the buffer for `data`, which is accepted exactly when it
    /// has one element per position of the shape. A refused buffer leaves
    /// the matrix as it was.
    pub fn replace(&mut self, data: Vec<T>) -> (r: Result<(), DimensionMismatch>)
        requires
            old(self).wf(),
        ensures
            final(self).wf(),
            final(self).nrows() == old(self).nrows(),
            final(self).ncols() == old(self).ncols(),
            r is Ok <==> data@.len() == old(self).nrows() * old(self).ncols(),
            r is Ok ==> final(self)@ == data@,
            r matches Err(e) ==> final(self)@ == old(self)@ && e == (DimensionMismatch {
                rows: old(self).nrows() as usize,
                cols: old(self).ncols() as usize,
                len: data.len(),
            }),
    {
        let rows: usize = self.rows();
        let cols: usize = self.cols();
        let len: usize = data.len();
        if len == self.data().len() {
            *self = DoubleMatrix::from_parts(rows, cols, data);
            Ok(())
        } else {
            Err(DimensionMismatch { rows, cols, len })
        }
    }
}

} // verus!
