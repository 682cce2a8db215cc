//! The dense matrix type: a shape and a column-major buffer of exactly
//! `rows * cols` elements.
//!
//! The element type is a parameter. Nothing in the storage layout depends on
//! what an element is, so the layout is stated and proved once, for every
//! element type; arithmetic on elements is supplied by the caller.

use vstd::prelude::*;
use crate::index::{linear, lemma_linear_in_bounds};

verus! {

/// Why a buffer was refused as the contents of a `rows` by `cols` matrix.
#[derive(Debug, Clone, Copy, PartialEq, Eq, Structural)]
pub struct DimensionMismatch {
    /// Requested number of rows.
    pub rows: usize,
    /// Requested number of columns.
    pub cols: usize,
    /// Length of the buffer that was supplied.
    pub len: usize,
}

/// Dense matrix in column-major order.
#[derive(Debug)]
pub struct DoubleMatrix<T> {
    rows: usize,
    cols: usize,
    data: Vec<T>,
}

impl<T> View for DoubleMatrix<T> {
    type V = Seq<T>;

    /// The elements in storage order, column after column.
    closed spec fn view(&self) -> Seq<T> {
        self.data@
    }
}

impl<T> DoubleMatrix<T> {
    /// Number of rows.
    pub closed spec fn nrows(&self) -> nat {
        self.rows as nat
    }

    /// Number of columns.
    pub closed spec fn ncols(&self) -> nat {
        self.cols as nat
    }

    /// The buffer holds exactly one element per position of the shape.
    pub open spec fn wf(&self) -> bool {
        self@.len() == self.nrows() * self.ncols()
    }

    /// Element at `(row, col)`.
    pub open spec fn at(&self, row: int, col: int) -> T {
        self@[linear(self.nrows() as int, row, col)]
    }

    /// Same shape as `other`.
    pub open spec fn same_shape(&self, other: &DoubleMatrix<T>) -> bool {
        self.nrows() == other.nrows() && self.ncols() == other.ncols()
    }

    /// Same shape and same elements as `other`.
    pub open spec fn same(&self, other: &DoubleMatrix<T>) -> bool {
        self.same_shape(other) && self@ == other@
    }
}

impl<T: Copy> DoubleMatrix<T> {
    /// Builds a matrix from a column-major buffer. The buffer is accepted
    /// exactly when its length is `rows * cols`.
    pub fn new(rows: usize, cols: usize, data: Vec<T>) -> (r: Result<Self, DimensionMismatch>)
        ensures
            r is Ok <==> rows * cols == data@.len(),
            r matches Ok(m) ==> m.wf() && m.nrows() == rows && m.ncols() == cols && m@ == data@,
            r matches Err(e) ==> e == (DimensionMismatch { rows, cols, len: data.len() }),
    {
        let len = data.len();
        match rows.checked_mul(cols) {
            Some(n) if n == len => Ok(DoubleMatrix { rows, cols, data }),
            _ => Err(DimensionMismatch { rows, cols, len }),
        }
    }

    /// Builds a matrix from a buffer already known to have the right length.
    pub(crate) fn from_parts(rows: usize, cols: usize, data: Vec<T>) -> (m: Self)
        requires
            rows * cols == data@.len(),
        ensures
            m.wf(),
            m.nrows() == rows,
            m.ncols() == cols,
            m@ == data@,
    {
        DoubleMatrix { rows, cols, data }
    }

    /// A matrix with every element equal to `value`; `None` when
    /// `rows * cols` is not a length that a buffer can have.
    pub fn filled(rows: usize, cols: usize, value: T) -> (r: Option<Self>)
        ensures
            r is Some <==> rows * cols <= usize::MAX,
            r matches Some(m) ==> m.wf() && m.nrows() == rows && m.ncols() == cols
                && forall|i: int| 0 <= i < rows * cols ==> m@[i] == value,
    {
        match rows.checked_mul(cols) {
            Some(n) => {
                let mut data: Vec<T> = Vec::new();
                let mut i: usize = 0;
                while i < n
                    invariant
                        i <= n,
                        data@.len() == i,
                        forall|j: int| 0 <= j < i ==> data@[j] == value,
                    decreases n - i,
                {
                    data.push(value);
                    i += 1;
                }
                Some(DoubleMatrix { rows, cols, data })
            },
            None => None,
        }
    }

    /// Number of rows.
    pub fn rows(&self) -> (r: usize)
        ensures
            r == self.nrows(),
    {
        self.rows
    }

    /// Number of columns.
    pub fn cols(&self) -> (r: usize)
        ensures
            r == self.ncols(),
    {
        self.cols
    }

    /// Rows and columns as a pair.
    pub fn shape(&self) -> (r: (usize, usize))
        ensures
            r.0 == self.nrows(),
            r.1 == self.ncols(),
    {
        (self.rows, self.cols)
    }

    /// The elements in storage order.
    pub fn data(&self) -> (r: &[T])
        ensures
            r@ == self@,
    {
        self.data.as_slice()
    }

    /// Gives up the matrix for its buffer.
    pub fn into_data(self) -> (r: Vec<T>)
        ensures
            r@ == self@,
    {
        self.data
    }

    /// Linear position of `(row, col)`. No bound is imposed on the pair
    /// beyond the position being a number the machine can hold.
    pub fn m2v(&self, row: usize, col: usize) -> (i: usize)
        requires
            linear(self.nrows() as int, row as int, col as int) <= usize::MAX,
        ensures
            i == linear(self.nrows() as int, row as int, col as int),
    {
        assert(0 <= col * self.rows <= usize::MAX) by (nonlinear_arith)
            requires row + col * self.rows <= usize::MAX;
        row + col * self.rows
    }

    /// Row and column of the element at linear position `i`.
    pub fn v2m(&self, i: usize) -> (r: (usize, usize))
        requires
            self.nrows() > 0,
        ensures
            r.0 == crate::index::row_of(self.nrows() as int, i as int),
            r.1 == crate::index::col_of(self.nrows() as int, i as int),
    {
        (i % self.rows, i / self.rows)
    }

    /// Element at `(row, col)`. The pair need only name a position inside
    /// the buffer.
    pub fn get(&self, row: usize, col: usize) -> (v: T)
        requires
            linear(self.nrows() as int, row as int, col as int) < self@.len(),
        ensures
            v == self.at(row as int, col as int),
    {
        let len: usize = self.data.len();
        assert(0 <= col * self.rows <= len) by (nonlinear_arith)
            requires row + col * self.rows < len;
        self.data[row + col * self.rows]
    }

    /// Overwrites the element at `(row, col)`; every other element and the
    /// shape stay as they were.
    pub fn put(&mut self, row: usize, col: usize, value: T)
        requires
            linear(old(self).nrows() as int, row as int, col as int) < old(self)@.len(),
        ensures
            final(self).nrows() == old(self).nrows(),
            final(self).ncols() == old(self).ncols(),
            final(self)@ == old(self)@.update(
                linear(old(self).nrows() as int, row as int, col as int), value),
    {
        let len: usize = self.data.len();
        assert(0 <= col * self.rows <= len) by (nonlinear_arith)
            requires row + col * self.rows < len;
        let i: usize = row + col * self.rows;
        self.data.set(i, value);
    }

    /// Element at linear position `i`.
    pub fn get_linear(&self, i: usize) -> (v: T)
        requires
            i < self@.len(),
        ensures
            v == self@[i as int],
    {
        self.data[i]
    }

    /// Overwrites the element at linear position `i`.
    pub fn put_linear(&mut self, i: usize, value: T)
        requires
            i < old(self)@.len(),
        ensures
            final(self).nrows() == old(self).nrows(),
            final(self).ncols() == old(self).ncols(),
            final(self)@ == old(self)@.update(i as int, value),
    {
        self.data.set(i, value);
    }
}

impl<T: Copy> Clone for DoubleMatrix<T> {
    /// A full copy: same shape, same elements, its own buffer.
    fn clone(&self) -> (r: Self)
        ensures
            r.nrows() == self.nrows(),
            r.ncols() == self.ncols(),
            r@ == self@,
    {
        let mut data: Vec<T> = Vec::new();
        let n: usize = self.data.len();
        let mut i: usize = 0;
        while i < n
            invariant
                i <= n,
                n == self.data@.len(),
                data@.len() == i,
                forall|j: int| 0 <= j < i ==> data@[j] == self.data@[j],
            decreases n - i,
        {
            data.push(self.data[i]);
            i += 1;
        }
        assert(data@ =~= self.data@);
        DoubleMatrix { rows: self.rows, cols: self.cols, data }
    }
}

/// An in-bounds `(row, col)` of a well-formed matrix names a position inside
/// its buffer.
pub proof fn lemma_at_in_bounds<T>(m: &DoubleMatrix<T>, row: int, col: int)
    requires
        m.wf(),
        0 <= row < m.nrows(),
        0 <= col < m.ncols(),
    ensures
        0 <= linear(m.nrows() as int, row, col) < m@.len(),
{
    lemma_linear_in_bounds(m.nrows() as int, m.ncols() as int, row, col);
}

} // verus!
