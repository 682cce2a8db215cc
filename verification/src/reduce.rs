//! Reductions: folding an operator over all elements, over each column, or
//! over each row. Sums, minima and maxima are folds that differ only in the
//! operator and in the value the fold starts from.

use vstd::prelude::*;
use crate::index::lemma_linear_in_bounds;
use crate::matrix::DoubleMatrix;

verus! {

/// `trace` lists the values a left fold of `op` over `items` passes
/// through: it starts at `init`, and each later entry is what `op` may
/// return for the entry before it and the next item.
pub open spec fn is_fold_trace<T, F: Fn(T, T) -> T>(
    op: F, init: T, items: Seq<T>, trace: Seq<T>) -> bool {
    &&& trace.len() == items.len() + 1
    &&& trace[0] == init
    &&& forall|i: int| 0 <= i < items.len() ==> call_ensures(
        op, (trace[i], items[i]), #[trigger] trace[i + 1])
}

/// `acc` is a value that folding `op` over `items` from the left, starting
/// at `init`, may end with.
pub open spec fn folds_to<T, F: Fn(T, T) -> T>(op: F, init: T, items: Seq<T>, acc: T) -> bool {
    exists|trace: Seq<T>| #[trigger] is_fold_trace(op, init, items, trace) && trace.last() == acc
}

/// Folding over nothing ends where it started.
pub proof fn lemma_fold_empty<T, F: Fn(T, T) -> T>(op: F, init: T)
    ensures
        is_fold_trace(op, init, Seq::<T>::empty(), seq![init]),
        folds_to(op, init, Seq::<T>::empty(), init),
{
    assert(is_fold_trace(op, init, Seq::<T>::empty(), seq![init]));
    assert(seq![init].last() == init);
}

/// One more step of a fold.
pub proof fn lemma_fold_step<T, F: Fn(T, T) -> T>(
    op: F, init: T, items: Seq<T>, n: int, trace: Seq<T>, acc: T)
    requires
        0 <= n < items.len(),
        is_fold_trace(op, init, items.take(n), trace),
        call_ensures(op, (trace.last(), items[n]), acc),
    ensures
        is_fold_trace(op, init, items.take(n + 1), trace.push(acc)),
        trace.push(acc).last() == acc,
{
    let next = trace.push(acc);
    assert forall|i: int| 0 <= i < n + 1 implies call_ensures(
        op, (next[i], items.take(n + 1)[i]), #[trigger] next[i + 1]) by {
        if i < n {
            assert(next[i] == trace[i]);
            assert(next[i + 1] == trace[i + 1]);
            assert(items.take(n + 1)[i] == items.take(n)[i]);
        }
    }
}

/// Where the operator computes a function `g`, the fold trace ends at the
/// left fold of `g` over the items.
pub proof fn lemma_fold_trace_of_function<T, F: Fn(T, T) -> T>(
    op: F, g: spec_fn(T, T) -> T, init: T, items: Seq<T>, trace: Seq<T>)
    requires
        is_fold_trace(op, init, items, trace),
        forall|a: T, x: T, y: T| call_ensures(op, (a, x), y) ==> y == g(a, x),
    ensures
        trace.last() == items.fold_left(init, g),
    decreases items.len(),
{
    if items.len() > 0 {
        let shorter = trace.drop_last();
        assert forall|i: int| 0 <= i < items.drop_last().len() implies call_ensures(
            op, (shorter[i], items.drop_last()[i]), #[trigger] shorter[i + 1]) by {
            assert(shorter[i + 1] == trace[i + 1]);
        }
        lemma_fold_trace_of_function(op, g, init, items.drop_last(), shorter);
        let n = items.len() - 1;
        assert(call_ensures(op, (trace[n], items[n]), trace[n + 1]));
        assert(shorter.last() == trace[n]);
    }
}

/// Where the operator computes a function `g`, a fold of the operator
/// gives the left fold of `g` over the items and nothing else.
pub proof fn lemma_fold_of_function<T, F: Fn(T, T) -> T>(
    op: F, g: spec_fn(T, T) -> T, init: T, items: Seq<T>, acc: T)
    requires
        folds_to(op, init, items, acc),
        forall|a: T, x: T, y: T| call_ensures(op, (a, x), y) ==> y == g(a, x),
    ensures
        acc == items.fold_left(init, g),
{
    let trace = choose|trace: Seq<T>| #[trigger]
        is_fold_trace(op, init, items, trace) && trace.last() == acc;
    lemma_fold_trace_of_function(op, g, init, items, trace);
}

impl<T> DoubleMatrix<T> {
    /// Column `col` from top to bottom.
    pub open spec fn column(&self, col: int) -> Seq<T> {
        Seq::new(self.nrows(), |r: int| self.at(r, col))
    }

    /// Row `row` from left to right.
    pub open spec fn row(&self, row: int) -> Seq<T> {
        Seq::new(self.ncols(), |c: int| self.at(row, c))
    }
}

impl<T: Copy> DoubleMatrix<T> {
    /// Folds `op` over all elements in storage order, starting at `init`.
    /// An empty matrix gives `init`.
    pub fn fold<F: Fn(T, T) -> T>(&self, init: T, op: F) -> (acc: T)
        requires
            forall|a: T, i: int| 0 <= i < self@.len() ==> call_requires(op, (a, self@[i])),
        ensures
            folds_to(op, init, self@, acc),
    {
        let items = self.data();
        let len: usize = items.len();
        let mut acc = init;
        let mut i: usize = 0;
        let ghost mut trace = seq![init];
        proof {
            lemma_fold_empty(op, init);
            assert(items@.take(0) =~= Seq::<T>::empty());
        }
        while i < len
            invariant
                i <= len,
                len == items@.len(),
                items@ == self@,
                forall|a: T, k: int| 0 <= k < len ==> call_requires(op, (a, items@[k])),
                is_fold_trace(op, init, items@.take(i as int), trace),
                trace.last() == acc,
            decreases len - i,
        {
            let next = op(acc, items[i]);
            proof {
                lemma_fold_step(op, init, items@, i as int, trace, next);
                trace = trace.push(next);
            }
            acc = next;
            i += 1;
        }
        assert(items@.take(len as int) =~= items@);
        acc
    }

    /// The row vector whose entry `c` is the fold of `op` over column `c`,
    /// top to bottom, starting at `init`.
    pub fn column_fold<F: Fn(T, T) -> T>(&self, init: T, op: F) -> (v: DoubleMatrix<T>)
        requires
            self.wf(),
            forall|a: T, i: int| 0 <= i < self@.len() ==> call_requires(op, (a, self@[i])),
        ensures
            v.wf(),
            v.nrows() == 1,
            v.ncols() == self.ncols(),
            forall|c: int| 0 <= c < self.ncols() ==> folds_to(
                op, init, self.column(c), #[trigger] v@[c]),
    {
        let rows: usize = self.rows();
        let cols: usize = self.cols();
        let mut out: Vec<T> = Vec::new();
        let mut c: usize = 0;
        while c < cols
            invariant
                c <= cols,
                self.wf(),
                rows == self.nrows(),
                cols == self.ncols(),
                out@.len() == c,
                forall|a: T, i: int| 0 <= i < self@.len() ==> call_requires(op, (a, self@[i])),
                forall|k: int| 0 <= k < c ==> folds_to(
                    op, init, self.column(k), #[trigger] out@[k]),
            decreases cols - c,
        {
            let ghost column = self.column(c as int);
            let mut acc = init;
            let mut r: usize = 0;
            let ghost mut trace = seq![init];
            proof {
                lemma_fold_empty(op, init);
                assert(column.take(0) =~= Seq::<T>::empty());
            }
            while r < rows
                invariant
                    r <= rows,
                    c < cols,
                    self.wf(),
                    rows == self.nrows(),
                    cols == self.ncols(),
                    column == self.column(c as int),
                    forall|a: T, i: int| 0 <= i < self@.len() ==> call_requires(
                        op, (a, self@[i])),
                    is_fold_trace(op, init, column.take(r as int), trace),
                    trace.last() == acc,
                decreases rows - r,
            {
                proof {
                    lemma_linear_in_bounds(rows as int, cols as int, r as int, c as int);
                }
                let next = op(acc, self.get(r, c));
                proof {
                    lemma_fold_step(op, init, column, r as int, trace, next);
                    trace = trace.push(next);
                }
                acc = next;
                r += 1;
            }
            assert(column.take(rows as int) =~= column);
            out.push(acc);
            c += 1;
        }
        DoubleMatrix::from_parts(1, cols, out)
    }

    /// The column vector whose entry `r` is the fold of `op` over row `r`,
    /// left to right, starting at `init`.
    pub fn row_fold<F: Fn(T, T) -> T>(&self, init: T, op: F) -> (v: DoubleMatrix<T>)
        requires
            self.wf(),
            forall|a: T, i: int| 0 <= i < self@.len() ==> call_requires(op, (a, self@[i])),
        ensures
            v.wf(),
            v.nrows() == self.nrows(),
            v.ncols() == 1,
            forall|r: int| 0 <= r < self.nrows() ==> folds_to(
                op, init, self.row(r), #[trigger] v@[r]),
    {
        let rows: usize = self.rows();
        let cols: usize = self.cols();
        let mut out: Vec<T> = Vec::new();
        let mut r: usize = 0;
        while r < rows
            invariant
                r <= rows,
                self.wf(),
                rows == self.nrows(),
                cols == self.ncols(),
                out@.len() == r,
                forall|a: T, i: int| 0 <= i < self@.len() ==> call_requires(op, (a, self@[i])),
                forall|k: int| 0 <= k < r ==> folds_to(op, init, self.row(k), #[trigger] out@[k]),
            decreases rows - r,
        {
            let ghost row = self.row(r as int);
            let mut acc = init;
            let mut c: usize = 0;
            let ghost mut trace = seq![init];
            proof {
                lemma_fold_empty(op, init);
                assert(row.take(0) =~= Seq::<T>::empty());
            }
            while c < cols
                invariant
                    c <= cols,
                    r < rows,
                    self.wf(),
                    rows == self.nrows(),
                    cols == self.ncols(),
                    row == self.row(r as int),
                    forall|a: T, i: int| 0 <= i < self@.len() ==> call_requires(
                        op, (a, self@[i])),
                    is_fold_trace(op, init, row.take(c as int), trace),
                    trace.last() == acc,
                decreases cols - c,
            {
                proof {
                    lemma_linear_in_bounds(rows as int, cols as int, r as int, c as int);
                }
                let next = op(acc, self.get(r, c));
                proof {
                    lemma_fold_step(op, init, row, c as int, trace, next);
                    trace = trace.push(next);
                }
                acc = next;
                c += 1;
            }
            assert(row.take(cols as int) =~= row);
            out.push(acc);
            r += 1;
        }
        DoubleMatrix::from_parts(rows, 1, out)
    }
}

} // verus!
