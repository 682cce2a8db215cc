//! Column-major index arithmetic.
//!
//! Element `(row, col)` of a matrix with `rows` rows lives at linear position
//! `row + col * rows`; consecutive elements of one column are adjacent.

use vstd::prelude::*;

verus! {

/// Linear position of element `(row, col)` in a column-major buffer.
pub open spec fn linear(rows: int, row: int, col: int) -> int {
    row + col * rows
}

/// Row of the element stored at linear position `i`.
pub open spec fn row_of(rows: int, i: int) -> int {
    i % rows
}

/// Column of the element stored at linear position `i`.
pub open spec fn col_of(rows: int, i: int) -> int {
    i / rows
}

/// Every in-bounds `(row, col)` maps to a position inside the buffer.
pub proof fn lemma_linear_in_bounds(rows: int, cols: int, row: int, col: int)
    requires
        0 <= row < rows,
        0 <= col < cols,
    ensures
        0 <= linear(rows, row, col) < rows * cols,
{
    assert(col * rows >= 0) by (nonlinear_arith)
        requires col >= 0, rows > 0;
    assert((col + 1) * rows <= cols * rows) by (nonlinear_arith)
        requires col + 1 <= cols, rows > 0;
    assert((col + 1) * rows == col * rows + rows) by (nonlinear_arith);
    assert(cols * rows == rows * cols) by (nonlinear_arith);
}

/// Converting `(row, col)` to a linear position and back yields `(row, col)`.
pub proof fn lemma_linear_round_trip(rows: int, cols: int, row: int, col: int)
    requires
        0 <= row < rows,
        0 <= col < cols,
    ensures
        row_of(rows, linear(rows, row, col)) == row,
        col_of(rows, linear(rows, row, col)) == col,
{
    vstd::arithmetic::div_mod::lemma_fundamental_div_mod_converse(
        row + col * rows, rows, col, row);
}

/// Converting a linear position to `(row, col)` and back yields the position,
/// and the pair it names is in bounds.
pub proof fn lemma_position_round_trip(rows: int, cols: int, i: int)
    requires
        0 < rows,
        0 <= i < rows * cols,
    ensures
        0 <= row_of(rows, i) < rows,
        0 <= col_of(rows, i) < cols,
        linear(rows, row_of(rows, i), col_of(rows, i)) == i,
{
    vstd::arithmetic::div_mod::lemma_fundamental_div_mod(i, rows);
    vstd::arithmetic::div_mod::lemma_mod_bound(i, rows);
    vstd::arithmetic::div_mod::lemma_div_pos_is_pos(i, rows);
    assert(rows * (i / rows) == (i / rows) * rows) by (nonlinear_arith);
    let q = i / rows;
    assert(q < cols) by (nonlinear_arith)
        requires q * rows <= i, i < rows * cols, rows > 0;
}

} // verus!
