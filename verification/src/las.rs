//! What is asked of the parameters of a Lanczos run with selective
//! orthogonalization before it starts.

use vstd::prelude::*;

verus! {

/// Why the parameters of a Lanczos run were refused.
#[derive(Debug, Clone, Copy, PartialEq, Eq, Structural)]
pub enum ParameterError {
    /// The left end of the interval of unwanted eigenvalues lies to the
    /// right of its right end.
    IntervalReversed,
    /// The matrix has no rows or no columns.
    EmptyMatrix,
    /// The number of Lanczos steps is zero or more than a side of the
    /// matrix.
    InvalidIterations,
    /// No eigenpairs are asked for.
    InvalidDimensions,
    /// More eigenpairs are asked for than there are Lanczos steps.
    DimensionsExceedIterations { dimensions: usize, iterations: usize },
}

/// What the parameters come to: the rules are tried in order and the first
/// that is broken is reported. `ends_reversed` says whether the left end of
/// the interval of unwanted eigenvalues is greater than its right end.
pub open spec fn parameters_outcome(
    rows: usize,
    cols: usize,
    ends_reversed: bool,
    dimensions: usize,
    iterations: usize,
) -> Result<(), ParameterError> {
    if ends_reversed {
        Err(ParameterError::IntervalReversed)
    } else if rows == 0 || cols == 0 {
        Err(ParameterError::EmptyMatrix)
    } else if iterations == 0 || iterations > cols || iterations > rows {
        Err(ParameterError::InvalidIterations)
    } else if dimensions == 0 {
        Err(ParameterError::InvalidDimensions)
    } else if dimensions > iterations {
        Err(ParameterError::DimensionsExceedIterations { dimensions, iterations })
    } else {
        Ok(())
    }
}

/// Validates the parameters of a Lanczos run on a `rows` by `cols` matrix:
/// `dimensions` is the number of eigenpairs wanted and `iterations` the
/// number of Lanczos steps allowed.
pub fn check_parameters(
    rows: usize,
    cols: usize,
    ends_reversed: bool,
    dimensions: usize,
    iterations: usize,
) -> (r: Result<(), ParameterError>)
    ensures
        r == parameters_outcome(rows, cols, ends_reversed, dimensions, iterations),
        r is Ok <==> !ends_reversed && 1 <= dimensions <= iterations && iterations <= rows
            && iterations <= cols,
{
    if ends_reversed {
        Err(ParameterError::IntervalReversed)
    } else if rows == 0 || cols == 0 {
        Err(ParameterError::EmptyMatrix)
    } else if iterations == 0 || iterations > cols || iterations > rows {
        Err(ParameterError::InvalidIterations)
    } else if dimensions == 0 {
        Err(ParameterError::InvalidDimensions)
    } else if dimensions > iterations {
        Err(ParameterError::DimensionsExceedIterations { dimensions, iterations })
    } else {
        Ok(())
    }
}

} // verus!
