use rustjblas::las::{check_parameters, ParameterError};

#[test]
fn parameters_within_the_matrix_pass() {
    assert_eq!(check_parameters(6, 4, false, 2, 3), Ok(()));
    assert_eq!(check_parameters(6, 4, false, 4, 4), Ok(()));
    assert_eq!(check_parameters(1, 1, false, 1, 1), Ok(()));
}

#[test]
fn the_first_broken_rule_is_reported() {
    assert_eq!(check_parameters(0, 0, true, 0, 0), Err(ParameterError::IntervalReversed));
    assert_eq!(check_parameters(0, 4, false, 0, 0), Err(ParameterError::EmptyMatrix));
    assert_eq!(check_parameters(4, 0, false, 1, 1), Err(ParameterError::EmptyMatrix));
    assert_eq!(check_parameters(6, 4, false, 0, 0), Err(ParameterError::InvalidIterations));
    assert_eq!(check_parameters(6, 4, false, 2, 5), Err(ParameterError::InvalidIterations));
    assert_eq!(check_parameters(4, 6, false, 2, 5), Err(ParameterError::InvalidIterations));
    assert_eq!(check_parameters(6, 4, false, 0, 3), Err(ParameterError::InvalidDimensions));
    assert_eq!(
        check_parameters(6, 4, false, 4, 3),
        Err(ParameterError::DimensionsExceedIterations { dimensions: 4, iterations: 3 })
    );
}
