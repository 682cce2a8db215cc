use rustjblas::matrix::{DimensionMismatch, DoubleMatrix};

fn shaped(rows: usize, cols: usize) -> DoubleMatrix<f64> {
    DoubleMatrix::filled(rows, cols, 1f64).unwrap()
}

#[test]
fn square_matrices_have_equal_sides() {
    assert!(shaped(3, 3).is_square());
    assert!(shaped(1, 1).is_square());
    assert!(shaped(0, 0).is_square());
    assert!(!shaped(6, 3).is_square());
    assert!(!shaped(3, 6).is_square());
}

#[test]
fn vectors_have_one_row_or_one_column() {
    assert!(shaped(1, 4).is_row_vector());
    assert!(!shaped(1, 4).is_column_vector());
    assert!(shaped(1, 4).is_vector());
    assert!(shaped(4, 1).is_column_vector());
    assert!(!shaped(4, 1).is_row_vector());
    assert!(shaped(4, 1).is_vector());
    assert!(shaped(1, 1).is_row_vector() && shaped(1, 1).is_column_vector());
    assert!(!shaped(6, 3).is_vector());
    assert!(!shaped(6, 3).is_row_vector());
    assert!(!shaped(6, 3).is_column_vector());
}

#[test]
fn symmetric_matrices_equal_their_mirror_image() {
    let symmetric = DoubleMatrix::from_row_slice(3, 3, &[
        1.0, 2.0, 3.0,
        2.0, 4.0, 5.0,
        3.0, 5.0, 6.0
    ]).unwrap();
    assert!(symmetric.is_symmetric(|a, b| a == b));
    let skewed = DoubleMatrix::from_row_slice(3, 3, &[
        1.0, 2.0, 3.0,
        2.0, 4.0, 5.0,
        3.0, 5.5, 6.0
    ]).unwrap();
    assert!(!skewed.is_symmetric(|a, b| a == b));
    assert!(skewed.is_symmetric(|a: f64, b: f64| (a - b).abs() <= 1.0));
    assert!(!shaped(2, 3).is_symmetric(|a, b| a == b));
    assert!(shaped(4, 4).is_symmetric(|a, b| a == b));
    assert!(shaped(0, 0).is_symmetric(|a, b| a == b));
}

#[test]
fn replace_takes_a_buffer_of_the_same_length_only() {
    let mut m = shaped(2, 3);
    assert_eq!(m.replace(vec![1.0, 2.0, 3.0, 4.0, 5.0, 6.0]), Ok(()));
    assert_eq!(m.shape(), (2, 3));
    assert_eq!(m.data(), &[1.0, 2.0, 3.0, 4.0, 5.0, 6.0]);
    assert_eq!(m.get(1, 2), 6.0);
    assert_eq!(
        m.replace(vec![9.0; 5]),
        Err(DimensionMismatch { rows: 2, cols: 3, len: 5 })
    );
    assert_eq!(
        m.replace(vec![9.0; 7]),
        Err(DimensionMismatch { rows: 2, cols: 3, len: 7 })
    );
    assert_eq!(m.data(), &[1.0, 2.0, 3.0, 4.0, 5.0, 6.0]);
}
