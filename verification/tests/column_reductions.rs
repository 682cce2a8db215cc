use rustjblas::matrix::DoubleMatrix;

fn lesser(acc: f64, e: f64) -> f64 {
    if acc.is_nan() || e < acc { e } else { acc }
}

fn greater(acc: f64, e: f64) -> f64 {
    if acc.is_nan() || e > acc { e } else { acc }
}

fn column_sums(m: &DoubleMatrix<f64>) -> DoubleMatrix<f64> {
    m.column_fold(0f64, |a, b| a + b)
}

fn column_mins(m: &DoubleMatrix<f64>) -> DoubleMatrix<f64> {
    m.column_fold(f64::NAN, lesser)
}

fn column_maxs(m: &DoubleMatrix<f64>) -> DoubleMatrix<f64> {
    m.column_fold(f64::NAN, greater)
}

fn column_means(m: &DoubleMatrix<f64>) -> DoubleMatrix<f64> {
    let rows = m.rows() as f64;
    column_sums(m).scalar_op(rows, |a, b| a / b)
}

#[test]
fn dmatrix_test_column_sums() {
    let matrix = DoubleMatrix::from_row_slice(4, 3, &[
        1.0, 2.0, 3.0,
        4.0, 5.0, 6.0,
        7.0, 8.0, 9.0,
        10.0, 11.0, 12.0
    ]).unwrap();
    let exp = DoubleMatrix::from_row_slice(1, 3, &[22.0, 26.0, 30.0]).unwrap();
    let res = column_sums(&matrix);
    assert_eq!(res.shape(), exp.shape());
    assert_eq!(res.data(), exp.data());
}

#[test]
fn test_column_sums_single_row() {
    let matrix = DoubleMatrix::from_row_slice(1, 3, &[1.0, 2.0, 3.0]).unwrap();
    let exp = DoubleMatrix::from_row_slice(1, 3, &[1.0, 2.0, 3.0]).unwrap();
    let res = column_sums(&matrix);
    assert_eq!(res.shape(), exp.shape());
    assert_eq!(res.data(), exp.data());
}

#[test]
fn test_column_sums_single_column() {
    let matrix = DoubleMatrix::from_row_slice(3, 1, &[1.0, 2.0, 3.0]).unwrap();
    let exp = DoubleMatrix::from_row_slice(1, 1, &[6.0]).unwrap();
    let res = column_sums(&matrix);
    assert_eq!(res.shape(), exp.shape());
    assert_eq!(res.data(), exp.data());
}

#[test]
fn test_column_sums_single_element() {
    let matrix = DoubleMatrix::from_row_slice(1, 1, &[3.0]).unwrap();
    let exp = DoubleMatrix::from_row_slice(1, 1, &[3.0]).unwrap();
    let res = column_sums(&matrix);
    assert_eq!(res.shape(), exp.shape());
    assert_eq!(res.data(), exp.data());
}

#[test]
fn dmatrix_test_column_mins() {
    let matrix = DoubleMatrix::from_row_slice(4, 3, &[
        1.0, 2.0, 3.0,
        10.0, 11.0, 12.0,
        4.0, 5.0, 6.0,
        7.0, 8.0, 9.0
    ]).unwrap();
    let exp = DoubleMatrix::from_row_slice(1, 3, &[1.0, 2.0, 3.0]).unwrap();
    let res = column_mins(&matrix);
    assert_eq!(res.shape(), exp.shape());
    assert_eq!(res.data(), exp.data());
}

#[test]
fn test_column_mins_single_row() {
    let matrix = DoubleMatrix::from_row_slice(1, 3, &[1.0, 2.0, 3.0]).unwrap();
    let exp = DoubleMatrix::from_row_slice(1, 3, &[1.0, 2.0, 3.0]).unwrap();
    let res = column_mins(&matrix);
    assert_eq!(res.shape(), exp.shape());
    assert_eq!(res.data(), exp.data());
}

#[test]
fn test_column_mins_single_column() {
    let matrix = DoubleMatrix::from_row_slice(3, 1, &[2.0, 1.0, 3.0]).unwrap();
    let exp = DoubleMatrix::from_row_slice(1, 1, &[1.0]).unwrap();
    let res = column_mins(&matrix);
    assert_eq!(res.shape(), exp.shape());
    assert_eq!(res.data(), exp.data());
}

#[test]
fn test_column_mins_single_element() {
    let matrix = DoubleMatrix::from_row_slice(1, 1, &[3.0]).unwrap();
    let exp = DoubleMatrix::from_row_slice(1, 1, &[3.0]).unwrap();
    let res = column_mins(&matrix);
    assert_eq!(res.shape(), exp.shape());
    assert_eq!(res.data(), exp.data());
}

#[test]
fn dmatrix_test_column_maxs() {
    let matrix = DoubleMatrix::from_row_slice(4, 3, &[
        1.0, 2.0, 3.0,
        10.0, 11.0, 12.0,
        4.0, 5.0, 6.0,
        7.0, 8.0, 9.0
    ]).unwrap();
    let exp = DoubleMatrix::from_row_slice(1, 3, &[10.0, 11.0, 12.0]).unwrap();
    let res = column_maxs(&matrix);
    assert_eq!(res.shape(), exp.shape());
    assert_eq!(res.data(), exp.data());
}

#[test]
fn test_column_maxs_single_row() {
    let matrix = DoubleMatrix::from_row_slice(1, 3, &[1.0, 2.0, 3.0]).unwrap();
    let exp = DoubleMatrix::from_row_slice(1, 3, &[1.0, 2.0, 3.0]).unwrap();
    let res = column_mins(&matrix);
    assert_eq!(res.shape(), exp.shape());
    assert_eq!(res.data(), exp.data());
}

#[test]
fn test_column_maxs_single_column() {
    let matrix = DoubleMatrix::from_row_slice(3, 1, &[2.0, 1.0, 3.0]).unwrap();
    let exp = DoubleMatrix::from_row_slice(1, 1, &[3.0]).unwrap();
    let res = column_maxs(&matrix);
    assert_eq!(res.shape(), exp.shape());
    assert_eq!(res.data(), exp.data());
}

#[test]
fn test_column_maxs_single_element() {
    let matrix = DoubleMatrix::from_row_slice(1, 1, &[3.0]).unwrap();
    let exp = DoubleMatrix::from_row_slice(1, 1, &[3.0]).unwrap();
    let res = column_maxs(&matrix);
    assert_eq!(res.shape(), exp.shape());
    assert_eq!(res.data(), exp.data());
}

#[test]
fn dmatrix_test_column_means() {
    let matrix = DoubleMatrix::from_row_slice(4, 3, &[
        1.0, 2.0, 3.0,
        10.0, 11.0, 12.0,
        4.0, 5.0, 6.0,
        7.0, 8.0, 9.0
    ]).unwrap();
    let exp = DoubleMatrix::from_row_slice(1, 3, &[5.5, 6.5, 7.5]).unwrap();
    let res = column_means(&matrix);
    assert_eq!(res.shape(), exp.shape());
    assert_eq!(res.data(), exp.data());
}

#[test]
fn test_column_means_single_row() {
    let matrix = DoubleMatrix::from_row_slice(1, 3, &[1.0, 2.0, 3.0]).unwrap();
    let exp = DoubleMatrix::from_row_slice(1, 3, &[1.0, 2.0, 3.0]).unwrap();
    let res = column_mins(&matrix);
    assert_eq!(res.shape(), exp.shape());
    assert_eq!(res.data(), exp.data());
}

#[test]
fn test_column_means_single_column() {
    let matrix = DoubleMatrix::from_row_slice(3, 1, &[21.0, 12.0, 36.0]).unwrap();
    let exp = DoubleMatrix::from_row_slice(1, 1, &[23.0]).unwrap();
    let res = column_means(&matrix);
    assert_eq!(res.shape(), exp.shape());
    assert_eq!(res.data(), exp.data());
}

#[test]
fn test_column_means_single_element() {
    let matrix = DoubleMatrix::from_row_slice(1, 1, &[3.0]).unwrap();
    let exp = DoubleMatrix::from_row_slice(1, 1, &[3.0]).unwrap();
    let res = column_means(&matrix);
    assert_eq!(res.shape(), exp.shape());
    assert_eq!(res.data(), exp.data());
}
