use rustjblas::matrix::DoubleMatrix as Matrix;
use rustjblas::protocol::{KernelCall, KernelReply};
use rustjblas::svd::{GesddPlan, SVD, WORKSPACE_QUERY};

type DoubleMatrix = Matrix<f64>;

fn lesser(acc: f64, e: f64) -> f64 {
    if acc.is_nan() || e < acc { e } else { acc }
}

fn greater(acc: f64, e: f64) -> f64 {
    if acc.is_nan() || e > acc { e } else { acc }
}

fn column_sums(m: &DoubleMatrix) -> DoubleMatrix {
    m.column_fold(0f64, |a, b| a + b)
}

fn column_mins(m: &DoubleMatrix) -> DoubleMatrix {
    m.column_fold(f64::NAN, lesser)
}

fn column_maxs(m: &DoubleMatrix) -> DoubleMatrix {
    m.column_fold(f64::NAN, greater)
}

fn column_means(m: &DoubleMatrix) -> DoubleMatrix {
    let rows = m.rows() as f64;
    column_sums(m).scalar_op(rows, |a, b| a / b)
}

fn row_sums(m: &DoubleMatrix) -> DoubleMatrix {
    m.row_fold(0f64, |a, b| a + b)
}

fn row_mins(m: &DoubleMatrix) -> DoubleMatrix {
    m.row_fold(f64::NAN, lesser)
}

fn row_maxs(m: &DoubleMatrix) -> DoubleMatrix {
    m.row_fold(f64::NAN, greater)
}

fn row_means(m: &DoubleMatrix) -> DoubleMatrix {
    let cols = m.cols() as f64;
    row_sums(m).scalar_op(cols, |a, b| a / b)
}

// The full decomposition of `a`, with a kernel that leaves behind the
// reference factors in the kernel's layout: the right vectors transposed.
fn full_svd(a: &DoubleMatrix, u: &DoubleMatrix, s: &DoubleMatrix, v: &DoubleMatrix) -> SVD<f64> {
    let (values, left, right) =
        (s.data().to_vec(), u.data().to_vec(), v.transpose().data().to_vec());
    a.full_svd(move |call: KernelCall<GesddPlan, f64>| {
        let computing = call.lwork != WORKSPACE_QUERY;
        KernelReply {
            info: 0,
            reported: 64,
            found: 0,
            values: if computing { values.clone() } else { vec![] },
            left: if computing { left.clone() } else { vec![] },
            right: if computing { right.clone() } else { vec![] },
        }
    }).unwrap()
}

fn assert_matrix_eps(a: &DoubleMatrix, b: &DoubleMatrix, epsilon: f64) {
    assert_eq!(a.shape(), b.shape(), "Shape mismatch: {:?} != {:?}", a, b);
    let vec1 = a.data();
    let vec2 = b.data();
    for i in 0..vec1.len() {
        assert!((vec1[i] - vec2[i]).abs() <= epsilon,
            "Element mismatch {} != {}; a: {:?}, b: {:?}", vec1[i], vec2[i], a, b);
    }
}

fn assert_matrix(a: &DoubleMatrix, b: &DoubleMatrix) {
    assert_matrix_eps(a, b, 1e-8);
}

fn test_matrix_1() -> DoubleMatrix {
    DoubleMatrix::from_row_slice(3, 4, &[
        0.25, 0.16, 0.03, 0.23,
        0.42, 0.33, 0.52, 0.27,
        0.71, 0.94, 0.37, 0.58
    ]).unwrap()
}

fn test_matrix_2() -> DoubleMatrix {
    DoubleMatrix::from_row_slice(4, 4, &[
        1.0, 1.0, 0.0, 0.0,
        0.0, 2.0, 1.0, 0.0,
        0.0, 0.0, 3.0, 1.0,
        0.0, 0.0, 0.0, 4.0
    ]).unwrap()
}

fn test_matrix_3() -> DoubleMatrix {
    DoubleMatrix::from_row_slice(2, 4, &[
        1.0, 2.0, 3.0, 4.0,
        5.0, 6.0, 7.0, 8.0
    ]).unwrap()
}

fn test_matrix_4() -> DoubleMatrix {
    DoubleMatrix::from_row_slice(3, 2, &[
        1.0, 2.0,
        2.0, 4.0,
        3.0, 5.0
    ]).unwrap()
}

#[test]
fn matrix_test_column_sums() {
    // full matrix
    let matrix = test_matrix_1();
    let exp = DoubleMatrix::from_row_slice(1, 4, &[1.38, 1.43, 0.92, 1.08]).unwrap();
    assert_matrix(&column_sums(&matrix), &exp);

    // row vector
    let matrix = DoubleMatrix::from_row_slice(1, 3, &[1.0, 2.0, 3.0]).unwrap();
    assert_matrix(&column_sums(&matrix), &matrix);

    // column vector
    let matrix = DoubleMatrix::from_row_slice(3, 1, &[1.0, 2.0, 3.0]).unwrap();
    let exp = DoubleMatrix::from_row_slice(1, 1, &[6.0]).unwrap();
    assert_matrix(&column_sums(&matrix), &exp);

    // single element
    let matrix = DoubleMatrix::from_row_slice(1, 1, &[3.0]).unwrap();
    assert_matrix(&column_sums(&matrix), &matrix);
}

#[test]
fn matrix_test_column_mins() {
    // full matrix
    let matrix = test_matrix_1();
    let exp = DoubleMatrix::from_row_slice(1, 4, &[0.25, 0.16, 0.03, 0.23]).unwrap();
    assert_matrix(&column_mins(&matrix), &exp);

    // row vector
    let matrix = DoubleMatrix::from_row_slice(1, 3, &[1.0, 2.0, 3.0]).unwrap();
    assert_matrix(&column_mins(&matrix), &matrix);

    // column vector
    let matrix = DoubleMatrix::from_row_slice(3, 1, &[2.0, 1.0, 3.0]).unwrap();
    let exp = DoubleMatrix::from_row_slice(1, 1, &[1.0]).unwrap();
    assert_matrix(&column_mins(&matrix), &exp);

    // single element
    let matrix = DoubleMatrix::from_row_slice(1, 1, &[3.0]).unwrap();
    assert_matrix(&column_mins(&matrix), &matrix);
}

#[test]
fn matrix_test_column_maxs() {
    // full matrix
    let matrix = test_matrix_1();
    let exp = DoubleMatrix::from_row_slice(1, 4, &[0.71, 0.94, 0.52, 0.58]).unwrap();
    assert_matrix(&column_maxs(&matrix), &exp);

    // row vector
    let matrix = DoubleMatrix::from_row_slice(1, 3, &[1.0, 2.0, 3.0]).unwrap();
    assert_matrix(&column_mins(&matrix), &matrix);

    // column vector
    let matrix = DoubleMatrix::from_row_slice(3, 1, &[2.0, 1.0, 3.0]).unwrap();
    let exp = DoubleMatrix::from_row_slice(1, 1, &[3.0]).unwrap();
    assert_matrix(&column_maxs(&matrix), &exp);

    // single element
    let matrix = DoubleMatrix::from_row_slice(1, 1, &[3.0]).unwrap();
    assert_matrix(&column_maxs(&matrix), &matrix);
}

#[test]
fn matrix_test_column_means() {
    // full matrix
    let matrix = test_matrix_1();
    let exp = DoubleMatrix::from_row_slice(1, 4, &[0.46, 0.47666667, 0.30666667, 0.36]).unwrap();
    assert_matrix(&column_means(&matrix), &exp);

    // row vector
    let matrix = DoubleMatrix::from_row_slice(1, 3, &[1.0, 2.0, 3.0]).unwrap();
    assert_matrix(&column_means(&matrix), &matrix);

    // column vector
    let matrix = DoubleMatrix::from_row_slice(3, 1, &[21.0, 12.0, 36.0]).unwrap();
    let exp = DoubleMatrix::from_row_slice(1, 1, &[23.0]).unwrap();
    assert_matrix(&column_means(&matrix), &exp);

    // single element
    let matrix = DoubleMatrix::from_row_slice(1, 1, &[3.0]).unwrap();
    assert_matrix(&column_means(&matrix), &matrix);
}

#[test]
fn matrix_test_row_sums() {
    // full matrix
    let matrix = test_matrix_1();
    let exp = DoubleMatrix::from_row_slice(3, 1, &[0.67, 1.54, 2.6]).unwrap();
    assert_matrix(&row_sums(&matrix), &exp);

    // row vector
    let matrix = DoubleMatrix::from_row_slice(1, 4, &[0.25, 0.16, 0.03, 0.23]).unwrap();
    let exp = DoubleMatrix::from_row_slice(1, 1, &[0.67]).unwrap();
    assert_matrix(&row_sums(&matrix), &exp);

    // column vector
    let matrix = DoubleMatrix::from_row_slice(3, 1, &[0.1, 0.2, 0.3]).unwrap();
    assert_matrix(&row_sums(&matrix), &matrix);

    // single element
    let matrix = DoubleMatrix::from_row_slice(1, 1, &[0.43]).unwrap();
    assert_matrix(&row_sums(&matrix), &matrix);
}

#[test]
fn matrix_test_row_mins() {
    // full matrix
    let matrix = test_matrix_1();
    let exp = DoubleMatrix::from_row_slice(3, 1, &[0.03, 0.27, 0.37]).unwrap();
    assert_matrix(&row_mins(&matrix), &exp);

    // row vector
    let matrix = DoubleMatrix::from_row_slice(1, 3, &[0.1, 0.2, 0.3]).unwrap();
    let exp = DoubleMatrix::from_row_slice(1, 1, &[0.1]).unwrap();
    assert_matrix(&row_mins(&matrix), &exp);

    // column vector
    let matrix = DoubleMatrix::from_row_slice(3, 1, &[0.1, 0.2, 0.3]).unwrap();
    assert_matrix(&row_mins(&matrix), &matrix);

    // single element
    let matrix = DoubleMatrix::from_row_slice(1, 1, &[0.43]).unwrap();
    assert_matrix(&row_mins(&matrix), &matrix);
}

#[test]
fn matrix_test_row_maxs() {
    // full matrix
    let matrix = test_matrix_1();
    let exp = DoubleMatrix::from_row_slice(3, 1, &[0.25, 0.52, 0.94]).unwrap();
    assert_matrix(&row_maxs(&matrix), &exp);

    // row vector
    let matrix = DoubleMatrix::from_row_slice(1, 3, &[0.1, 0.2, 0.3]).unwrap();
    let exp = DoubleMatrix::from_row_slice(1, 1, &[0.3]).unwrap();
    assert_matrix(&row_maxs(&matrix), &exp);

    // column vector
    let matrix = DoubleMatrix::from_row_slice(3, 1, &[0.1, 0.2, 0.3]).unwrap();
    assert_matrix(&row_maxs(&matrix), &matrix);

    // single element
    let matrix = DoubleMatrix::from_row_slice(1, 1, &[0.43]).unwrap();
    assert_matrix(&row_maxs(&matrix), &matrix);
}

#[test]
fn matrix_test_row_means() {
    let matrix = test_matrix_1();
    let exp = DoubleMatrix::from_row_slice(3, 1, &[0.1675, 0.385, 0.65]).unwrap();
    assert_matrix(&row_means(&matrix), &exp);

    // row vector
    let matrix = DoubleMatrix::from_row_slice(1, 4, &[0.71, 0.94, 0.37, 0.58]).unwrap();
    let exp = DoubleMatrix::from_row_slice(1, 1, &[0.65]).unwrap();
    assert_matrix(&row_means(&matrix), &exp);

    // column vector
    let matrix = DoubleMatrix::from_row_slice(3, 1, &[0.1, 0.2, 0.3]).unwrap();
    assert_matrix(&row_means(&matrix), &matrix);

    // single element
    let matrix = DoubleMatrix::from_row_slice(1, 1, &[0.43]).unwrap();
    assert_matrix(&row_means(&matrix), &matrix);
}

#[test]
fn matrix_test_full_svd_test_matrix_2() {
    let a = test_matrix_2();

    let u_exp = DoubleMatrix::from_row_slice(4, 4, &[
        0.013543, -0.135435, 0.542638, 0.828866,
        0.109341, -0.518419, 0.667345, -0.523390,
        0.470163, -0.714229, -0.481962, 0.191143,
        0.875676, 0.450306, 0.167053, -0.050094
    ]).unwrap();
    let s_exp = DoubleMatrix::new(4, 1, vec![
        4.260007, 3.107349, 2.111785, 0.858542
    ]).unwrap();
    let v_exp = DoubleMatrix::from_row_slice(4, 4, &[
        0.003179, -0.043585, 0.256957, 0.965434,
        0.054513, -0.377258, 0.888977, -0.253819,
        0.356767, -0.856391, -0.368665, 0.058285,
        0.932596, 0.349815, 0.088195, -0.010752
    ]).unwrap();

    let svd = full_svd(&a, &u_exp, &s_exp, &v_exp);
    assert_matrix_eps(&svd.u.unwrap(), &u_exp, 1e-6);
    assert_matrix_eps(&svd.s, &s_exp, 1e-6);
    assert_matrix_eps(&svd.v.unwrap(), &v_exp, 1e-6);
}

#[test]
fn matrix_test_full_svd_test_matrix_3() {
    let a = test_matrix_3();

    let u_exp = DoubleMatrix::from_row_slice(2, 2, &[
        -0.376168, -0.926551,
        -0.926551, 0.376168
    ]).unwrap();
    let s_exp = DoubleMatrix::new(2, 1, vec![
        14.227407, 1.257330
    ]).unwrap();
    let v_exp = DoubleMatrix::from_row_slice(4, 4, &[
        -0.352062, 0.758981, -0.400087, -0.374072,
        -0.443626, 0.321242, 0.254633, 0.796971,
        -0.535190, -0.116498, 0.690996, -0.471724,
        -0.626754, -0.554238, -0.545542, 0.048826
    ]).unwrap();

    let svd = full_svd(&a, &u_exp, &s_exp, &v_exp);
    assert_matrix_eps(&svd.u.unwrap(), &u_exp, 1e-6);
    assert_matrix_eps(&svd.s, &s_exp, 1e-6);
    assert_matrix_eps(&svd.v.unwrap(), &v_exp, 1e-6);
}

#[test]
fn matrix_test_full_svd_test_matrix_4() {
    let a = test_matrix_4();

    let u_exp = DoubleMatrix::from_row_slice(3, 3, &[
        -0.291036, -0.339556, -0.894427,
        -0.582071, -0.679112, 0.447214,
        -0.759270, 0.650776, -0.000000
    ]).unwrap();
    let s_exp = DoubleMatrix::new(2, 1, vec![
        7.675619, 0.291321
    ]).unwrap();
    let v_exp = DoubleMatrix::from_row_slice(2, 2, &[
        -0.486344, 0.873768,
        -0.873768, -0.486344
    ]).unwrap();

    let svd = full_svd(&a, &u_exp, &s_exp, &v_exp);
    assert_matrix_eps(&svd.u.unwrap(), &u_exp, 1e-6);
    assert_matrix_eps(&svd.s, &s_exp, 1e-6);
    assert_matrix_eps(&svd.v.unwrap(), &v_exp, 1e-6);
}
