use rustjblas::matrix::DoubleMatrix;
use rustjblas::multiply::{gemm_plan, GemmCall, GemmPlan, MulError, NO_TRANSPOSE};

type Matrix = DoubleMatrix<f64>;

fn pseudo_random(rows: usize, cols: usize, seed: u64) -> Matrix {
    let mut state = seed;
    let mut data = Vec::with_capacity(rows * cols);
    for _ in 0..rows * cols {
        state = state.wrapping_mul(6364136223846793005).wrapping_add(1442695040888963407);
        data.push(((state >> 11) as f64) / ((1u64 << 53) as f64));
    }
    DoubleMatrix::new(rows, cols, data).unwrap()
}

// c := a * b on column-major buffers with the leading dimensions of the
// plan, as the general multiply kernel computes it for alpha = 1, beta = 0.
fn gemm(call: GemmCall<f64>) -> Vec<f64> {
    let (m, n, k) = (call.plan.m as usize, call.plan.n as usize, call.plan.k as usize);
    let (lda, ldb, ldc) = (call.plan.lda as usize, call.plan.ldb as usize, call.plan.ldc as usize);
    assert_eq!((call.plan.transa, call.plan.transb), (b'N', b'N'));
    let mut c = vec![0f64; call.plan.c_len];
    for j in 0..n {
        for l in 0..k {
            for i in 0..m {
                c[i + j * ldc] += call.a[i + l * lda] * call.b[l + j * ldb];
            }
        }
    }
    c
}

// The product, element by element, from the definition.
fn product(a: &Matrix, b: &Matrix) -> Matrix {
    let mut c = DoubleMatrix::filled(a.rows(), b.cols(), 0f64).unwrap();
    for i in 0..a.rows() {
        for j in 0..b.cols() {
            let mut sum = 0f64;
            for l in 0..a.cols() {
                sum += a.get(i, l) * b.get(l, j);
            }
            c.put(i, j, sum);
        }
    }
    c
}

fn assert_matrix(a: &Matrix, b: &Matrix) {
    assert_eq!(a.shape(), b.shape());
    for (x, y) in a.data().iter().zip(b.data().iter()) {
        assert!((x - y).abs() <= 1e-8, "{} != {}", x, y);
    }
}

#[test]
fn plan_of_a_product() {
    assert_eq!(gemm_plan(10, 20, 8), Ok(GemmPlan {
        transa: 78,
        transb: 78,
        m: 10,
        n: 20,
        k: 8,
        lda: 10,
        ldb: 8,
        ldc: 10,
        c_len: 200,
    }));
    assert_eq!(NO_TRANSPOSE, 'N' as u8);
}

#[test]
fn product_plan_of_nothing_keeps_leading_dimensions_at_one() {
    let plan = gemm_plan(0, 3, 0).unwrap();
    assert_eq!((plan.lda, plan.ldb, plan.ldc, plan.c_len), (1, 1, 1, 0));
}

#[test]
fn product_plan_refuses_sides_beyond_the_kernel_integers() {
    assert_eq!(gemm_plan(2147483648, 1, 1), Err(MulError::TooLarge));
    assert_eq!(gemm_plan(1, 2147483648, 1), Err(MulError::TooLarge));
    assert_eq!(gemm_plan(1, 1, 2147483648), Err(MulError::TooLarge));
    assert!(gemm_plan(2147483647, 1, 2147483647).is_ok());
}

#[test]
fn product_of_known_matrices() {
    let a = DoubleMatrix::from_row_slice(2, 3, &[
        1.0, 2.0, 3.0,
        4.0, 5.0, 6.0
    ]).unwrap();
    let b = DoubleMatrix::from_row_slice(3, 2, &[
        7.0, 8.0,
        9.0, 10.0,
        11.0, 12.0
    ]).unwrap();
    let exp = DoubleMatrix::from_row_slice(2, 2, &[
        58.0, 64.0,
        139.0, 154.0
    ]).unwrap();
    let res = a.mmul(&b, gemm).unwrap();
    assert_eq!(res.shape(), (2, 2));
    assert_eq!(res.data(), exp.data());
    // The operands are not commuted.
    assert_eq!(b.mmul(&a, gemm).unwrap().shape(), (3, 3));
}

#[test]
fn the_kernel_gets_both_operands_as_they_are() {
    let a = pseudo_random(3, 2, 1);
    let b = pseudo_random(2, 4, 2);
    let kernel = |call: GemmCall<f64>| {
        assert_eq!(call.plan, gemm_plan(3, 4, 2).unwrap());
        assert_eq!(call.a, pseudo_random(3, 2, 1).data().to_vec());
        assert_eq!(call.b, pseudo_random(2, 4, 2).data().to_vec());
        (0..12).map(|i| i as f64).collect()
    };
    let res = a.mmul(&b, kernel).unwrap();
    assert_eq!(res.shape(), (3, 4));
    assert_eq!(res.get(2, 3), 11.0);
}

#[test]
fn a_product_of_another_length_is_refused() {
    let a = pseudo_random(3, 2, 1);
    let b = pseudo_random(2, 4, 2);
    assert_eq!(a.mmul(&b, |_| vec![0f64; 11]).unwrap_err(), MulError::BufferLength);
    let mut kept = a.clone();
    assert_eq!(kept.mmul_assign(&b, |_| vec![0f64; 13]), Err(MulError::BufferLength));
    assert_eq!(kept.shape(), (3, 2));
    assert_eq!(kept.data(), a.data());
}

#[test]
fn multiplying_by_the_identity_changes_nothing() {
    for &(rows, cols) in &[(3usize, 4usize), (4, 4), (1, 5), (5, 1)] {
        let m = pseudo_random(rows, cols, 17);
        let identity = DoubleMatrix::identity(cols, cols, 0f64, 1f64).unwrap();
        assert_matrix(&m.mmul(&identity, gemm).unwrap(), &m);
    }
}

#[test]
fn test_mmul() {
    let a = pseudo_random(10, 8, 1);
    let b = pseudo_random(8, 20, 2);
    let res = a.mmul(&b, gemm).unwrap();
    let exp = product(&a, &b);
    assert_matrix(&res, &exp);
}

#[test]
fn test_mmul_vector_1() {
    let a = pseudo_random(10, 1, 3);
    let b = pseudo_random(1, 8, 4);
    let res = a.mmul(&b, gemm).unwrap();
    let exp = product(&a, &b);
    assert_matrix(&res, &exp);
}

#[test]
fn test_mmul_vector_2() {
    let a = pseudo_random(1, 10, 5);
    let b = pseudo_random(10, 1, 6);
    let res = a.mmul(&b, gemm).unwrap();
    let exp = product(&a, &b);
    assert_matrix(&res, &exp);
}

#[test]
fn test_mmul_assign() {
    let a = pseudo_random(10, 8, 7);
    let b = pseudo_random(8, 20, 8);
    let mut res = a.clone();
    res.mmul_assign(&b, gemm).unwrap();
    let exp = product(&a, &b);
    assert_matrix(&res, &exp);
    assert_eq!(res.shape(), (10, 20));
}
