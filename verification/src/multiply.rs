//! Matrix products, computed by a multiply kernel that the caller
//! supplies. Decided here: the kernel's arguments for two shapes, and that
//! what the kernel hands back has the length of the product.

use vstd::prelude::*;
use crate::matrix::DoubleMatrix;
use crate::protocol::input_copy;
use crate::svd::leading;

verus! {

/// Kernel letter for an operand that is not transposed.
pub const NO_TRANSPOSE: u8 = 78;

/// Why a product was not delivered.
#[derive(Debug, Clone, Copy, PartialEq, Eq, Structural)]
pub enum MulError {
    /// A dimension or the length of the product is more than the kernel's
    /// integer arguments, or a buffer, can hold.
    TooLarge,
    /// The kernel handed back a buffer of a length other than that of the
    /// product.
    BufferLength,
}

/// Arguments for the general multiply kernel, which computes
/// `c := alpha * a * b + beta * c` for an `m` by `k` matrix `a` and a `k` by
/// `n` matrix `b`.
#[derive(Debug, Clone, Copy, PartialEq, Eq, Structural)]
pub struct GemmPlan {
    /// Transposition letter of the left operand.
    pub transa: u8,
    /// Transposition letter of the right operand.
    pub transb: u8,
    /// Rows of the left operand and of the product.
    pub m: i32,
    /// Columns of the right operand and of the product.
    pub n: i32,
    /// Columns of the left operand, rows of the right one.
    pub k: i32,
    /// Leading dimension of the left operand.
    pub lda: i32,
    /// Leading dimension of the right operand.
    pub ldb: i32,
    /// Leading dimension of the product.
    pub ldc: i32,
    /// Length of the product's buffer.
    pub c_len: usize,
}

/// Whether the product of an `m` by `k` and a `k` by `n` matrix is within
/// what the kernel's arguments and a buffer can hold.
pub open spec fn gemm_fits(m: int, n: int, k: int) -> bool {
    m <= i32::MAX && n <= i32::MAX && k <= i32::MAX && m * n <= usize::MAX
}

/// The plan for the product of an `m` by `k` and a `k` by `n` matrix,
/// neither transposed.
pub open spec fn gemm_plan_of(m: int, n: int, k: int) -> GemmPlan {
    GemmPlan {
        transa: NO_TRANSPOSE,
        transb: NO_TRANSPOSE,
        m: m as i32,
        n: n as i32,
        k: k as i32,
        lda: leading(m) as i32,
        ldb: leading(k) as i32,
        ldc: leading(m) as i32,
        c_len: (m * n) as usize,
    }
}

/// Plans the product of an `m` by `k` and a `k` by `n` matrix.
pub fn gemm_plan(m: usize, n: usize, k: usize) -> (r: Result<GemmPlan, MulError>)
    ensures
        r is Ok <==> gemm_fits(m as int, n as int, k as int),
        r matches Ok(p) ==> p == gemm_plan_of(m as int, n as int, k as int),
        r matches Err(e) ==> e == MulError::TooLarge,
{
    if m > 2147483647 || n > 2147483647 || k > 2147483647 {
        return Err(MulError::TooLarge);
    }
    let c_len: usize = match m.checked_mul(n) {
        Some(len) => len,
        None => { return Err(MulError::TooLarge); },
    };
    let lda: usize = if m >= 1 { m } else { 1 };
    let ldb: usize = if k >= 1 { k } else { 1 };
    Ok(GemmPlan {
        transa: NO_TRANSPOSE,
        transb: NO_TRANSPOSE,
        m: m as i32,
        n: n as i32,
        k: k as i32,
        lda: lda as i32,
        ldb: ldb as i32,
        ldc: lda as i32,
        c_len,
    })
}

/// What is handed to the multiply kernel.
#[derive(Debug)]
pub struct GemmCall<T> {
    /// Arguments.
    pub plan: GemmPlan,
    /// The left operand, column-major.
    pub a: Vec<T>,
    /// The right operand, column-major.
    pub b: Vec<T>,
}

/// `call` asks for the product of the buffers `a` and `b` under `plan`.
pub open spec fn is_gemm_call<T>(call: GemmCall<T>, plan: GemmPlan, a: Seq<T>, b: Seq<T>) -> bool {
    call.plan == plan && call.a@ == a && call.b@ == b
}

/// What a product comes to, given the buffer `c` that the kernel handed
/// back for operands with `rows` rows and `cols` columns to the product.
pub open spec fn product_outcome<T>(
    rows: int,
    cols: int,
    c: Seq<T>,
    r: Result<DoubleMatrix<T>, MulError>,
) -> bool {
    if c.len() == rows * cols {
        r matches Ok(p) && p.wf() && p.nrows() == rows && p.ncols() == cols && p@ == c
    } else {
        r == Err::<DoubleMatrix<T>, MulError>(MulError::BufferLength)
    }
}

/// What the product of `a` and `b` by `kernel` comes to.
pub open spec fn mmul_outcome<T, F: Fn(GemmCall<T>) -> Vec<T>>(
    kernel: F,
    a: &DoubleMatrix<T>,
    b: &DoubleMatrix<T>,
    r: Result<DoubleMatrix<T>, MulError>,
) -> bool {
    let (m, n, k) = (a.nrows() as int, b.ncols() as int, a.ncols() as int);
    if !gemm_fits(m, n, k) {
        r == Err::<DoubleMatrix<T>, MulError>(MulError::TooLarge)
    } else {
        exists|call: GemmCall<T>, c: Vec<T>|
            {
                &&& is_gemm_call(call, gemm_plan_of(m, n, k), a@, b@)
                &&& #[trigger] call_ensures(kernel, (call,), c)
                &&& product_outcome(m, n, c@, r)
            }
    }
}

impl<T: Copy> DoubleMatrix<T> {
    /// The matrix product of `self` and `b`, which has as many rows as
    /// `self` has columns. The product has the rows of `self` and the
    /// columns of `b`.
    pub fn mmul<F: Fn(GemmCall<T>) -> Vec<T>>(&self, b: &DoubleMatrix<T>, kernel: F) -> (r: Result<
        DoubleMatrix<T>,
        MulError,
    >)
        requires
            self.wf(),
            b.wf(),
            self.ncols() == b.nrows(),
            forall|call: GemmCall<T>| #[trigger] call_requires(kernel, (call,)),
        ensures
            mmul_outcome(kernel, self, b, r),
    {
        let rows: usize = self.rows();
        let cols: usize = b.cols();
        let plan = match gemm_plan(rows, cols, self.cols()) {
            Err(e) => { return Err(e); },
            Ok(plan) => plan,
        };
        let call = GemmCall { plan, a: input_copy(self), b: input_copy(b) };
        let ghost called = call;
        let c = kernel(call);
        let ghost handed = c;
        let r = if c.len() == plan.c_len {
            Ok(DoubleMatrix::from_parts(rows, cols, c))
        } else {
            Err(MulError::BufferLength)
        };
        proof {
            assert(is_gemm_call(called, plan, self@, b@));
            assert(call_ensures(kernel, (called,), handed));
            assert(product_outcome(rows as int, cols as int, handed@, r));
        }
        r
    }

    /// Replaces `self` by its product with `b`. Where no product is
    /// delivered, `self` stays as it was.
    pub fn mmul_assign<F: Fn(GemmCall<T>) -> Vec<T>>(
        &mut self,
        b: &DoubleMatrix<T>,
        kernel: F,
    ) -> (r: Result<(), MulError>)
        requires
            old(self).wf(),
            b.wf(),
            old(self).ncols() == b.nrows(),
            forall|call: GemmCall<T>| #[trigger] call_requires(kernel, (call,)),
        ensures
            final(self).wf(),
            match r {
                Ok(_) => mmul_outcome(
                    kernel, old(self), b, Ok::<DoubleMatrix<T>, MulError>(*final(self))),
                Err(e) => *final(self) == *old(self) && mmul_outcome(
                    kernel, old(self), b, Err::<DoubleMatrix<T>, MulError>(e)),
            },
    {
        match self.mmul(b, kernel) {
            Ok(product) => {
                *self = product;
                Ok(())
            },
            Err(e) => Err(e),
        }
    }
}

} // verus!
