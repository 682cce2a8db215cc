//! Bookkeeping around the partial decomposition by implicitly restarted
//! Lanczos bidiagonalization: the size of the Krylov subspace, the number of
//! shifts, the buffer lengths, the meaning of the status, and the cut of the
//! kernel's buffers down to the triplets asked for.

use vstd::prelude::*;
use crate::matrix::DoubleMatrix;
use crate::svd::{leading, min_dim, shorter_side, valid_rank, SvdError, SUCCESS, SVD};

verus! {

/// Largest number of restarts.
pub const MAX_RESTARTS: i32 = 3;

/// The status with which the kernel reports that the triplets did not
/// converge.
pub const NOT_CONVERGED: i32 = -1;

/// Dimension of the Krylov subspace for `k` triplets of a `rows` by `cols`
/// matrix: seven times `k`, but no more than the shorter side plus one.
pub open spec fn krylov_dim(rows: int, cols: int, k: int) -> int {
    if 7 * k <= shorter_side(rows, cols) + 1 {
        7 * k
    } else {
        shorter_side(rows, cols) + 1
    }
}

/// Length of the floating-point workspace for a Krylov subspace of
/// dimension `dim`.
pub open spec fn lanczos_work_len(rows: int, cols: int, dim: int) -> int {
    rows + cols + 14 * dim + 8 * dim * dim + 32 * rows + 9
}

/// Arguments and buffer lengths for the Lanczos kernel.
#[derive(Debug, Clone, Copy, PartialEq, Eq, Structural)]
pub struct LanczosPlan {
    /// Rows of the input.
    pub m: i32,
    /// Columns of the input.
    pub n: i32,
    /// Dimension of the Krylov subspace.
    pub dim: i32,
    /// Shifts per restart.
    pub shifts: i32,
    /// Singular triplets wanted.
    pub neig: i32,
    /// Largest number of restarts.
    pub maxiter: i32,
    /// Leading dimension of the left vectors.
    pub ldu: i32,
    /// Leading dimension of the right vectors.
    pub ldv: i32,
    /// Length of the left vector buffer.
    pub u_len: usize,
    /// Length of the singular value buffer, and of the error bounds.
    pub sigma_len: usize,
    /// Length of the right vector buffer.
    pub v_len: usize,
    /// Length of the floating-point workspace.
    pub work_len: usize,
    /// The same length as the kernel takes it.
    pub lwork: i32,
    /// Length of the integer workspace.
    pub iwork_len: usize,
    /// The same length as the kernel takes it.
    pub liwork: i32,
}

/// Whether the top `k` triplets of a `rows` by `cols` matrix are within
/// what the kernel's arguments and the buffers can hold.
pub open spec fn lanczos_fits(rows: int, cols: int, k: int) -> bool {
    let dim = krylov_dim(rows, cols, k);
    &&& rows <= i32::MAX
    &&& cols <= i32::MAX
    &&& rows * (dim + 1) <= usize::MAX
    &&& dim * cols <= usize::MAX
    &&& lanczos_work_len(rows, cols, dim) <= i32::MAX
}

/// The plan for the top `k` triplets of a `rows` by `cols` matrix.
pub open spec fn lanczos_plan_of(rows: int, cols: int, k: int) -> LanczosPlan {
    let dim = krylov_dim(rows, cols, k);
    LanczosPlan {
        m: rows as i32,
        n: cols as i32,
        dim: dim as i32,
        shifts: (dim - k) as i32,
        neig: k as i32,
        maxiter: MAX_RESTARTS,
        ldu: leading(rows) as i32,
        ldv: leading(cols) as i32,
        u_len: (rows * (dim + 1)) as usize,
        sigma_len: dim as usize,
        v_len: (dim * cols) as usize,
        work_len: lanczos_work_len(rows, cols, dim) as usize,
        lwork: lanczos_work_len(rows, cols, dim) as i32,
        iwork_len: (8 * dim) as usize,
        liwork: (8 * dim) as i32,
    }
}

/// What planning the top `k` triplets comes to.
pub open spec fn lanczos_plan_outcome(rows: int, cols: int, k: usize) -> Result<
    LanczosPlan,
    SvdError,
> {
    if !valid_rank(rows, cols, k as int) {
        Err(SvdError::InvalidRank { k })
    } else if !lanczos_fits(rows, cols, k as int) {
        Err(SvdError::TooLarge)
    } else {
        Ok(lanczos_plan_of(rows, cols, k as int))
    }
}

/// The Krylov subspace holds at least the triplets asked for and at least
/// one vector, and never more than the shorter side plus one.
pub proof fn lemma_krylov_dim_bounds(rows: int, cols: int, k: int)
    requires
        valid_rank(rows, cols, k),
    ensures
        k <= krylov_dim(rows, cols, k) <= shorter_side(rows, cols) + 1,
        krylov_dim(rows, cols, k) <= 7 * k,
        krylov_dim(rows, cols, k) - k >= 0,
{
}

/// Plans the computation of the top `k` singular triplets of a `rows` by
/// `cols` matrix by Lanczos bidiagonalization. A `k` below one or above the
/// shorter side is refused.
pub fn lanczos_plan(rows: usize, cols: usize, k: usize) -> (r: Result<LanczosPlan, SvdError>)
    ensures
        r == lanczos_plan_outcome(rows as int, cols as int, k),
{
    let side: usize = min_dim(rows, cols);
    if k < 1 || k > side {
        return Err(SvdError::InvalidRank { k });
    }
    if rows > 2147483647 || cols > 2147483647 {
        return Err(SvdError::TooLarge);
    }
    // Both sides fit in 31 bits from here on, so the sums and products
    // below are formed in 128 bits without overflow.
    let rows_w: u128 = rows as u128;
    let cols_w: u128 = cols as u128;
    let k_w: u128 = k as u128;
    let side_w: u128 = side as u128;
    let dim_w: u128 = if 7 * k_w <= side_w + 1 { 7 * k_w } else { side_w + 1 };
    assert(dim_w == krylov_dim(rows as int, cols as int, k as int));
    assert(dim_w * dim_w <= 0x8000_0000 * 0x8000_0000) by (nonlinear_arith)
        requires dim_w <= 0x8000_0000;
    assert(rows_w * (dim_w + 1) <= 0x8000_0000 * 0x8000_0001) by (nonlinear_arith)
        requires rows_w <= 0x8000_0000, dim_w <= 0x8000_0000;
    assert(dim_w * cols_w <= 0x8000_0000 * 0x8000_0000) by (nonlinear_arith)
        requires cols_w <= 0x8000_0000, dim_w <= 0x8000_0000;
    let work_w: u128 = rows_w + cols_w + 14 * dim_w + 8 * (dim_w * dim_w) + 32 * rows_w + 9;
    assert(work_w == lanczos_work_len(rows as int, cols as int, dim_w as int)) by {
        assert(8 * (dim_w * dim_w) == 8 * dim_w * dim_w) by (nonlinear_arith);
    }
    let u_w: u128 = rows_w * (dim_w + 1);
    let v_w: u128 = dim_w * cols_w;
    if work_w > 2147483647 || u_w > usize::MAX as u128 || v_w > usize::MAX as u128 {
        return Err(SvdError::TooLarge);
    }
    assert(8 * dim_w <= work_w) by (nonlinear_arith)
        requires work_w == rows_w + cols_w + 14 * dim_w + 8 * (dim_w * dim_w) + 32 * rows_w + 9;
    Ok(LanczosPlan {
        m: rows as i32,
        n: cols as i32,
        dim: dim_w as i32,
        shifts: (dim_w - k_w) as i32,
        neig: k as i32,
        maxiter: MAX_RESTARTS,
        ldu: rows as i32,
        ldv: cols as i32,
        u_len: u_w as usize,
        sigma_len: dim_w as usize,
        v_len: v_w as usize,
        work_len: work_w as usize,
        lwork: work_w as i32,
        iwork_len: (8 * dim_w) as usize,
        liwork: (8 * dim_w) as i32,
    })
}

/// What a status of the Lanczos kernel means: zero is success, minus one
/// says the triplets did not converge within the restarts, and any other
/// value that an invariant subspace was found.
pub open spec fn lanczos_status_outcome(info: i32) -> Result<(), SvdError> {
    if info == SUCCESS {
        Ok(())
    } else if info == NOT_CONVERGED {
        Err(SvdError::LanczosNotConverged)
    } else {
        Err(SvdError::InvariantSubspace { code: info })
    }
}

/// Judges the status the Lanczos kernel ended with.
pub fn check_lanczos_status(info: i32) -> (r: Result<(), SvdError>)
    ensures
        r == lanczos_status_outcome(info),
{
    if info == SUCCESS {
        Ok(())
    } else if info == NOT_CONVERGED {
        Err(SvdError::LanczosNotConverged)
    } else {
        Err(SvdError::InvariantSubspace { code: info })
    }
}

/// `svd` holds the first `k` triplets of the buffers `u`, `sigma` and `v`
/// of a `rows` by `cols` matrix: `k` columns of left vectors, `k` values,
/// `k` columns of right vectors.
pub open spec fn is_lanczos_svd<T>(
    svd: SVD<T>,
    rows: int,
    cols: int,
    k: int,
    u: Seq<T>,
    sigma: Seq<T>,
    v: Seq<T>,
) -> bool {
    &&& svd.u matches Some(left)
    &&& left.wf() && left.nrows() == rows && left.ncols() == k
    &&& left@ == u.take(rows * k)
    &&& svd.s.wf() && svd.s.nrows() == k && svd.s.ncols() == 1
    &&& svd.s@ == sigma.take(k)
    &&& svd.v matches Some(right)
    &&& right.wf() && right.nrows() == cols && right.ncols() == k
    &&& right@ == v.take(cols * k)
}

/// Cuts the buffers of the Lanczos kernel down to the `k` triplets asked
/// for. The kernel fills buffers sized for the whole Krylov subspace; the
/// first `k` columns of the left vectors, the first `k` values and the
/// first `k` columns of the right vectors are kept. The right vectors come
/// untransposed.
pub fn finish_lanczos<T: Copy>(
    rows: usize,
    cols: usize,
    k: usize,
    info: i32,
    u: Vec<T>,
    sigma: Vec<T>,
    v: Vec<T>,
) -> (r: Result<SVD<T>, SvdError>)
    requires
        rows * k <= u@.len(),
        k <= sigma@.len(),
        cols * k <= v@.len(),
    ensures
        r is Ok <==> info == SUCCESS,
        r matches Err(e) ==> lanczos_status_outcome(info) == Err::<(), SvdError>(e),
        r matches Ok(svd) ==> is_lanczos_svd(
            svd, rows as int, cols as int, k as int, u@, sigma@, v@),
{
    match check_lanczos_status(info) {
        Err(e) => { return Err(e); },
        Ok(_) => {},
    }
    let u_total: usize = u.len();
    let v_total: usize = v.len();
    assert(rows * k >= 0 && cols * k >= 0) by (nonlinear_arith);
    let mut left = u;
    left.truncate(rows * k);
    assert(left@ =~= u@.take(rows * k));
    let mut values = sigma;
    values.truncate(k);
    assert(values@ =~= sigma@.take(k as int));
    let mut right = v;
    right.truncate(cols * k);
    assert(right@ =~= v@.take(cols * k));
    Ok(SVD {
        u: Some(DoubleMatrix::from_parts(rows, k, left)),
        s: DoubleMatrix::from_parts(k, 1, values),
        v: Some(DoubleMatrix::from_parts(cols, k, right)),
    })
}

} // verus!
