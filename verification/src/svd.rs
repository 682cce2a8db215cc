//! Bookkeeping around dense singular value decompositions.
//!
//! The decomposition kernels work on caller-allocated buffers and are run
//! twice: once to ask how much workspace they need, once to compute. What
//! this module decides is everything around those two runs: the shapes and
//! buffer lengths to hand in, what a status code means, how much workspace
//! to allocate, and how the filled buffers become matrices.

use vstd::prelude::*;
use crate::matrix::DoubleMatrix;
use crate::transpose::transposed;

verus! {

/// Left singular vectors, singular values, right singular vectors. A part
/// that was not computed is absent, never an empty matrix.
#[derive(Debug)]
pub struct SVD<T> {
    /// Left singular vectors, one per column.
    pub u: Option<DoubleMatrix<T>>,
    /// Singular values as a column vector.
    pub s: DoubleMatrix<T>,
    /// Right singular vectors, one per column.
    pub v: Option<DoubleMatrix<T>>,
}

/// Why a decomposition was not delivered.
#[derive(Debug, Clone, Copy, PartialEq, Eq, Structural)]
pub enum SvdError {
    /// The number of singular triplets asked for is not between one and the
    /// shorter side of the matrix.
    InvalidRank { k: usize },
    /// A dimension or a buffer length is more than the kernel's integer
    /// arguments, or a buffer, can hold.
    TooLarge,
    /// The workspace query ended with a status other than success.
    WorkspaceQuery { code: i32 },
    /// The kernel reported that one of its arguments was illegal.
    IllegalParameter { code: i32 },
    /// The kernel did not converge.
    NotConverged { code: i32 },
    /// The kernel found fewer or more values than the range asked for.
    Truncated { found: i32, requested: usize },
    /// The kernel handed back a buffer of a length other than the one
    /// planned.
    BufferLength,
    /// The Lanczos iteration did not converge within its restarts.
    LanczosNotConverged,
    /// The Lanczos iteration ran into an invariant subspace.
    InvariantSubspace { code: i32 },
}

/// What the divide-and-conquer kernel is asked to compute.
#[derive(Debug, Clone, Copy, PartialEq, Eq, Structural)]
pub enum Job {
    /// All singular values and all left and right singular vectors.
    Full,
    /// Singular values only.
    ValuesOnly,
}

/// Kernel job letter for "all vectors".
pub const JOB_ALL: u8 = 65;

/// Kernel job letter for "no vectors".
pub const JOB_NONE: u8 = 78;

/// Kernel job letter for "vectors of the selected values".
pub const JOB_VECTORS: u8 = 86;

/// Kernel range letter for "values selected by index".
pub const RANGE_INDEX: u8 = 73;

/// The workspace length that asks a kernel to report its needs.
pub const WORKSPACE_QUERY: i32 = -1;

/// The status with which a kernel reports success.
pub const SUCCESS: i32 = 0;

/// The shorter side of a `rows` by `cols` matrix.
pub open spec fn shorter_side(rows: int, cols: int) -> int {
    if rows <= cols { rows } else { cols }
}

/// A leading dimension: the number of rows, but never less than one.
pub open spec fn leading(rows: int) -> int {
    if rows >= 1 { rows } else { 1 }
}

/// The shorter side of a `rows` by `cols` matrix.
pub fn min_dim(rows: usize, cols: usize) -> (r: usize)
    ensures
        r == shorter_side(rows as int, cols as int),
{
    if rows <= cols { rows } else { cols }
}

/// Arguments and buffer lengths for the divide-and-conquer kernel.
#[derive(Debug, Clone, Copy, PartialEq, Eq, Structural)]
pub struct GesddPlan {
    /// Job letter.
    pub jobz: u8,
    /// Rows of the input.
    pub m: i32,
    /// Columns of the input.
    pub n: i32,
    /// Leading dimension of the input.
    pub lda: i32,
    /// Leading dimension of the left vectors.
    pub ldu: i32,
    /// Leading dimension of the transposed right vectors.
    pub ldvt: i32,
    /// Length of the singular value buffer.
    pub s_len: usize,
    /// Length of the left vector buffer.
    pub u_len: usize,
    /// Length of the transposed right vector buffer.
    pub vt_len: usize,
    /// Length of the integer workspace.
    pub iwork_len: usize,
}

/// Whether a `rows` by `cols` decomposition with job `job` is within what
/// the kernel's arguments and the buffers can hold.
pub open spec fn gesdd_fits(rows: int, cols: int, job: Job) -> bool {
    &&& rows <= i32::MAX
    &&& cols <= i32::MAX
    &&& 8 * shorter_side(rows, cols) <= usize::MAX
    &&& job == Job::Full ==> rows * rows <= usize::MAX && cols * cols <= usize::MAX
}

/// The plan for a `rows` by `cols` decomposition with job `job`.
pub open spec fn gesdd_plan_of(rows: int, cols: int, job: Job) -> GesddPlan {
    GesddPlan {
        jobz: if job == Job::Full { JOB_ALL } else { JOB_NONE },
        m: rows as i32,
        n: cols as i32,
        lda: leading(rows) as i32,
        ldu: leading(rows) as i32,
        ldvt: leading(cols) as i32,
        s_len: shorter_side(rows, cols) as usize,
        u_len: if job == Job::Full { (rows * rows) as usize } else { 0 },
        vt_len: if job == Job::Full { (cols * cols) as usize } else { 0 },
        iwork_len: (8 * shorter_side(rows, cols)) as usize,
    }
}

/// Plans a run of the divide-and-conquer kernel on a `rows` by `cols`
/// matrix.
pub fn gesdd_plan(rows: usize, cols: usize, job: Job) -> (r: Result<GesddPlan, SvdError>)
    ensures
        r is Ok <==> gesdd_fits(rows as int, cols as int, job),
        r matches Ok(p) ==> p == gesdd_plan_of(rows as int, cols as int, job),
        r matches Err(e) ==> e == SvdError::TooLarge,
{
    if rows > 2147483647 || cols > 2147483647 {
        return Err(SvdError::TooLarge);
    }
    let k: usize = min_dim(rows, cols);
    let iwork_len: usize = match k.checked_mul(8) {
        Some(n) => n,
        None => { return Err(SvdError::TooLarge); },
    };
    let lda: usize = if rows >= 1 { rows } else { 1 };
    let ldvt: usize = if cols >= 1 { cols } else { 1 };
    match job {
        Job::Full => {
            let u_len: usize = match rows.checked_mul(rows) {
                Some(n) => n,
                None => { return Err(SvdError::TooLarge); },
            };
            let vt_len: usize = match cols.checked_mul(cols) {
                Some(n) => n,
                None => { return Err(SvdError::TooLarge); },
            };
            Ok(GesddPlan {
                jobz: JOB_ALL,
                m: rows as i32,
                n: cols as i32,
                lda: lda as i32,
                ldu: lda as i32,
                ldvt: ldvt as i32,
                s_len: k,
                u_len,
                vt_len,
                iwork_len,
            })
        },
        Job::ValuesOnly => Ok(GesddPlan {
            jobz: JOB_NONE,
            m: rows as i32,
            n: cols as i32,
            lda: lda as i32,
            ldu: lda as i32,
            ldvt: ldvt as i32,
            s_len: k,
            u_len: 0,
            vt_len: 0,
            iwork_len,
        }),
    }
}

/// Workspace to allocate for the computing run.
#[derive(Debug, Clone, Copy, PartialEq, Eq, Structural)]
pub struct Workspace {
    /// Number of elements to allocate.
    pub len: usize,
    /// The same number as the kernel takes it.
    pub lwork: i32,
}

/// What a status code of the workspace query means.
pub open spec fn query_outcome(info: i32, reported: usize) -> Result<Workspace, SvdError> {
    if info != SUCCESS {
        Err(SvdError::WorkspaceQuery { code: info })
    } else if reported > i32::MAX {
        Err(SvdError::TooLarge)
    } else if reported < 1 {
        Ok(Workspace { len: 1, lwork: 1 })
    } else {
        Ok(Workspace { len: reported, lwork: reported as i32 })
    }
}

/// Judges the workspace query: `info` is the status it ended with and
/// `reported` the length it asked for. On success the workspace has the
/// length asked for, and at least one element.
pub fn after_query(info: i32, reported: usize) -> (r: Result<Workspace, SvdError>)
    ensures
        r == query_outcome(info, reported),
{
    if info != SUCCESS {
        Err(SvdError::WorkspaceQuery { code: info })
    } else if reported > 2147483647 {
        Err(SvdError::TooLarge)
    } else if reported < 1 {
        Ok(Workspace { len: 1, lwork: 1 })
    } else {
        Ok(Workspace { len: reported, lwork: reported as i32 })
    }
}

/// What a status code of a computing run means: zero is success, a
/// negative code names an illegal argument, a positive one a failure to
/// converge.
pub open spec fn status_outcome(info: i32) -> Result<(), SvdError> {
    if info == SUCCESS {
        Ok(())
    } else if info < 0 {
        Err(SvdError::IllegalParameter { code: info })
    } else {
        Err(SvdError::NotConverged { code: info })
    }
}

/// Judges the status a computing run ended with.
pub fn check_status(info: i32) -> (r: Result<(), SvdError>)
    ensures
        r == status_outcome(info),
{
    if info == SUCCESS {
        Ok(())
    } else if info < 0 {
        Err(SvdError::IllegalParameter { code: info })
    } else {
        Err(SvdError::NotConverged { code: info })
    }
}

/// `svd` is the full decomposition of a `rows` by `cols` matrix that the
/// buffers `u`, `s` and `vt` hold: `u` as it is, `s` as a column, and `vt`
/// transposed.
pub open spec fn is_full_svd<T>(
    svd: SVD<T>,
    rows: int,
    cols: int,
    u: Seq<T>,
    s: Seq<T>,
    vt: Seq<T>,
) -> bool {
    &&& svd.u matches Some(left)
    &&& left.wf() && left.nrows() == rows && left.ncols() == rows && left@ == u
    &&& svd.s.wf() && svd.s.nrows() == s.len() && svd.s.ncols() == 1 && svd.s@ == s
    &&& svd.v matches Some(right)
    &&& right.wf() && right.nrows() == cols && right.ncols() == cols
    &&& right@ == transposed(cols, cols, vt)
}

/// `svd` is the top-`k` decomposition of a `rows` by `cols` matrix that
/// the buffers `u`, `s` and `vt` hold: `u` as it is, the first `k` entries
/// of `s` as a column, and the `k` by `cols` buffer `vt` transposed.
pub open spec fn is_partial_svd<T>(
    svd: SVD<T>,
    rows: int,
    cols: int,
    k: int,
    u: Seq<T>,
    s: Seq<T>,
    vt: Seq<T>,
) -> bool {
    &&& svd.u matches Some(left)
    &&& left.wf() && left.nrows() == rows && left.ncols() == k && left@ == u
    &&& svd.s.wf() && svd.s.nrows() == k && svd.s.ncols() == 1
    &&& svd.s@ == s.take(k)
    &&& svd.v matches Some(right)
    &&& right.wf() && right.nrows() == cols && right.ncols() == k
    &&& right@ == transposed(k, cols, vt)
}

/// Turns the buffers of a full decomposition of a `rows` by `cols` matrix
/// into matrices. The kernel leaves the right singular vectors transposed;
/// they are transposed back.
pub fn finish_full<T: Copy>(
    rows: usize,
    cols: usize,
    info: i32,
    u: Vec<T>,
    s: Vec<T>,
    vt: Vec<T>,
) -> (r: Result<SVD<T>, SvdError>)
    requires
        u@.len() == rows * rows,
        s@.len() == shorter_side(rows as int, cols as int),
        vt@.len() == cols * cols,
    ensures
        r is Ok <==> info == SUCCESS,
        r matches Err(e) ==> status_outcome(info) == Err::<(), SvdError>(e),
        r matches Ok(svd) ==> is_full_svd(svd, rows as int, cols as int, u@, s@, vt@),
{
    match check_status(info) {
        Err(e) => Err(e),
        Ok(_) => {
            let k: usize = s.len();
            let left = DoubleMatrix::from_parts(rows, rows, u);
            let values = DoubleMatrix::from_parts(k, 1, s);
            let mut right = DoubleMatrix::from_parts(cols, cols, vt);
            right.transpose_mut();
            Ok(SVD { u: Some(left), s: values, v: Some(right) })
        },
    }
}

/// Turns the buffer of a values-only decomposition into the column vector
/// of singular values.
pub fn finish_values<T: Copy>(info: i32, s: Vec<T>) -> (r: Result<DoubleMatrix<T>, SvdError>)
    ensures
        r is Ok <==> info == SUCCESS,
        r matches Err(e) ==> status_outcome(info) == Err::<(), SvdError>(e),
        r matches Ok(values) ==> values.wf() && values.nrows() == s@.len() && values.ncols() == 1
            && values@ == s@,
{
    match check_status(info) {
        Err(e) => Err(e),
        Ok(_) => {
            let k: usize = s.len();
            Ok(DoubleMatrix::from_parts(k, 1, s))
        },
    }
}

/// Arguments and buffer lengths for the kernel that computes the singular
/// triplets in an index range.
#[derive(Debug, Clone, Copy, PartialEq, Eq, Structural)]
pub struct GesvdxPlan {
    /// Job letter for the left vectors.
    pub jobu: u8,
    /// Job letter for the right vectors.
    pub jobvt: u8,
    /// Range letter.
    pub range: u8,
    /// Rows of the input.
    pub m: i32,
    /// Columns of the input.
    pub n: i32,
    /// Leading dimension of the input.
    pub lda: i32,
    /// Index of the first value wanted, counted from one.
    pub il: i32,
    /// Index of the last value wanted.
    pub iu: i32,
    /// Leading dimension of the left vectors.
    pub ldu: i32,
    /// Leading dimension of the transposed right vectors.
    pub ldvt: i32,
    /// Length of the singular value buffer.
    pub s_len: usize,
    /// Length of the left vector buffer.
    pub u_len: usize,
    /// Length of the transposed right vector buffer.
    pub vt_len: usize,
    /// Length of the integer workspace.
    pub iwork_len: usize,
}

/// Whether `k` is a number of singular triplets that a `rows` by `cols`
/// matrix has.
pub open spec fn valid_rank(rows: int, cols: int, k: int) -> bool {
    1 <= k <= shorter_side(rows, cols)
}

/// Whether the top `k` triplets of a `rows` by `cols` matrix are within
/// what the kernel's arguments and the buffers can hold.
pub open spec fn gesvdx_fits(rows: int, cols: int, k: int) -> bool {
    &&& rows <= i32::MAX
    &&& cols <= i32::MAX
    &&& rows * k <= usize::MAX
    &&& k * cols <= usize::MAX
    &&& 12 * shorter_side(rows, cols) <= usize::MAX
}

/// The plan for the top `k` triplets of a `rows` by `cols` matrix.
pub open spec fn gesvdx_plan_of(rows: int, cols: int, k: int) -> GesvdxPlan {
    GesvdxPlan {
        jobu: JOB_VECTORS,
        jobvt: JOB_VECTORS,
        range: RANGE_INDEX,
        m: rows as i32,
        n: cols as i32,
        lda: leading(rows) as i32,
        il: 1,
        iu: k as i32,
        ldu: leading(rows) as i32,
        ldvt: leading(k) as i32,
        s_len: shorter_side(rows, cols) as usize,
        u_len: (rows * k) as usize,
        vt_len: (k * cols) as usize,
        iwork_len: (12 * shorter_side(rows, cols)) as usize,
    }
}

/// What planning the top `k` triplets comes to.
pub open spec fn gesvdx_plan_outcome(rows: int, cols: int, k: usize) -> Result<
    GesvdxPlan,
    SvdError,
> {
    if !valid_rank(rows, cols, k as int) {
        Err(SvdError::InvalidRank { k })
    } else if !gesvdx_fits(rows, cols, k as int) {
        Err(SvdError::TooLarge)
    } else {
        Ok(gesvdx_plan_of(rows, cols, k as int))
    }
}

/// Plans the computation of the top `k` singular triplets of a `rows` by
/// `cols` matrix. A `k` below one or above the shorter side is refused.
pub fn gesvdx_plan(rows: usize, cols: usize, k: usize) -> (r: Result<GesvdxPlan, SvdError>)
    ensures
        r == gesvdx_plan_outcome(rows as int, cols as int, k),
{
    let side: usize = min_dim(rows, cols);
    if k < 1 || k > side {
        return Err(SvdError::InvalidRank { k });
    }
    if rows > 2147483647 || cols > 2147483647 {
        return Err(SvdError::TooLarge);
    }
    let u_len: usize = match rows.checked_mul(k) {
        Some(n) => n,
        None => { return Err(SvdError::TooLarge); },
    };
    let vt_len: usize = match k.checked_mul(cols) {
        Some(n) => n,
        None => { return Err(SvdError::TooLarge); },
    };
    let iwork_len: usize = match side.checked_mul(12) {
        Some(n) => n,
        None => { return Err(SvdError::TooLarge); },
    };
    Ok(GesvdxPlan {
        jobu: JOB_VECTORS,
        jobvt: JOB_VECTORS,
        range: RANGE_INDEX,
        m: rows as i32,
        n: cols as i32,
        lda: rows as i32,
        il: 1,
        iu: k as i32,
        ldu: rows as i32,
        ldvt: k as i32,
        s_len: side,
        u_len,
        vt_len,
        iwork_len,
    })
}

/// What the status and the count of values found come to, for a request
/// of `k` values: the status is judged first, then the count, which must
/// be exactly `k`.
pub open spec fn partial_outcome(info: i32, found: i32, k: usize) -> Result<(), SvdError> {
    if info != SUCCESS {
        status_outcome(info)
    } else if found != k {
        Err(SvdError::Truncated { found, requested: k })
    } else {
        Ok(())
    }
}

/// Turns the buffers of a top-`k` decomposition of a `rows` by `cols`
/// matrix into matrices: `k` columns of left vectors, the first `k`
/// singular values, `k` columns of right vectors. `found` is the number of
/// values the kernel says it found.
pub fn finish_partial<T: Copy>(
    rows: usize,
    cols: usize,
    k: usize,
    info: i32,
    found: i32,
    u: Vec<T>,
    s: Vec<T>,
    vt: Vec<T>,
) -> (r: Result<SVD<T>, SvdError>)
    requires
        valid_rank(rows as int, cols as int, k as int),
        u@.len() == rows * k,
        s@.len() == shorter_side(rows as int, cols as int),
        vt@.len() == k * cols,
    ensures
        r is Ok <==> info == SUCCESS && found == k,
        r matches Err(e) ==> partial_outcome(info, found, k) == Err::<(), SvdError>(e),
        r matches Ok(svd) ==> is_partial_svd(
            svd, rows as int, cols as int, k as int, u@, s@, vt@),
{
    match check_status(info) {
        Err(e) => { return Err(e); },
        Ok(_) => {},
    }
    if found < 0 || found as usize != k {
        return Err(SvdError::Truncated { found, requested: k });
    }
    let left = DoubleMatrix::from_parts(rows, k, u);
    let mut values = s;
    values.truncate(k);
    assert(values@ =~= s@.take(k as int));
    let values = DoubleMatrix::from_parts(k, 1, values);
    let right = DoubleMatrix::from_parts(k, cols, vt).transpose();
    Ok(SVD { u: Some(left), s: values, v: Some(right) })
}

} // verus!
