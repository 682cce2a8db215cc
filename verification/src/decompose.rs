//! Singular value decompositions of a matrix, each computed by a kernel
//! that the caller supplies: all singular triplets, the singular values
//! alone, or the leading `k` triplets by one of two methods.
//!
//! Each method plans the kernel's arguments from the shape, runs the
//! kernel, judges its status, and turns the buffers it filled into
//! matrices. A buffer that comes back with a length other than the planned
//! one is refused rather than read.

use vstd::prelude::*;
use crate::lanczos::{check_lanczos_status, finish_lanczos, is_lanczos_svd, lanczos_plan,
    lanczos_plan_outcome, lanczos_status_outcome, LanczosPlan};
use crate::matrix::DoubleMatrix;
use crate::protocol::{input_copy, is_compute, two_phase, two_phase_outcome, KernelCall,
    KernelReply};
use crate::svd::{finish_full, finish_partial, finish_values, gesdd_fits, gesdd_plan,
    gesdd_plan_of, gesvdx_plan, gesvdx_plan_outcome, is_full_svd, is_partial_svd, shorter_side,
    valid_rank,
    GesddPlan, GesvdxPlan, Job, SvdError, Workspace, SUCCESS, SVD};

verus! {

/// What a full decomposition comes to, given how the kernel's runs ended.
pub open spec fn full_svd_outcome<T>(
    rows: int,
    cols: int,
    run: Result<KernelReply<T>, SvdError>,
    r: Result<SVD<T>, SvdError>,
) -> bool {
    match run {
        Err(e) => r == Err::<SVD<T>, SvdError>(e),
        Ok(reply) => if reply.left@.len() == rows * rows && reply.values@.len() == shorter_side(
            rows,
            cols,
        ) && reply.right@.len() == cols * cols {
            r matches Ok(svd) && is_full_svd(
                svd, rows, cols, reply.left@, reply.values@, reply.right@)
        } else {
            r == Err::<SVD<T>, SvdError>(SvdError::BufferLength)
        },
    }
}

/// What a values-only decomposition comes to, given how the kernel's runs
/// ended.
pub open spec fn singular_values_outcome<T>(
    rows: int,
    cols: int,
    run: Result<KernelReply<T>, SvdError>,
    r: Result<DoubleMatrix<T>, SvdError>,
) -> bool {
    match run {
        Err(e) => r == Err::<DoubleMatrix<T>, SvdError>(e),
        Ok(reply) => if reply.values@.len() == shorter_side(rows, cols) {
            r matches Ok(s) && s.wf() && s.nrows() == shorter_side(rows, cols) && s.ncols() == 1
                && s@ == reply.values@
        } else {
            r == Err::<DoubleMatrix<T>, SvdError>(SvdError::BufferLength)
        },
    }
}

/// What a top-`k` decomposition comes to, given how the kernel's runs
/// ended. The kernel must have found exactly `k` values.
pub open spec fn partial_svd_outcome<T>(
    rows: int,
    cols: int,
    k: usize,
    run: Result<KernelReply<T>, SvdError>,
    r: Result<SVD<T>, SvdError>,
) -> bool {
    match run {
        Err(e) => r == Err::<SVD<T>, SvdError>(e),
        Ok(reply) => if reply.found != k {
            r == Err::<SVD<T>, SvdError>(
                SvdError::Truncated { found: reply.found, requested: k },
            )
        } else if reply.left@.len() == rows * k && reply.values@.len() == shorter_side(rows, cols)
            && reply.right@.len() == k * cols {
            r matches Ok(svd) && is_partial_svd(
                svd, rows, cols, k as int, reply.left@, reply.values@, reply.right@)
        } else {
            r == Err::<SVD<T>, SvdError>(SvdError::BufferLength)
        },
    }
}

/// What a Lanczos decomposition comes to, given what the kernel left
/// behind.
pub open spec fn lansvd_outcome<T>(
    rows: int,
    cols: int,
    k: int,
    reply: KernelReply<T>,
    r: Result<SVD<T>, SvdError>,
) -> bool {
    match lanczos_status_outcome(reply.info) {
        Err(e) => r == Err::<SVD<T>, SvdError>(e),
        Ok(_) => if rows * k <= reply.left@.len() && k <= reply.values@.len() && cols * k
            <= reply.right@.len() {
            r matches Ok(svd) && is_lanczos_svd(
                svd, rows, cols, k, reply.left@, reply.values@, reply.right@)
        } else {
            r == Err::<SVD<T>, SvdError>(SvdError::BufferLength)
        },
    }
}

impl<T: Copy> DoubleMatrix<T> {
    /// All singular values with all left and right singular vectors, by
    /// the divide-and-conquer kernel. The kernel works on a copy of the
    /// matrix. It leaves the right vectors transposed; they are handed back
    /// untransposed.
    pub fn full_svd<F: Fn(KernelCall<GesddPlan, T>) -> KernelReply<T>>(&self, kernel: F) -> (r:
        Result<SVD<T>, SvdError>)
        requires
            self.wf(),
            forall|call: KernelCall<GesddPlan, T>| #[trigger] call_requires(kernel, (call,)),
        ensures
            !gesdd_fits(self.nrows() as int, self.ncols() as int, Job::Full) ==> r == Err::<
                SVD<T>,
                SvdError,
            >(SvdError::TooLarge),
            gesdd_fits(self.nrows() as int, self.ncols() as int, Job::Full) ==> exists|
                run: Result<KernelReply<T>, SvdError>,
            |
                #[trigger] two_phase_outcome(
                    kernel,
                    gesdd_plan_of(self.nrows() as int, self.ncols() as int, Job::Full),
                    self@,
                    run,
                ) && full_svd_outcome(self.nrows() as int, self.ncols() as int, run, r),
    {
        let rows: usize = self.rows();
        let cols: usize = self.cols();
        let plan = match gesdd_plan(rows, cols, Job::Full) {
            Err(e) => { return Err(e); },
            Ok(plan) => plan,
        };
        let run = two_phase(kernel, plan, input_copy(self));
        let ghost ran = run;
        let r = match run {
            Err(e) => Err(e),
            Ok(reply) => {
                if reply.left.len() == plan.u_len && reply.values.len() == plan.s_len
                    && reply.right.len() == plan.vt_len {
                    finish_full(rows, cols, SUCCESS, reply.left, reply.values, reply.right)
                } else {
                    Err(SvdError::BufferLength)
                }
            },
        };
        proof {
            assert(two_phase_outcome(kernel, plan, self@, ran));
            assert(full_svd_outcome(rows as int, cols as int, ran, r));
        }
        r
    }

    /// The singular values alone, as a column vector, by the
    /// divide-and-conquer kernel run without vectors.
    pub fn singular_values<F: Fn(KernelCall<GesddPlan, T>) -> KernelReply<T>>(
        &self,
        kernel: F,
    ) -> (r: Result<DoubleMatrix<T>, SvdError>)
        requires
            self.wf(),
            forall|call: KernelCall<GesddPlan, T>| #[trigger] call_requires(kernel, (call,)),
        ensures
            !gesdd_fits(self.nrows() as int, self.ncols() as int, Job::ValuesOnly) ==> r == Err::<
                DoubleMatrix<T>,
                SvdError,
            >(SvdError::TooLarge),
            gesdd_fits(self.nrows() as int, self.ncols() as int, Job::ValuesOnly) ==> exists|
                run: Result<KernelReply<T>, SvdError>,
            |
                #[trigger] two_phase_outcome(
                    kernel,
                    gesdd_plan_of(self.nrows() as int, self.ncols() as int, Job::ValuesOnly),
                    self@,
                    run,
                ) && singular_values_outcome(self.nrows() as int, self.ncols() as int, run, r),
    {
        let rows: usize = self.rows();
        let cols: usize = self.cols();
        let plan = match gesdd_plan(rows, cols, Job::ValuesOnly) {
            Err(e) => { return Err(e); },
            Ok(plan) => plan,
        };
        let run = two_phase(kernel, plan, input_copy(self));
        let ghost ran = run;
        let r = match run {
            Err(e) => Err(e),
            Ok(reply) => {
                if reply.values.len() == plan.s_len {
                    finish_values(SUCCESS, reply.values)
                } else {
                    Err(SvdError::BufferLength)
                }
            },
        };
        proof {
            assert(two_phase_outcome(kernel, plan, self@, ran));
            assert(singular_values_outcome(rows as int, cols as int, ran, r));
        }
        r
    }

    /// The leading `k` singular triplets, by the kernel that solves an
    /// eigenvalue problem for the values in an index range. A `k` below one
    /// or above the shorter side is refused, and so is a kernel that found
    /// another number of values than `k`.
    pub fn svd<F: Fn(KernelCall<GesvdxPlan, T>) -> KernelReply<T>>(
        &self,
        k: usize,
        kernel: F,
    ) -> (r: Result<SVD<T>, SvdError>)
        requires
            self.wf(),
            forall|call: KernelCall<GesvdxPlan, T>| #[trigger] call_requires(kernel, (call,)),
        ensures
            !valid_rank(self.nrows() as int, self.ncols() as int, k as int) ==> r == Err::<
                SVD<T>,
                SvdError,
            >(SvdError::InvalidRank { k }),
            match gesvdx_plan_outcome(self.nrows() as int, self.ncols() as int, k) {
                Err(e) => r == Err::<SVD<T>, SvdError>(e),
                Ok(plan) => exists|run: Result<KernelReply<T>, SvdError>|
                    #[trigger] two_phase_outcome(kernel, plan, self@, run) && partial_svd_outcome(
                        self.nrows() as int, self.ncols() as int, k, run, r),
            },
            r matches Ok(svd) ==> svd.s.nrows() == k && svd.s@.len() == k,
    {
        let rows: usize = self.rows();
        let cols: usize = self.cols();
        let plan = match gesvdx_plan(rows, cols, k) {
            Err(e) => { return Err(e); },
            Ok(plan) => plan,
        };
        let run = two_phase(kernel, plan, input_copy(self));
        let ghost ran = run;
        let r = match run {
            Err(e) => Err(e),
            Ok(reply) => {
                if reply.found < 0 || reply.found as usize != k {
                    Err(SvdError::Truncated { found: reply.found, requested: k })
                } else if reply.left.len() == plan.u_len && reply.values.len() == plan.s_len
                    && reply.right.len() == plan.vt_len {
                    finish_partial(
                        rows, cols, k, SUCCESS, reply.found, reply.left, reply.values, reply.right)
                } else {
                    Err(SvdError::BufferLength)
                }
            },
        };
        proof {
            assert(two_phase_outcome(kernel, plan, self@, ran));
            assert(partial_svd_outcome(rows as int, cols as int, k, ran, r));
        }
        r
    }

    /// The leading `k` singular triplets, approximately, by implicitly
    /// restarted Lanczos bidiagonalization. The kernel is run once, with
    /// buffers sized for the whole Krylov subspace; what it leaves is cut to
    /// `k` triplets. A `k` below one or above the shorter side is refused.
    pub fn lansvd<F: Fn(KernelCall<LanczosPlan, T>) -> KernelReply<T>>(
        &self,
        k: usize,
        kernel: F,
    ) -> (r: Result<SVD<T>, SvdError>)
        requires
            self.wf(),
            forall|call: KernelCall<LanczosPlan, T>| #[trigger] call_requires(kernel, (call,)),
        ensures
            !valid_rank(self.nrows() as int, self.ncols() as int, k as int) ==> r == Err::<
                SVD<T>,
                SvdError,
            >(SvdError::InvalidRank { k }),
            match lanczos_plan_outcome(self.nrows() as int, self.ncols() as int, k) {
                Err(e) => r == Err::<SVD<T>, SvdError>(e),
                Ok(plan) => exists|call: KernelCall<LanczosPlan, T>, reply: KernelReply<T>|
                    {
                        &&& is_compute(
                            call,
                            plan,
                            Workspace { len: plan.work_len, lwork: plan.lwork },
                            self@,
                        )
                        &&& #[trigger] call_ensures(kernel, (call,), reply)
                        &&& lansvd_outcome(
                            self.nrows() as int, self.ncols() as int, k as int, reply, r)
                    },
            },
            r matches Ok(svd) ==> svd.s.nrows() == k && svd.s@.len() == k,
    {
        let rows: usize = self.rows();
        let cols: usize = self.cols();
        let plan = match lanczos_plan(rows, cols, k) {
            Err(e) => { return Err(e); },
            Ok(plan) => plan,
        };
        let call = KernelCall {
            plan,
            lwork: plan.lwork,
            work_len: plan.work_len,
            a: input_copy(self),
        };
        let ghost called = call;
        let reply = kernel(call);
        let ghost replied = reply;
        let r = match check_lanczos_status(reply.info) {
            Err(e) => Err(e),
            Ok(_) => {
                let left_len: usize = reply.left.len();
                let right_len: usize = reply.right.len();
                let left_enough = match rows.checked_mul(k) {
                    Some(n) => n <= left_len,
                    None => false,
                };
                let right_enough = match cols.checked_mul(k) {
                    Some(n) => n <= right_len,
                    None => false,
                };
                assert(left_enough <==> rows * k <= replied.left@.len());
                assert(right_enough <==> cols * k <= replied.right@.len());
                if left_enough && k <= reply.values.len() && right_enough {
                    finish_lanczos(rows, cols, k, SUCCESS, reply.left, reply.values, reply.right)
                } else {
                    Err(SvdError::BufferLength)
                }
            },
        };
        proof {
            assert(is_compute(
                called, plan, Workspace { len: plan.work_len, lwork: plan.lwork }, self@));
            assert(call_ensures(kernel, (called,), replied));
            assert(lansvd_outcome(rows as int, cols as int, k as int, replied, r));
        }
        r
    }
}

} // verus!
