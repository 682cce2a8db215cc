//! The calling convention of the decomposition kernels.
//!
//! A kernel works on buffers that its caller allocates, among them a
//! workspace whose length the kernel itself determines. So a kernel is run
//! twice: first with the workspace length that stands for a query, to learn
//! the length it needs, then with a workspace of that length, to compute.
//! A status other than success ends the protocol at either run.
//!
//! The kernel is a parameter. What is decided here is the order of the
//! runs, what is handed to each, and what each status leads to.

use vstd::prelude::*;
use crate::matrix::DoubleMatrix;
use crate::svd::{query_outcome, status_outcome, after_query, check_status, SvdError, Workspace,
    WORKSPACE_QUERY};

verus! {

/// What is handed to a kernel for one run.
#[derive(Debug)]
pub struct KernelCall<P, T> {
    /// Arguments and buffer lengths.
    pub plan: P,
    /// Workspace length as the kernel takes it; the query value on the
    /// first run.
    pub lwork: i32,
    /// Number of workspace elements to allocate.
    pub work_len: usize,
    /// The matrix to decompose, column-major, which the kernel may
    /// overwrite; empty on a query.
    pub a: Vec<T>,
}

/// What a kernel leaves behind.
#[derive(Debug)]
pub struct KernelReply<T> {
    /// Status.
    pub info: i32,
    /// The workspace length asked for, on a query.
    pub reported: usize,
    /// Number of singular values found, where the kernel counts them.
    pub found: i32,
    /// Singular values.
    pub values: Vec<T>,
    /// Buffer of the left singular vectors.
    pub left: Vec<T>,
    /// Buffer of the right singular vectors.
    pub right: Vec<T>,
}

/// `call` is the query for `plan`: no input, one workspace element, and
/// the workspace length that asks for a report.
pub open spec fn is_query<P, T>(call: KernelCall<P, T>, plan: P) -> bool {
    &&& call.plan == plan
    &&& call.lwork == WORKSPACE_QUERY
    &&& call.work_len == 1
    &&& call.a@.len() == 0
}

/// `call` is the computing run for `plan` on `data` with workspace `ws`.
pub open spec fn is_compute<P, T>(
    call: KernelCall<P, T>,
    plan: P,
    ws: Workspace,
    data: Seq<T>,
) -> bool {
    &&& call.plan == plan
    &&& call.lwork == ws.lwork
    &&& call.work_len == ws.len
    &&& call.a@ == data
}

/// `r` is what the computing run on `data` with workspace `ws` may come
/// to: the kernel's reply where its status is success, else the error the
/// status stands for.
pub open spec fn computed<P, T, F: Fn(KernelCall<P, T>) -> KernelReply<T>>(
    kernel: F,
    plan: P,
    ws: Workspace,
    data: Seq<T>,
    r: Result<KernelReply<T>, SvdError>,
) -> bool {
    exists|call: KernelCall<P, T>, reply: KernelReply<T>|
        {
            &&& is_compute(call, plan, ws, data)
            &&& #[trigger] call_ensures(kernel, (call,), reply)
            &&& match status_outcome(reply.info) {
                Err(e) => r == Err::<KernelReply<T>, SvdError>(e),
                Ok(_) => r == Ok::<KernelReply<T>, SvdError>(reply),
            }
        }
}

/// `r` is what the two runs of `kernel` for `plan` on `data` may come to.
/// A failed query ends the protocol; otherwise the computing run gets the
/// workspace the query asked for.
pub open spec fn two_phase_outcome<P, T, F: Fn(KernelCall<P, T>) -> KernelReply<T>>(
    kernel: F,
    plan: P,
    data: Seq<T>,
    r: Result<KernelReply<T>, SvdError>,
) -> bool {
    exists|call: KernelCall<P, T>, reply: KernelReply<T>|
        {
            &&& is_query(call, plan)
            &&& #[trigger] call_ensures(kernel, (call,), reply)
            &&& match query_outcome(reply.info, reply.reported) {
                Err(e) => r == Err::<KernelReply<T>, SvdError>(e),
                Ok(ws) => computed(kernel, plan, ws, data, r),
            }
        }
}

/// Runs `kernel` twice for `plan` on `data`: once to ask for the workspace
/// length, once to compute.
pub fn two_phase<P: Copy, T, F: Fn(KernelCall<P, T>) -> KernelReply<T>>(
    kernel: F,
    plan: P,
    data: Vec<T>,
) -> (r: Result<KernelReply<T>, SvdError>)
    requires
        forall|call: KernelCall<P, T>|
            call.plan == plan ==> #[trigger] call_requires(kernel, (call,)),
    ensures
        two_phase_outcome(kernel, plan, data@, r),
{
    let query = KernelCall { plan, lwork: WORKSPACE_QUERY, work_len: 1, a: Vec::new() };
    let ghost query_snapshot = query;
    let asked = kernel(query);
    let ws = match after_query(asked.info, asked.reported) {
        Err(e) => {
            proof {
                assert(is_query(query_snapshot, plan));
                assert(call_ensures(kernel, (query_snapshot,), asked));
            }
            return Err(e);
        },
        Ok(ws) => ws,
    };
    let compute = KernelCall { plan, lwork: ws.lwork, work_len: ws.len, a: data };
    let ghost compute_snapshot = compute;
    let reply = kernel(compute);
    let r = match check_status(reply.info) {
        Err(e) => Err(e),
        Ok(_) => Ok(reply),
    };
    proof {
        assert(is_compute(compute_snapshot, plan, ws, data@));
        assert(call_ensures(kernel, (compute_snapshot,), reply));
        assert(computed(kernel, plan, ws, data@, r));
        assert(is_query(query_snapshot, plan));
        assert(call_ensures(kernel, (query_snapshot,), asked));
    }
    r
}

/// A copy of the buffer of `m`, for a kernel that overwrites its input.
pub fn input_copy<T: Copy>(m: &DoubleMatrix<T>) -> (a: Vec<T>)
    ensures
        a@ == m@,
{
    m.clone().into_data()
}

} // verus!
