//! The runtime's global laws, stated over the same transition functions the
//! executable contracts use, and proved once and for all.

use vstd::prelude::*;

use crate::ops::{op_poll_spec, OpFuture, OpState, Poll};
use crate::reactor::{
    complete_model, decode_result, drain_completions_model, register_model, register_tcp_model,
    take_model, wait_model, CompletionModel, CqModel, IoOp, OsError, ReactorModel, ReadyEvent,
    WakeHandle,
};
use crate::task::{runtime_inv, spawn_spec, wake_spec, Executor, TaskFuture};

verus! {

/// One allocation step of the correlation-id allocator: the id handed out is
/// the reactor's next one, and the allocator moves past it.
pub open spec fn allocates(pre: ReactorModel, post: ReactorModel, id: u64) -> bool {
    &&& id == pre.next_event_id
    &&& pre.next_event_id < u64::MAX
    &&& post.next_event_id == pre.next_event_id + 1
}

/// Registering an operation allocates a correlation id.
pub proof fn lemma_register_allocates(
    m: ReactorModel,
    fd: i32,
    op: IoOp,
    data: Seq<u8>,
    w: WakeHandle,
)
    requires
        m.next_event_id < u64::MAX,
    ensures
        allocates(m, register_model(m, fd, op, data, w).0, register_model(m, fd, op, data, w).1),
{
}

/// Registering a descriptor for readiness allocates a correlation id from the
/// same counter.
pub proof fn lemma_register_tcp_allocates(m: ReactorModel, fd: i32)
    requires
        m.next_event_id < u64::MAX,
    ensures
        allocates(m, register_tcp_model(m, fd).0, register_tcp_model(m, fd).1),
{
}

/// Event ids are strictly increasing across calls to the allocator: whatever
/// happens between two allocations, as long as it never lowers the allocator
/// (no reactor operation does), the later allocation returns the strictly
/// larger id.
pub proof fn lemma_event_ids_strictly_increasing(
    m0: ReactorModel,
    m1: ReactorModel,
    m2: ReactorModel,
    m3: ReactorModel,
    id1: u64,
    id2: u64,
)
    requires
        allocates(m0, m1, id1),
        m1.next_event_id <= m2.next_event_id,
        allocates(m2, m3, id2),
    ensures
        id1 < id2,
{
}

/// A freshly allocated id is tracked nowhere in the reactor: no pending
/// waiter, no recorded result, and no readiness registration hold it. Together
/// with [`runtime_inv`], which the executor's operations preserve, this is why
/// no two concurrently-pending operations ever share an id.
pub proof fn lemma_allocated_id_fresh(
    m: ReactorModel,
    fd: i32,
    op: IoOp,
    data: Seq<u8>,
    w: WakeHandle,
)
    requires
        m.wf(),
        m.next_event_id < u64::MAX,
    ensures
        !m.waiters.contains_key(register_model(m, fd, op, data, w).1),
        !m.completed.contains_key(register_model(m, fd, op, data, w).1),
        forall|cfd: i32| #[trigger]
            m.client.contains_key(cfd) ==> m.client[cfd] != register_model(m, fd, op, data, w).1,
{
}

/// For every operation kind, registering and then receiving the kernel's
/// completion for the returned id wakes exactly the stored waker and makes
/// the outcome retrievable exactly once: a non-negative raw result is
/// recorded as `Ok` of that count, a negative one as the error carrying that
/// code; a second retrieval finds nothing.
pub proof fn lemma_register_complete_take(
    m0: ReactorModel,
    fd: i32,
    op: IoOp,
    data: Seq<u8>,
    w: WakeHandle,
    raw: i32,
    cq_data: Seq<u8>,
)
    requires
        m0.wf(),
        m0.next_event_id < u64::MAX,
    ensures
        ({
            let id = register_model(m0, fd, op, data, w).1;
            let m1 = register_model(m0, fd, op, data, w).0;
            let step = complete_model(m1, CqModel { user_data: id, result: raw, data: cq_data });
            let taken = take_model(step.0, id);
            &&& step.1 == Some(w)
            &&& taken.1 == Some(CompletionModel { result: decode_result(raw), data: cq_data })
            &&& (raw >= 0 ==> decode_result(raw) == Ok::<usize, OsError>(raw as usize))
            &&& (raw < 0 ==> decode_result(raw) == Err::<usize, OsError>(OsError { code: raw }))
            &&& take_model(taken.0, id).1 is None
        }),
{
}

/// Re-polling a future after it has resolved yields the same cached result
/// every time, and neither the future nor the reactor changes: resolution is
/// idempotent, with no re-registration.
pub proof fn lemma_resolved_poll_idempotent(
    f0: OpFuture,
    f1: OpFuture,
    f2: OpFuture,
    r0: ReactorModel,
    r1: ReactorModel,
    r2: ReactorModel,
    w1: WakeHandle,
    w2: WakeHandle,
    ret1: Poll,
    ret2: Poll,
    res: Result<usize, OsError>,
)
    requires
        f0.state == OpState::Resolved(res),
        op_poll_spec(f0, f1, r0, r1, w1, ret1),
        op_poll_spec(f1, f2, r1, r2, w2, ret2),
    ensures
        ret1 == Poll::Ready(res),
        ret2 == Poll::Ready(res),
        f1 == f0,
        f2 == f0,
        r1 == r0,
        r2 == r0,
{
}

/// A burst of wakes between two polls coalesces to at most one queue entry:
/// once a wake has enqueued the task, every further wake before the next poll
/// changes nothing. With [`Executor::run`]'s guarantee that each queue entry
/// is polled exactly once per pass, a task is polled exactly once per time it
/// was made runnable.
pub proof fn lemma_wake_coalesces(e0: Executor, e1: Executor, e2: Executor, task_id: usize)
    requires
        e0.wf(),
        wake_spec(e0, e1, task_id),
        wake_spec(e1, e2, task_id),
    ensures
        e2.tasks@ == e1.tasks@,
        e2.queue@ == e1.queue@,
{
    if task_id < e0.tasks@.len() && !e0.tasks@[task_id as int].queued && !e0.tasks@[
        task_id as int
    ].done {
        assert(e1.tasks@[task_id as int].queued);
    }
}

/// Draining completions never moves the allocator, never touches the
/// descriptor table, and keeps the reactor well formed when every completion
/// carries an allocated id.
pub proof fn lemma_drain_completions_wf(pre: ReactorModel, evs: Seq<CqModel>)
    requires
        pre.wf(),
        forall|j: int| 0 <= j < evs.len() ==> (#[trigger] evs[j]).user_data < pre.next_event_id,
    ensures
        drain_completions_model(pre, evs).0.wf(),
        drain_completions_model(pre, evs).0.next_event_id == pre.next_event_id,
        drain_completions_model(pre, evs).0.client == pre.client,
    decreases evs.len(),
{
    if evs.len() > 0 {
        let step = complete_model(pre, evs[0]);
        assert(step.0.wf());
        lemma_drain_completions_wf(step.0, evs.drop_first());
    }
}

/// A wait cycle never invalidates the agreement between an executor and the
/// reactor: it moves no allocator, touches no task, and only adds or removes
/// completion records and waiters.
pub proof fn lemma_wait_preserves_runtime_inv(
    ex: Executor,
    m: ReactorModel,
    evs: Seq<CqModel>,
    ready: Seq<ReadyEvent>,
)
    requires
        runtime_inv(ex, m),
        forall|j: int| 0 <= j < evs.len() ==> (#[trigger] evs[j]).user_data < m.next_event_id,
    ensures
        runtime_inv(ex, wait_model(m, evs, ready).0),
{
    lemma_drain_completions_wf(m, evs);
    let post = wait_model(m, evs, ready).0;
    assert(post.next_event_id == m.next_event_id);
    assert forall|t: int| 0 <= t < ex.tasks@.len() implies (#[trigger] ex.tasks@[t]).future.wf(
        post,
    ) by {
        assert(ex.tasks@[t].future.wf(m));
    }
}

/// Spawning a task whose future is not yet pending on any id keeps the
/// executor and reactor in agreement.
pub proof fn lemma_spawn_preserves_runtime_inv(
    pre: Executor,
    post: Executor,
    future: TaskFuture,
    id: usize,
    m: ReactorModel,
)
    requires
        runtime_inv(pre, m),
        spawn_spec(pre, post, future, id),
        post.wf(),
        future.wf(m),
        future.pending_id() is None,
    ensures
        runtime_inv(post, m),
{
    assert forall|t: int| 0 <= t < post.tasks@.len() implies (#[trigger] post.tasks@[t]).future.wf(
        m,
    ) by {
        if t < pre.tasks@.len() {
            assert(pre.tasks@[t].future.wf(m));
        }
    }
}

/// Waking a task keeps the executor and reactor in agreement: no future
/// changes.
pub proof fn lemma_wake_preserves_runtime_inv(
    pre: Executor,
    post: Executor,
    task_id: usize,
    m: ReactorModel,
)
    requires
        runtime_inv(pre, m),
        wake_spec(pre, post, task_id),
        post.wf(),
    ensures
        runtime_inv(post, m),
{
    assert forall|t: int| 0 <= t < post.tasks@.len() implies (#[trigger] post.tasks@[t]).future.wf(
        m,
    ) by {
        assert(post.tasks@[t].future == pre.tasks@[t].future);
        assert(pre.tasks@[t].future.wf(m));
    }
    assert forall|t1: int, t2: int|
        0 <= t1 < t2 < post.tasks@.len() && post.tasks@[t1].future.pending_id() is Some
            && post.tasks@[t2].future.pending_id() is Some implies post.tasks@[t1].future.pending_id()
        != post.tasks@[t2].future.pending_id() by {
        assert(post.tasks@[t1].future == pre.tasks@[t1].future);
        assert(post.tasks@[t2].future == pre.tasks@[t2].future);
        assert(pre.tasks@[t1].future.pending_id() is Some);
    }
}

} // verus!
