//! The cooperative task scheduler. A task wraps one future of the runtime
//! together with its scheduling flags; the executor holds the task arena and
//! a FIFO run queue of task ids. A task's wake handle is its arena id:
//! waking re-enqueues the task unless it is already queued (wakes coalesce)
//! or already done.
//!
//! [`Executor::run`] polls every runnable task once per time it was made
//! runnable and returns when the queue drains; the embedding program then
//! blocks on the kernel, feeds the events to [`Reactor::wait`], and hands the
//! returned wake-ups back to [`Executor::spawn_task`].

use std::collections::VecDeque;
use vstd::prelude::*;

use crate::ops::{buffer_after, op_poll_spec, OpFuture, OpState, Poll};
use crate::reactor::{Reactor, ReactorModel, WakeHandle};
use crate::tcp::{lemma_listener_poll_keeps_log, listener_poll_spec, ListenerFuture, ListenerState};

verus! {

/// The future a task drives: a single two-phase operation, or the
/// connection-multiplexing accept loop.
pub enum TaskFuture {
    Op(OpFuture),
    Listener(ListenerFuture),
}

impl TaskFuture {
    /// The future's registered ids were allocated by the reactor.
    pub open spec fn wf(self, m: ReactorModel) -> bool {
        match self {
            TaskFuture::Op(f) => f.wf(m),
            TaskFuture::Listener(l) => l.wf(m),
        }
    }

    /// The correlation id the future is pending on, if any.
    pub open spec fn pending_id(self) -> Option<u64> {
        match self {
            TaskFuture::Op(f) => match f.state {
                OpState::AwaitingCompletion(e) => Some(e),
                _ => None,
            },
            TaskFuture::Listener(l) => match l.state {
                ListenerState::Accepting { more, op } => match op.state {
                    OpState::AwaitingCompletion(e) => Some(e),
                    _ => None,
                },
                _ => None,
            },
        }
    }
}

/// One poll of a task's future, whichever kind it is.
pub open spec fn future_poll_spec(
    pre_f: TaskFuture,
    post_f: TaskFuture,
    pre_r: ReactorModel,
    post_r: ReactorModel,
    waker: WakeHandle,
    ret: Poll,
) -> bool {
    match (pre_f, post_f) {
        (TaskFuture::Op(a), TaskFuture::Op(b)) => op_poll_spec(a, b, pre_r, post_r, waker, ret),
        (TaskFuture::Listener(a), TaskFuture::Listener(b)) => listener_poll_spec(
            a,
            b,
            pre_r,
            post_r,
            waker,
            ret,
        ),
        _ => false,
    }
}

/// One spawned unit of work: the future it drives, whether it currently sits
/// in the run queue, whether its future has resolved, and how many times it
/// has been polled (the counter stops at its maximum rather than wrap).
pub struct Task {
    pub future: TaskFuture,
    pub queued: bool,
    pub done: bool,
    pub polls: u64,
}

impl Task {
    /// Wraps a future as a task that is not yet queued, not done, and never
    /// polled.
    pub fn new(future: TaskFuture) -> (t: Task)
        ensures
            t == (Task { future, queued: false, done: false, polls: 0u64 }),
    {
        Task { future, queued: false, done: false, polls: 0 }
    }

    /// Polls the task's future once, on behalf of the task itself: the wake
    /// handle passed down is the task's own arena id. Returns whether the
    /// future resolved; a resolved task is marked done.
    pub fn poll(&mut self, reactor: &mut Reactor, self_id: usize) -> (done: bool)
        requires
            old(reactor).wf(),
            old(self).future.wf(old(reactor)@),
            old(reactor).next_event_id < u64::MAX,
        ensures
            final(self).queued == old(self).queued,
            final(self).polls == (if old(self).polls < u64::MAX {
                (old(self).polls + 1) as u64
            } else {
                old(self).polls
            }),
            exists|ret: Poll|
                {
                    &&& #[trigger] future_poll_spec(
                        old(self).future,
                        final(self).future,
                        old(reactor)@,
                        final(reactor)@,
                        WakeHandle::Task(self_id),
                        ret,
                    )
                    &&& done == (ret is Ready)
                    &&& final(self).done == (old(self).done || ret is Ready)
                },
            final(reactor).wf(),
            final(self).future.wf(final(reactor)@),
    {
        let ret = match &mut self.future {
            TaskFuture::Op(f) => f.poll(reactor, WakeHandle::Task(self_id)),
            TaskFuture::Listener(l) => l.poll(reactor, WakeHandle::Task(self_id)),
        };
        if self.polls < u64::MAX {
            self.polls = self.polls + 1;
        }
        let done = match ret {
            Poll::Ready(_) => true,
            Poll::Pending => false,
        };
        if done {
            self.done = true;
        }
        proof {
            assert(future_poll_spec(
                old(self).future,
                self.future,
                old(reactor)@,
                reactor@,
                WakeHandle::Task(self_id),
                ret,
            ));
        }
        done
    }
}

/// The scheduler: the task arena (ids are stable indices) and the FIFO run
/// queue of runnable task ids.
pub struct Executor {
    pub tasks: Vec<Task>,
    pub queue: VecDeque<usize>,
}

impl Executor {
    /// The run queue holds valid, pairwise-distinct ids; a task sits in the
    /// queue exactly when its `queued` flag is set; a done task is never
    /// queued.
    pub open spec fn wf(self) -> bool {
        &&& forall|i: int|
            0 <= i < self.queue@.len() ==> (#[trigger] self.queue@[i]) < self.tasks@.len()
        &&& forall|i: int, j: int|
            0 <= i < j < self.queue@.len() ==> self.queue@[i] != self.queue@[j]
        &&& forall|i: int|
            0 <= i < self.queue@.len() ==> self.tasks@[#[trigger] self.queue@[i] as int].queued
        &&& forall|t: int|
            0 <= t < self.tasks@.len() && (#[trigger] self.tasks@[t]).queued ==> self.queue@.contains(
                t as usize,
            )
        &&& forall|t: int|
            0 <= t < self.tasks@.len() && (#[trigger] self.tasks@[t]).done ==> !self.tasks@[t].queued
    }
}

/// The executor and reactor agree: both are well formed, every task's future
/// holds only ids the reactor allocated, and no two tasks are pending on the
/// same correlation id.
pub open spec fn runtime_inv(ex: Executor, m: ReactorModel) -> bool {
    &&& ex.wf()
    &&& m.wf()
    &&& forall|t: int| 0 <= t < ex.tasks@.len() ==> (#[trigger] ex.tasks@[t]).future.wf(m)
    &&& forall|t1: int, t2: int|
        #![trigger ex.tasks@[t1].future.pending_id(), ex.tasks@[t2].future.pending_id()]
        0 <= t1 < t2 < ex.tasks@.len() && ex.tasks@[t1].future.pending_id() is Some
            && ex.tasks@[t2].future.pending_id() is Some ==> ex.tasks@[t1].future.pending_id()
            != ex.tasks@[t2].future.pending_id()
}

/// What spawning does: append a fresh task (queued, not done, never polled)
/// to the arena and its id to the back of the run queue.
pub open spec fn spawn_spec(pre: Executor, post: Executor, future: TaskFuture, id: usize) -> bool {
    &&& id == pre.tasks@.len()
    &&& post.tasks@ == pre.tasks@.push(Task { future, queued: true, done: false, polls: 0u64 })
    &&& post.queue@ == pre.queue@.push(id)
}

/// What waking does: enqueue the task and set its flag, unless the id is out
/// of range or the task is already queued or already done, in which case
/// nothing changes. Wakes between two polls therefore coalesce to at most one
/// queue entry.
pub open spec fn wake_spec(pre: Executor, post: Executor, task_id: usize) -> bool {
    if task_id < pre.tasks@.len() && !pre.tasks@[task_id as int].queued && !pre.tasks@[
        task_id as int
    ].done {
        &&& post.tasks@ == pre.tasks@.update(
            task_id as int,
            Task { queued: true, ..pre.tasks@[task_id as int] },
        )
        &&& post.queue@ == pre.queue@.push(task_id)
    } else {
        &&& post.tasks@ == pre.tasks@
        &&& post.queue@ == pre.queue@
    }
}

/// What one pass of the scheduler guarantees for a task that was runnable
/// when the pass began, stated against the reactor state before and after the
/// whole pass. An unregistered operation is registered under an id the pass
/// allocates; an awaiting operation resolves exactly when the pass began with
/// its outcome recorded, consuming the record; a resolved operation repeats
/// its cached result and completes. The listener's single steps are covered
/// by its own poll contract.
pub open spec fn run_task_progress(
    pre_t: Task,
    post_t: Task,
    pre_r: ReactorModel,
    post_r: ReactorModel,
) -> bool {
    match pre_t.future {
        TaskFuture::Op(f) => match f.state {
            OpState::Unregistered => {
                &&& post_t.future matches TaskFuture::Op(g) && g.fd == f.fd && g.op == f.op
                    && g.buffer@ == f.buffer@ && (g.state matches OpState::AwaitingCompletion(e)
                    && pre_r.next_event_id <= e < post_r.next_event_id)
                &&& !post_t.done
            },
            OpState::AwaitingCompletion(e) => {
                if pre_r.completed.contains_key(e) {
                    let entry = pre_r.completed[e];
                    &&& post_t.future matches TaskFuture::Op(g) && g.fd == f.fd && g.op == f.op
                        && g.state == OpState::Resolved(entry.result) && g.buffer@ == buffer_after(
                        f.op,
                        f.buffer@,
                        entry,
                    )
                    &&& post_t.done
                    &&& !post_r.completed.contains_key(e)
                } else {
                    &&& post_t.future == pre_t.future
                    &&& !post_t.done
                }
            },
            OpState::Resolved(res) => {
                &&& post_t.future == pre_t.future
                &&& post_t.done
            },
        },
        TaskFuture::Listener(l) => {
            post_t.future matches TaskFuture::Listener(l2) && l2.fd == l.fd && l2.event_id
                == l.event_id && l2.handled@.len() >= l.handled@.len() && l2.handled@.subrange(
                0,
                l.handled@.len() as int,
            ) == l.handled@
        },
    }
}

/// A sequence stays a prefix of itself after a push.
proof fn lemma_push_keeps_prefix<T>(a: Seq<T>, x: T)
    ensures
        a.push(x).len() == a.len() + 1,
        a.push(x).subrange(0, a.len() as int) == a,
{
    assert(a.push(x).subrange(0, a.len() as int) =~= a);
}

/// Being a prefix is transitive.
proof fn lemma_prefix_trans<T>(a: Seq<T>, b: Seq<T>, c: Seq<T>)
    requires
        b.len() >= a.len(),
        b.subrange(0, a.len() as int) == a,
        c.len() >= b.len(),
        c.subrange(0, b.len() as int) == b,
    ensures
        c.len() >= a.len(),
        c.subrange(0, a.len() as int) == a,
{
    assert(c.subrange(0, a.len() as int) =~= a) by {
        assert forall|i: int| 0 <= i < a.len() implies c[i] == a[i] by {
            assert(b.subrange(0, a.len() as int)[i] == b[i]);
            assert(c.subrange(0, b.len() as int)[i] == c[i]);
        }
    }
}

/// One poll consumes at most its own pending completion record, never adds
/// one, and moves the id allocator up by at most one; a registration made
/// during the poll holds an id allocated during the poll.
pub proof fn lemma_poll_completed_effect(
    pre_f: TaskFuture,
    post_f: TaskFuture,
    pre_r: ReactorModel,
    post_r: ReactorModel,
    waker: WakeHandle,
    ret: Poll,
)
    requires
        future_poll_spec(pre_f, post_f, pre_r, post_r, waker, ret),
        pre_r.next_event_id < u64::MAX,
    ensures
        forall|id: u64| #[trigger]
            post_r.completed.contains_key(id) ==> pre_r.completed.contains_key(id)
                && post_r.completed[id] == pre_r.completed[id],
        forall|id: u64| #[trigger]
            pre_r.completed.contains_key(id) && Some(id) != pre_f.pending_id()
                ==> post_r.completed.contains_key(id) && post_r.completed[id]
                == pre_r.completed[id],
        pre_r.next_event_id <= post_r.next_event_id <= pre_r.next_event_id + 1,
        post_f.pending_id() matches Some(e2) ==> (pre_f.pending_id() == Some(e2) || (
        pre_r.next_event_id <= e2 < post_r.next_event_id)),
        post_r.submissions.len() >= pre_r.submissions.len(),
        post_r.submissions.subrange(0, pre_r.submissions.len() as int) == pre_r.submissions,
        post_r.registrations.len() >= pre_r.registrations.len(),
        post_r.registrations.subrange(0, pre_r.registrations.len() as int) == pre_r.registrations,
{
    assert(pre_r.submissions.subrange(0, pre_r.submissions.len() as int) =~= pre_r.submissions);
    assert(pre_r.registrations.subrange(0, pre_r.registrations.len() as int)
        =~= pre_r.registrations);
    match pre_f {
        TaskFuture::Op(f) => {
            match f.state {
                OpState::Unregistered => {
                    lemma_push_keeps_prefix(
                        pre_r.submissions,
                        post_r.submissions.last(),
                    );
                },
                OpState::AwaitingCompletion(e) => {},
                OpState::Resolved(res) => {},
            }
        },
        TaskFuture::Listener(l) => {
            match l.state {
                ListenerState::Waiting => {
                    if pre_r.ready.len() > 0 && post_r.submissions.len() > pre_r.submissions.len() {
                        lemma_push_keeps_prefix(pre_r.submissions, post_r.submissions.last());
                    }
                },
                ListenerState::Accepting { more, op } => {
                    if post_r.submissions.len() > pre_r.submissions.len() {
                        lemma_push_keeps_prefix(pre_r.submissions, post_r.submissions.last());
                    }
                    if post_r.registrations.len() > pre_r.registrations.len() {
                        lemma_push_keeps_prefix(
                            pre_r.registrations,
                            post_r.registrations.last(),
                        );
                    }
                },
            }
        },
    }
}

impl Executor {
    /// An executor with no tasks and an empty run queue.
    pub fn new() -> (ex: Executor)
        ensures
            ex.tasks@ == Seq::<Task>::empty(),
            ex.queue@ == Seq::<usize>::empty(),
            ex.wf(),
    {
        Executor { tasks: Vec::new(), queue: VecDeque::new() }
    }

    /// Spawns a future as a new task and makes it runnable. Returns the
    /// task's id, which is also its wake handle.
    pub fn spawn(&mut self, future: TaskFuture) -> (id: usize)
        requires
            old(self).wf(),
            old(self).tasks@.len() < usize::MAX,
        ensures
            spawn_spec(*old(self), *final(self), future, id),
            final(self).wf(),
    {
        let id = self.tasks.len();
        let mut t = Task::new(future);
        t.queued = true;
        self.tasks.push(t);
        self.queue.push_back(id);
        proof {
            assert forall|i: int| 0 <= i < self.queue@.len() implies (#[trigger] self.queue@[i])
                < self.tasks@.len() by {
                if i < old(self).queue@.len() {
                    assert(old(self).queue@[i] < old(self).tasks@.len());
                }
            }
            assert forall|t2: int|
                0 <= t2 < self.tasks@.len() && (#[trigger] self.tasks@[t2]).queued implies self.queue@.contains(
                t2 as usize,
            ) by {
                if t2 < old(self).tasks@.len() {
                    let k = choose|k: int|
                        0 <= k < old(self).queue@.len() && old(self).queue@[k] == t2 as usize;
                    assert(self.queue@[k] == t2 as usize);
                } else {
                    assert(self.queue@[self.queue@.len() - 1] == t2 as usize);
                }
            }
        }
        id
    }

    /// Wakes a task by id: enqueues it unless it is already queued or done.
    /// This is the executor half of a wake handle's invocation.
    pub fn spawn_task(&mut self, task_id: usize)
        requires
            old(self).wf(),
        ensures
            wake_spec(*old(self), *final(self), task_id),
            final(self).wf(),
    {
        if task_id < self.tasks.len() {
            let mut t = self.tasks.remove(task_id);
            if !t.queued && !t.done {
                t.queued = true;
                self.tasks.insert(task_id, t);
                self.queue.push_back(task_id);
                proof {
                    assert(self.tasks@ =~= old(self).tasks@.update(
                        task_id as int,
                        Task { queued: true, ..old(self).tasks@[task_id as int] },
                    ));
                    assert forall|i: int|
                        0 <= i < old(self).queue@.len() implies old(self).queue@[i]
                        != task_id by {
                        if old(self).queue@[i] == task_id {
                            assert(old(self).tasks@[task_id as int].queued);
                        }
                    }
                    assert forall|t2: int|
                        0 <= t2 < self.tasks@.len() && (#[trigger] self.tasks@[t2]).queued implies self.queue@.contains(
                        t2 as usize,
                    ) by {
                        if t2 == task_id as int {
                            assert(self.queue@[self.queue@.len() - 1] == t2 as usize);
                        } else {
                            assert(old(self).tasks@[t2].queued);
                            let k = choose|k: int|
                                0 <= k < old(self).queue@.len() && old(self).queue@[k]
                                    == t2 as usize;
                            assert(self.queue@[k] == t2 as usize);
                        }
                    }
                }
            } else {
                self.tasks.insert(task_id, t);
                proof {
                    assert(self.tasks@ =~= old(self).tasks@);
                }
            }
        }
    }

    /// Runs the scheduler until the run queue drains: pops runnable task ids
    /// in FIFO order and polls each task once per queue entry, so a task is
    /// polled exactly once per time it was made runnable. Between passes the
    /// embedding program blocks on the kernel and feeds the events to the
    /// reactor's wait, whose wake-ups re-enqueue tasks for the next pass.
    pub fn run(&mut self, reactor: &mut Reactor)
        requires
            runtime_inv(*old(self), old(reactor)@),
            old(reactor)@.next_event_id + old(self).queue@.len() <= u64::MAX,
        ensures
            final(self).queue@.len() == 0,
            final(self).tasks@.len() == old(self).tasks@.len(),
            runtime_inv(*final(self), final(reactor)@),
            final(reactor).wf(),
            final(reactor)@.next_event_id >= old(reactor)@.next_event_id,
            final(reactor)@.next_event_id <= old(reactor)@.next_event_id + old(
                self,
            ).queue@.len(),
            final(reactor)@.submissions.len() >= old(reactor)@.submissions.len(),
            final(reactor)@.submissions.subrange(0, old(reactor)@.submissions.len() as int) == old(
                reactor,
            )@.submissions,
            final(reactor)@.registrations.len() >= old(reactor)@.registrations.len(),
            final(reactor)@.registrations.subrange(
                0,
                old(reactor)@.registrations.len() as int,
            ) == old(reactor)@.registrations,
            forall|id: u64| #[trigger]
                final(reactor)@.completed.contains_key(id) ==> old(
                    reactor,
                )@.completed.contains_key(id) && final(reactor)@.completed[id] == old(
                    reactor,
                )@.completed[id],
            forall|t: int|
                0 <= t < old(self).tasks@.len() && !(#[trigger] old(self).tasks@[t]).queued
                    ==> final(self).tasks@[t] == old(self).tasks@[t],
            forall|t: int|
                0 <= t < old(self).tasks@.len() && (#[trigger] old(self).tasks@[t]).queued ==> {
                    &&& !final(self).tasks@[t].queued
                    &&& final(self).tasks@[t].polls == (if old(self).tasks@[t].polls < u64::MAX {
                        (old(self).tasks@[t].polls + 1) as u64
                    } else {
                        old(self).tasks@[t].polls
                    })
                    &&& run_task_progress(
                        old(self).tasks@[t],
                        final(self).tasks@[t],
                        old(reactor)@,
                        final(reactor)@,
                    )
                },
    {
        let ghost ex0 = *self;
        let ghost m0 = reactor@;
        let ghost q = ex0.queue@;
        let ghost mut i: int = 0;
        let n0 = self.tasks.len();
        proof {
            assert(q.skip(0) =~= q);
            assert(ex0.tasks@.len() == n0);
        }
        while self.queue.len() > 0
            invariant
                runtime_inv(*self, reactor@),
                0 <= i <= q.len(),
                self.queue@ == q.skip(i),
                self.tasks@.len() == ex0.tasks@.len(),
                ex0.tasks@.len() <= usize::MAX,
                reactor@.next_event_id >= m0.next_event_id,
                reactor@.next_event_id <= m0.next_event_id + i,
                reactor@.next_event_id + (q.len() - i) <= u64::MAX,
                reactor@.submissions.len() >= m0.submissions.len(),
                reactor@.submissions.subrange(0, m0.submissions.len() as int) == m0.submissions,
                reactor@.registrations.len() >= m0.registrations.len(),
                reactor@.registrations.subrange(0, m0.registrations.len() as int)
                    == m0.registrations,
                forall|id: u64| #[trigger]
                    reactor@.completed.contains_key(id) ==> m0.completed.contains_key(id)
                        && reactor@.completed[id] == m0.completed[id],
                forall|t: int|
                    0 <= t < ex0.tasks@.len() && !(#[trigger] ex0.tasks@[t]).queued
                        ==> self.tasks@[t] == ex0.tasks@[t],
                forall|k: int|
                    i <= k < q.len() ==> self.tasks@[(#[trigger] q[k]) as int] == ex0.tasks@[q[k] as int],
                forall|k: int|
                    0 <= k < q.len() ==> ((#[trigger] q[k]) as int) < ex0.tasks@.len(),
                forall|k1: int, k2: int| 0 <= k1 < k2 < q.len() ==> q[k1] != q[k2],
                forall|k: int|
                    i <= k < q.len() ==> match ex0.tasks@[(#[trigger] q[k]) as int].future.pending_id() {
                        Some(e) => reactor@.completed.contains_key(e)
                            <==> m0.completed.contains_key(e),
                        None => true,
                    },
                forall|k: int|
                    0 <= k < i ==> {
                        let t = (#[trigger] q[k]) as int;
                        &&& !self.tasks@[t].queued
                        &&& self.tasks@[t].polls == (if ex0.tasks@[t].polls < u64::MAX {
                            (ex0.tasks@[t].polls + 1) as u64
                        } else {
                            ex0.tasks@[t].polls
                        })
                        &&& run_task_progress(ex0.tasks@[t], self.tasks@[t], m0, reactor@)
                    },
            decreases q.len() - i,
        {
            let ghost m_pre = reactor@;
            let ghost ex_pre = *self;
            let id = match self.queue.pop_front() {
                Some(x) => x,
                None => {
                    proof {
                        assert(false);
                    }
                    0
                },
            };
            proof {
                assert(q.skip(i)[0] == q[i]);
                assert(q.skip(i).subrange(1, q.skip(i).len() as int) =~= q.skip(i + 1));
            }
            let ghost t0 = self.tasks@[id as int];
            let mut t = self.tasks.remove(id);
            t.queued = false;
            let ghost t1 = t;
            let done = t.poll(reactor, id);
            let ghost t2 = t;
            self.tasks.insert(id, t);
            proof {
                assert(self.tasks@ =~= ex_pre.tasks@.update(id as int, t2));
                let ret = choose|ret: Poll|
                    {
                        &&& #[trigger] future_poll_spec(
                            t1.future,
                            t2.future,
                            m_pre,
                            reactor@,
                            WakeHandle::Task(id),
                            ret,
                        )
                        &&& done == (ret is Ready)
                        &&& t2.done == (t1.done || ret is Ready)
                    };
                lemma_poll_completed_effect(
                    t1.future,
                    t2.future,
                    m_pre,
                    reactor@,
                    WakeHandle::Task(id),
                    ret,
                );
                // the polled task was still untouched, so its pre-state is its
                // state at the start of the pass
                assert(t0 == ex0.tasks@[id as int]);
                // the kernel-work logs keep their recorded prefixes
                lemma_prefix_trans(m0.submissions, m_pre.submissions, reactor@.submissions);
                lemma_prefix_trans(
                    m0.registrations,
                    m_pre.registrations,
                    reactor@.registrations,
                );
                // ids later in the queue differ from the one just polled
                assert forall|k: int| i + 1 <= k < q.len() implies q[k] != q[i] by {}
                // the run queue's flags and distinctness survive the pop
                assert forall|t3: int|
                    0 <= t3 < self.tasks@.len() && (#[trigger] self.tasks@[t3]).queued implies self.queue@.contains(
                    t3 as usize,
                ) by {
                    assert(t3 != id as int);
                    assert(ex_pre.tasks@[t3].queued);
                    assert(ex_pre.wf());
                    assert(ex_pre.queue@.contains(t3 as usize));
                    let k = choose|k: int|
                        0 <= k < ex_pre.queue@.len() && ex_pre.queue@[k] == t3 as usize;
                    assert(ex_pre.queue@[k] == q.skip(i)[k]);
                    assert(ex_pre.queue@[0] == q[i] && q[i] == id);
                    assert(k != 0);
                    assert(self.queue@[k - 1] == t3 as usize);
                }
                // every task still holds only allocated ids, and distinct
                // pending tasks still hold distinct ids
                assert forall|t3: int|
                    0 <= t3 < self.tasks@.len() implies (#[trigger] self.tasks@[t3]).future.wf(
                    reactor@,
                ) by {
                    if t3 != id as int {
                        assert(ex_pre.tasks@[t3].future.wf(m_pre));
                    }
                }
                assert forall|t3: int|
                    0 <= t3 < self.tasks@.len() && t3 != id as int && self.tasks@[t3].future.pending_id() is Some
                        && t2.future.pending_id() is Some implies self.tasks@[t3].future.pending_id()
                    != t2.future.pending_id() by {
                    let e3 = ex_pre.tasks@[t3].future.pending_id();
                    let e2 = t2.future.pending_id();
                    if e2 == t1.future.pending_id() {
                        assert(ex_pre.tasks@[id as int].future.pending_id() == e2);
                    } else {
                        assert(ex_pre.tasks@[t3].future.wf(m_pre));
                    }
                }
                // pending completion records of tasks not yet polled survive
                assert forall|k: int|
                    i + 1 <= k < q.len() implies match ex0.tasks@[(#[trigger] q[k]) as int].future.pending_id() {
                    Some(e) => reactor@.completed.contains_key(e) <==> m0.completed.contains_key(
                        e,
                    ),
                    None => true,
                } by {
                    match ex0.tasks@[q[k] as int].future.pending_id() {
                        Some(e) => {
                            assert(ex_pre.tasks@[q[k] as int] == ex0.tasks@[q[k] as int]);
                            if Some(e) == t1.future.pending_id() {
                                assert(ex_pre.tasks@[q[k] as int].future.pending_id() == Some(e));
                                assert(t1.future.pending_id()
                                    == ex_pre.tasks@[id as int].future.pending_id());
                                assert(false);
                            }
                            if m_pre.completed.contains_key(e) {
                                assert(reactor@.completed.contains_key(e));
                            }
                        },
                        None => {},
                    }
                }
                // progress already established for earlier tasks is monotone
                // under the later reactor steps
                assert forall|k: int|
                    0 <= k < i implies run_task_progress(
                    ex0.tasks@[(#[trigger] q[k]) as int],
                    self.tasks@[q[k] as int],
                    m0,
                    reactor@,
                ) by {
                    let t3 = q[k] as int;
                    assert(q[k] != q[i]);
                    assert(q[i] == id);
                    assert(0 <= t3 < self.tasks@.len());
                    assert(self.tasks@[t3] == ex_pre.tasks@[t3]);
                    assert(run_task_progress(ex0.tasks@[t3], ex_pre.tasks@[t3], m0, m_pre));
                }
                // progress for the task polled this iteration
                assert(run_task_progress(t0, t2, m0, reactor@)) by {
                    match t0.future {
                        TaskFuture::Op(f) => {
                            match f.state {
                                OpState::AwaitingCompletion(e) => {
                                    assert(m_pre.completed.contains_key(e)
                                        <==> m0.completed.contains_key(e));
                                    if m_pre.completed.contains_key(e) {
                                        assert(m_pre.completed[e] == m0.completed[e]);
                                    }
                                },
                                _ => {},
                            }
                        },
                        TaskFuture::Listener(l) => {
                            match t2.future {
                                TaskFuture::Listener(l2) => {
                                    lemma_listener_poll_keeps_log(
                                        l,
                                        l2,
                                        m_pre,
                                        reactor@,
                                        WakeHandle::Task(id),
                                        ret,
                                    );
                                },
                                TaskFuture::Op(g) => {
                                    assert(false);
                                },
                            }
                        },
                    }
                }
                i = i + 1;
            }
        }
        proof {
            assert(q.skip(i).len() == 0);
            assert(i == q.len());
            assert forall|t: int|
                0 <= t < ex0.tasks@.len() && (#[trigger] ex0.tasks@[t]).queued implies {
                &&& !self.tasks@[t].queued
                &&& self.tasks@[t].polls == (if ex0.tasks@[t].polls < u64::MAX {
                    (ex0.tasks@[t].polls + 1) as u64
                } else {
                    ex0.tasks@[t].polls
                })
                &&& run_task_progress(ex0.tasks@[t], self.tasks@[t], m0, reactor@)
            } by {
                assert(ex0 == *old(self));
                assert(ex0.wf());
                assert(ex0.queue@.contains(t as usize));
                let k = choose|k: int| 0 <= k < q.len() && q[k] == t as usize;
                assert(0 <= k < i && q[k] as int == t);
            }
        }
    }
}

} // verus!
