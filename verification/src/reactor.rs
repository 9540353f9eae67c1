//! The reactor: the single authority that records operations bound for the
//! kernel's completion-based interface, readiness registrations for the
//! kernel multiplexer, and the correlation state that turns kernel events
//! back into task wake-ups and retrievable results.
//!
//! The kernel itself is outside this crate. The reactor records submissions
//! and readiness registrations in logs that the embedding program drains and
//! performs; the embedding program hands completion and readiness events back
//! through [`Reactor::wait`].

use std::collections::HashMap;
use vstd::prelude::*;

verus! {

broadcast use vstd::std_specs::hash::group_hash_axioms;

/// The kind of kernel operation submitted through the completion-based
/// interface.
#[derive(Clone, Copy, PartialEq, Eq, Structural, Debug)]
pub enum IoOp {
    Read,
    Write,
    Accept,
}

/// A failed kernel operation, carrying the raw negative result code that the
/// completion reported.
#[derive(Clone, Copy, PartialEq, Eq, Structural, Debug)]
pub struct OsError {
    pub code: i32,
}

/// A wake handle: either the arena id of a task in the executor, or a handle
/// that does nothing when invoked.
#[derive(Clone, Copy, PartialEq, Eq, Structural, Debug)]
pub enum WakeHandle {
    Task(usize),
    Noop,
}

/// One request bound for the kernel's completion-based interface. The
/// embedding program drains these with [`Reactor::take_submissions`] and
/// performs them, tagged with `user_data` as the correlation token.
pub struct SqEntry {
    pub fd: i32,
    pub op: IoOp,
    pub len: usize,
    pub data: Vec<u8>,
    pub user_data: u64,
}

/// One completion the kernel reported: the correlation id the operation was
/// submitted under, the raw signed result, and, for reads, the bytes the
/// kernel produced.
pub struct CqEvent {
    pub user_data: u64,
    pub result: i32,
    pub data: Vec<u8>,
}

/// One readiness notification: a descriptor reported ready, together with the
/// tag its registration carries.
#[derive(Clone, Copy, PartialEq, Eq, Structural, Debug)]
pub struct ReadyEvent {
    pub fd: i32,
    pub tag: u64,
}

/// A readiness registration the embedding program must apply to the kernel
/// multiplexer with read interest.
#[derive(Clone, Copy, PartialEq, Eq, Structural, Debug)]
pub struct EpollRegistration {
    pub fd: i32,
    pub event_id: u64,
}

/// The recorded outcome of one completed operation, held until the owning
/// future consumes it.
pub struct CompletionEntry {
    pub result: Result<usize, OsError>,
    pub data: Vec<u8>,
}

/// Mathematical image of an [`SqEntry`].
pub struct SubmissionModel {
    pub fd: i32,
    pub op: IoOp,
    pub len: nat,
    pub data: Seq<u8>,
    pub user_data: u64,
}

/// Mathematical image of a [`CqEvent`].
pub struct CqModel {
    pub user_data: u64,
    pub result: i32,
    pub data: Seq<u8>,
}

/// Mathematical image of a [`CompletionEntry`].
#[verifier::ext_equal]
pub struct CompletionModel {
    pub result: Result<usize, OsError>,
    pub data: Seq<u8>,
}

/// Mathematical image of the whole [`Reactor`] state.
#[verifier::ext_equal]
pub struct ReactorModel {
    pub next_event_id: u64,
    pub waiters: Map<u64, WakeHandle>,
    pub completed: Map<u64, CompletionModel>,
    pub client: Map<i32, u64>,
    pub ready: Seq<ReadyEvent>,
    pub submissions: Seq<SubmissionModel>,
    pub registrations: Seq<EpollRegistration>,
}

impl View for SqEntry {
    type V = SubmissionModel;

    open spec fn view(&self) -> SubmissionModel {
        SubmissionModel {
            fd: self.fd,
            op: self.op,
            len: self.len as nat,
            data: self.data@,
            user_data: self.user_data,
        }
    }
}

impl View for CqEvent {
    type V = CqModel;

    open spec fn view(&self) -> CqModel {
        CqModel { user_data: self.user_data, result: self.result, data: self.data@ }
    }
}

impl View for CompletionEntry {
    type V = CompletionModel;

    open spec fn view(&self) -> CompletionModel {
        CompletionModel { result: self.result, data: self.data@ }
    }
}

/// How a raw signed kernel result is recorded: a negative value is an
/// operating-system error carrying that code, a non-negative value is a byte
/// count (or, for an accept, the new descriptor number).
pub open spec fn decode_result(raw: i32) -> Result<usize, OsError> {
    if raw < 0 {
        Err(OsError { code: raw })
    } else {
        Ok(raw as usize)
    }
}

/// The sequence of submission images of a submission log.
pub open spec fn subs_view(v: Seq<SqEntry>) -> Seq<SubmissionModel> {
    Seq::new(v.len(), |i: int| v[i]@)
}

/// The sequence of completion-event images of an event batch.
pub open spec fn cq_views(v: Seq<CqEvent>) -> Seq<CqModel> {
    Seq::new(v.len(), |i: int| v[i]@)
}

/// The map of completion images of the completed-results table.
pub open spec fn completed_view(m: Map<u64, CompletionEntry>) -> Map<u64, CompletionModel> {
    m.map_values(|e: CompletionEntry| e@)
}

impl ReactorModel {
    /// Every correlation id the reactor has handed out is below the next one,
    /// and every recorded success fits a raw signed kernel result.
    pub open spec fn wf(self) -> bool {
        &&& 1 <= self.next_event_id
        &&& forall|id: u64| #[trigger] self.waiters.contains_key(id) ==> id < self.next_event_id
        &&& forall|id: u64| #[trigger] self.completed.contains_key(id) ==> id < self.next_event_id
        &&& forall|id: u64| #[trigger] self.completed.contains_key(id) ==> (self.completed[id].result
            matches Ok(n) ==> n <= i32::MAX as usize)
        &&& forall|fd: i32| #[trigger] self.client.contains_key(fd) ==> self.client[fd]
            < self.next_event_id
        &&& forall|i: int|
            0 <= i < self.submissions.len() ==> (#[trigger] self.submissions[i]).user_data
                < self.next_event_id
        &&& forall|i: int|
            0 <= i < self.registrations.len() ==> (#[trigger] self.registrations[i]).event_id
                < self.next_event_id
    }
}

/// What registering an operation does: allocate the next correlation id,
/// store the waker under it, and append the kernel request to the submission
/// log. Nothing else changes.
pub open spec fn register_model(
    pre: ReactorModel,
    fd: i32,
    op: IoOp,
    data: Seq<u8>,
    waker: WakeHandle,
) -> (ReactorModel, u64) {
    let id = pre.next_event_id;
    let post = ReactorModel {
        next_event_id: (pre.next_event_id + 1) as u64,
        waiters: pre.waiters.insert(id, waker),
        submissions: pre.submissions.push(
            SubmissionModel { fd, op, len: data.len(), data, user_data: id },
        ),
        ..pre
    };
    (post, id)
}

/// What consuming a completed result does: remove and return the entry if one
/// is recorded, otherwise change nothing and return nothing.
pub open spec fn take_model(pre: ReactorModel, event_id: u64) -> (
    ReactorModel,
    Option<CompletionModel>,
) {
    if pre.completed.contains_key(event_id) {
        (
            ReactorModel { completed: pre.completed.remove(event_id), ..pre },
            Some(pre.completed[event_id]),
        )
    } else {
        (pre, None)
    }
}

/// What overwriting the stored waker for an id does.
pub open spec fn set_waiter_model(pre: ReactorModel, event_id: u64, waker: WakeHandle) -> ReactorModel {
    ReactorModel { waiters: pre.waiters.insert(event_id, waker), ..pre }
}

/// What registering a descriptor for readiness does: allocate the next
/// correlation id, record descriptor -> id, and append the registration for
/// the embedding program to apply.
pub open spec fn register_tcp_model(pre: ReactorModel, fd: i32) -> (ReactorModel, u64) {
    let id = pre.next_event_id;
    let post = ReactorModel {
        next_event_id: (pre.next_event_id + 1) as u64,
        client: pre.client.insert(fd, id),
        registrations: pre.registrations.push(EpollRegistration { fd, event_id: id }),
        ..pre
    };
    (post, id)
}

/// What attaching a descriptor to an existing readiness id does: record
/// descriptor -> id and append the registration, allocating nothing.
pub open spec fn register_epoll_model(pre: ReactorModel, fd: i32, event_id: u64) -> ReactorModel {
    ReactorModel {
        client: pre.client.insert(fd, event_id),
        registrations: pre.registrations.push(EpollRegistration { fd, event_id }),
        ..pre
    }
}

/// What clearing the readiness buffer does.
pub open spec fn clear_ready_model(pre: ReactorModel) -> ReactorModel {
    ReactorModel { ready: Seq::empty(), ..pre }
}

/// What recording one kernel completion does: decode and store the outcome
/// under its correlation id, and remove and return the stored waiter if one
/// exists. When no waiter is stored the result is retained all the same, for
/// later collection.
pub open spec fn complete_model(pre: ReactorModel, ev: CqModel) -> (ReactorModel, Option<
    WakeHandle,
>) {
    let entry = CompletionModel { result: decode_result(ev.result), data: ev.data };
    let stored = ReactorModel { completed: pre.completed.insert(ev.user_data, entry), ..pre };
    if pre.waiters.contains_key(ev.user_data) {
        (
            ReactorModel { waiters: stored.waiters.remove(ev.user_data), ..stored },
            Some(pre.waiters[ev.user_data]),
        )
    } else {
        (stored, None)
    }
}

/// The task ids a wake handle contributes to a wake list: one for a task
/// handle, none for the do-nothing handle or for a missing waiter.
pub open spec fn wake_ids(w: Option<WakeHandle>) -> Seq<usize> {
    match w {
        Some(WakeHandle::Task(t)) => seq![t],
        _ => Seq::empty(),
    }
}

/// What draining a batch of completions does, front to back.
pub open spec fn drain_completions_model(pre: ReactorModel, evs: Seq<CqModel>) -> (
    ReactorModel,
    Seq<usize>,
)
    decreases evs.len(),
{
    if evs.len() == 0 {
        (pre, Seq::empty())
    } else {
        let step = complete_model(pre, evs[0]);
        let rest = drain_completions_model(step.0, evs.drop_first());
        (rest.0, wake_ids(step.1) + rest.1)
    }
}

/// The waiter a readiness notification on `fd` wakes: the handle stored under
/// the descriptor's registered id. Readiness waking clones the handle rather
/// than removing it, so the same waiter can be woken on every cycle.
pub open spec fn ready_wake(m: ReactorModel, fd: i32) -> Option<WakeHandle> {
    if m.client.contains_key(fd) && m.waiters.contains_key(m.client[fd]) {
        Some(m.waiters[m.client[fd]])
    } else {
        None
    }
}

/// The task ids a batch of readiness notifications wakes, front to back.
pub open spec fn readiness_wakes_model(m: ReactorModel, evs: Seq<ReadyEvent>) -> Seq<usize>
    decreases evs.len(),
{
    if evs.len() == 0 {
        Seq::empty()
    } else {
        wake_ids(ready_wake(m, evs[0].fd)) + readiness_wakes_model(m, evs.drop_first())
    }
}

/// What one whole wait cycle does: drain the completion batch, overwrite the
/// readiness buffer with this cycle's notifications, and list the tasks to
/// wake in order: completion wakes first, then readiness wakes.
pub open spec fn wait_model(pre: ReactorModel, evs: Seq<CqModel>, ready: Seq<ReadyEvent>) -> (
    ReactorModel,
    Seq<usize>,
) {
    let drained = drain_completions_model(pre, evs);
    let ws2 = readiness_wakes_model(drained.0, ready);
    (ReactorModel { ready: ready, ..drained.0 }, drained.1 + ws2)
}

/// The reactor: owner of the correlation-id allocator, the waiter table, the
/// completed-results table, the descriptor registrations, the readiness
/// buffer, and the logs of kernel work the embedding program performs.
pub struct Reactor {
    /// The next correlation id to hand out; strictly increasing.
    pub next_event_id: u64,
    /// event id -> pending wake handle.
    pub waiters: HashMap<u64, WakeHandle>,
    /// event id -> recorded outcome, awaiting consumption.
    pub completed_events: HashMap<u64, CompletionEntry>,
    /// descriptor -> event id of its readiness registration.
    pub client: HashMap<i32, u64>,
    /// Snapshot of the readiness notifications of the last wait cycle.
    pub epoll_events: Vec<ReadyEvent>,
    /// Kernel requests recorded but not yet drained by the embedding program.
    pub submissions: Vec<SqEntry>,
    /// Readiness registrations not yet drained by the embedding program.
    pub epoll_registrations: Vec<EpollRegistration>,
}

impl View for Reactor {
    type V = ReactorModel;

    open spec fn view(&self) -> ReactorModel {
        ReactorModel {
            next_event_id: self.next_event_id,
            waiters: self.waiters@,
            completed: completed_view(self.completed_events@),
            client: self.client@,
            ready: self.epoll_events@,
            submissions: subs_view(self.submissions@),
            registrations: self.epoll_registrations@,
        }
    }
}

/// Copies a byte buffer.
fn clone_bytes(v: &Vec<u8>) -> (out: Vec<u8>)
    ensures
        out@ == v@,
{
    let mut out: Vec<u8> = Vec::new();
    let mut i: usize = 0;
    while i < v.len()
        invariant
            i <= v.len(),
            out@.len() == i,
            forall|j: int| 0 <= j < i ==> out@[j] == v@[j],
        decreases v.len() - i,
    {
        out.push(v[i]);
        i = i + 1;
    }
    proof {
        assert(out@ =~= v@);
    }
    out
}

impl Reactor {
    /// All internal tables respect the model invariant.
    pub open spec fn wf(self) -> bool {
        self@.wf()
    }

    /// Creates a reactor with no in-flight operations, no registrations, and
    /// the correlation-id allocator starting at one.
    pub fn new() -> (r: Reactor)
        ensures
            r@ == (ReactorModel {
                next_event_id: 1u64,
                waiters: Map::empty(),
                completed: Map::empty(),
                client: Map::empty(),
                ready: Seq::empty(),
                submissions: Seq::empty(),
                registrations: Seq::empty(),
            }),
            r.wf(),
    {
        let r = Reactor {
            next_event_id: 1,
            waiters: HashMap::new(),
            completed_events: HashMap::new(),
            client: HashMap::new(),
            epoll_events: Vec::new(),
            submissions: Vec::new(),
            epoll_registrations: Vec::new(),
        };
        proof {
            assert(completed_view(r.completed_events@) =~= Map::<u64, CompletionModel>::empty());
            assert(subs_view(r.submissions@) =~= Seq::<SubmissionModel>::empty());
        }
        r
    }

    /// Registers one I/O request: allocates a fresh correlation id, records
    /// the kernel request under it in the submission log, and stores `waker`
    /// so the completion can wake the issuing task. The whole registration is
    /// one step: the waiter stands before the embedding program can even
    /// drain the submission, so no completion can arrive ahead of its waiter.
    pub fn register(&mut self, fd: i32, op: IoOp, buffer: &Vec<u8>, waker: WakeHandle) -> (event_id:
        u64)
        requires
            old(self).wf(),
            old(self).next_event_id < u64::MAX,
        ensures
            final(self)@ == register_model(old(self)@, fd, op, buffer@, waker).0,
            event_id == register_model(old(self)@, fd, op, buffer@, waker).1,
            final(self).wf(),
    {
        let event_id = self.next_event_id;
        self.next_event_id = self.next_event_id + 1;
        let len = buffer.len();
        let data = clone_bytes(buffer);
        self.submissions.push(SqEntry { fd, op, len, data, user_data: event_id });
        self.waiters.insert(event_id, waker);
        proof {
            let m = register_model(old(self)@, fd, op, buffer@, waker).0;
            assert(subs_view(self.submissions@) =~= m.submissions);
            assert(self@ =~= m);
        }
        event_id
    }

    /// Performs one wait cycle over the events the kernel delivered: records
    /// every completion in the completed-results table (waking and removing
    /// its waiter, if one is stored), then overwrites the readiness buffer
    /// with this cycle's notifications and wakes the waiter registered for
    /// each ready descriptor (cloning it, so the same waiter is woken again
    /// on later cycles). Returns the ids of the tasks to make runnable, in
    /// order: completion wakes first, then readiness wakes.
    pub fn wait(&mut self, completions: &Vec<CqEvent>, ready: &Vec<ReadyEvent>) -> (wakes: Vec<
        usize,
    >)
        requires
            old(self).wf(),
            forall|j: int|
                0 <= j < completions@.len() ==> (#[trigger] completions@[j]).user_data < old(
                    self,
                ).next_event_id,
            forall|j: int|
                0 <= j < ready@.len() ==> old(self)@.client.contains_key(
                    (#[trigger] ready@[j]).fd,
                ),
        ensures
            final(self)@ == wait_model(old(self)@, cq_views(completions@), ready@).0,
            wakes@ == wait_model(old(self)@, cq_views(completions@), ready@).1,
            final(self)@.next_event_id == old(self)@.next_event_id,
            final(self)@.client == old(self)@.client,
            final(self)@.submissions == old(self)@.submissions,
            final(self)@.registrations == old(self)@.registrations,
            final(self).wf(),
    {
        let ghost m0 = self@;
        let ghost evs = cq_views(completions@);
        let mut wakes: Vec<usize> = Vec::new();
        let mut i: usize = 0;
        proof {
            assert(evs.skip(0) =~= evs);
            assert(Seq::<usize>::empty() + drain_completions_model(self@, evs).1
                =~= drain_completions_model(self@, evs).1);
        }
        while i < completions.len()
            invariant
                self.wf(),
                i <= completions@.len(),
                evs == cq_views(completions@),
                evs.len() == completions@.len(),
                self@.next_event_id == m0.next_event_id,
                self@.client == m0.client,
                self@.ready == m0.ready,
                self@.submissions == m0.submissions,
                self@.registrations == m0.registrations,
                forall|j: int|
                    0 <= j < completions@.len() ==> (#[trigger] completions@[j]).user_data
                        < m0.next_event_id,
                drain_completions_model(m0, evs).0 == drain_completions_model(
                    self@,
                    evs.skip(i as int),
                ).0,
                drain_completions_model(m0, evs).1 == wakes@ + drain_completions_model(
                    self@,
                    evs.skip(i as int),
                ).1,
            decreases completions@.len() - i,
        {
            let ghost m_cur = self@;
            let ghost wakes_pre = wakes@;
            let ev = &completions[i];
            let result: Result<usize, OsError> = if ev.result < 0 {
                Err(OsError { code: ev.result })
            } else {
                Ok(ev.result as usize)
            };
            let entry = CompletionEntry { result, data: clone_bytes(&ev.data) };
            self.completed_events.insert(ev.user_data, entry);
            let w = self.waiters.remove(&ev.user_data);
            match w {
                Some(WakeHandle::Task(t)) => wakes.push(t),
                _ => {},
            }
            proof {
                let step = complete_model(m_cur, evs[i as int]);
                assert(self@.completed =~= step.0.completed);
                if !m_cur.waiters.contains_key(ev.user_data) {
                    assert(self@.waiters =~= step.0.waiters);
                }
                assert(self@ =~= step.0);
                assert(wakes@ =~= wakes_pre + wake_ids(step.1));
                assert(evs.skip(i as int)[0] == evs[i as int]);
                assert(evs.skip(i as int).drop_first() =~= evs.skip(i as int + 1));
                assert(drain_completions_model(m0, evs).1 == wakes@ + drain_completions_model(
                    self@,
                    evs.skip(i as int + 1),
                ).1) by {
                    assert(wakes_pre + (wake_ids(step.1) + drain_completions_model(
                        self@,
                        evs.skip(i as int + 1),
                    ).1) =~= wakes@ + drain_completions_model(self@, evs.skip(i as int + 1)).1);
                }
            }
            i = i + 1;
        }
        proof {
            assert(evs.skip(completions@.len() as int) =~= Seq::<CqModel>::empty());
            assert(drain_completions_model(m0, evs).0 == self@);
            assert(drain_completions_model(m0, evs).1 =~= wakes@);
        }
        let ghost m1 = self@;
        let ghost base = wakes@;
        let mut k: usize = 0;
        proof {
            assert(ready@.skip(0) =~= ready@);
        }
        while k < ready.len()
            invariant
                self.wf(),
                k <= ready@.len(),
                self@ == m1,
                forall|j: int| 0 <= j < ready@.len() ==> m1.client.contains_key((#[trigger] ready@[j]).fd),
                base + readiness_wakes_model(m1, ready@) == wakes@ + readiness_wakes_model(
                    m1,
                    ready@.skip(k as int),
                ),
            decreases ready@.len() - k,
        {
            let ghost wakes_pre = wakes@;
            let fd = ready[k].fd;
            match self.client.get(&fd) {
                Some(id) => {
                    let id = *id;
                    match self.waiters.get(&id) {
                        Some(w) => {
                            match *w {
                                WakeHandle::Task(t) => wakes.push(t),
                                WakeHandle::Noop => {},
                            }
                        },
                        None => {},
                    }
                },
                None => {
                    proof {
                        assert(false);
                    }
                },
            }
            proof {
                let w = ready_wake(m1, ready@[k as int].fd);
                assert(wakes@ =~= wakes_pre + wake_ids(w));
                assert(ready@.skip(k as int)[0] == ready@[k as int]);
                assert(ready@.skip(k as int).drop_first() =~= ready@.skip(k as int + 1));
                assert(base + readiness_wakes_model(m1, ready@) == wakes@ + readiness_wakes_model(
                    m1,
                    ready@.skip(k as int + 1),
                )) by {
                    assert(wakes_pre + (wake_ids(w) + readiness_wakes_model(
                        m1,
                        ready@.skip(k as int + 1),
                    )) =~= wakes@ + readiness_wakes_model(m1, ready@.skip(k as int + 1)));
                }
            }
            k = k + 1;
        }
        proof {
            assert(ready@.skip(ready@.len() as int) =~= Seq::<ReadyEvent>::empty());
            assert(readiness_wakes_model(m1, ready@) + Seq::<usize>::empty() =~= readiness_wakes_model(m1, ready@));
            assert(base + readiness_wakes_model(m1, ready@) =~= wakes@);
        }
        self.epoll_events.clear();
        let mut k2: usize = 0;
        while k2 < ready.len()
            invariant
                k2 <= ready@.len(),
                self@.waiters == m1.waiters,
                self@.completed == m1.completed,
                self@.client == m1.client,
                self@.next_event_id == m1.next_event_id,
                self@.submissions == m1.submissions,
                self@.registrations == m1.registrations,
                self@.ready.len() == k2,
                forall|j: int| 0 <= j < k2 ==> self@.ready[j] == ready@[j],
            decreases ready@.len() - k2,
        {
            self.epoll_events.push(ready[k2]);
            k2 = k2 + 1;
        }
        proof {
            assert(self@.ready =~= ready@);
            assert(self@ =~= wait_model(m0, evs, ready@).0);
            assert(wakes@ =~= wait_model(m0, evs, ready@).1);
        }
        wakes
    }

    /// Removes and returns the recorded outcome for `event_id`, if the
    /// operation has completed; returns nothing while it is still pending.
    /// Consumption is destructive: a second call for the same id returns
    /// nothing.
    pub fn is_event_completed(&mut self, event_id: u64) -> (r: Option<CompletionEntry>)
        requires
            old(self).wf(),
        ensures
            final(self)@ == take_model(old(self)@, event_id).0,
            match r {
                Some(e) => take_model(old(self)@, event_id).1 == Some(e@),
                None => take_model(old(self)@, event_id).1 is None,
            },
            final(self).wf(),
    {
        let r = self.completed_events.remove(&event_id);
        proof {
            assert(self@.completed =~= take_model(old(self)@, event_id).0.completed);
            assert(self@ =~= take_model(old(self)@, event_id).0);
        }
        r
    }

    /// Registers a listening descriptor with the readiness mechanism under a
    /// fresh correlation id and returns that id.
    pub fn register_tcp(&mut self, fd: i32) -> (event_id: u64)
        requires
            old(self).wf(),
            old(self).next_event_id < u64::MAX,
        ensures
            final(self)@ == register_tcp_model(old(self)@, fd).0,
            event_id == register_tcp_model(old(self)@, fd).1,
            final(self).wf(),
    {
        let event_id = self.next_event_id;
        self.next_event_id = self.next_event_id + 1;
        self.client.insert(fd, event_id);
        self.epoll_registrations.push(EpollRegistration { fd, event_id });
        proof {
            assert(self@ =~= register_tcp_model(old(self)@, fd).0);
        }
        event_id
    }

    /// Associates an additional descriptor with an existing readiness id, so
    /// that readiness on the new descriptor wakes the waiter stored under
    /// that id.
    pub fn register_epoll(&mut self, fd: i32, event_id: u64) -> (r: u64)
        requires
            old(self).wf(),
            event_id < old(self).next_event_id,
        ensures
            final(self)@ == register_epoll_model(old(self)@, fd, event_id),
            r == event_id,
            final(self).wf(),
    {
        self.client.insert(fd, event_id);
        self.epoll_registrations.push(EpollRegistration { fd, event_id });
        proof {
            assert(self@ =~= register_epoll_model(old(self)@, fd, event_id));
        }
        event_id
    }

    /// Overwrites the wake handle stored for `event_id`; used to keep a
    /// readiness waiter current across repeated polls.
    pub fn modify_waker(&mut self, event_id: u64, waker: WakeHandle)
        requires
            old(self).wf(),
            event_id < old(self).next_event_id,
        ensures
            final(self)@ == set_waiter_model(old(self)@, event_id, waker),
            final(self).wf(),
    {
        self.waiters.insert(event_id, waker);
        proof {
            assert(self@ =~= set_waiter_model(old(self)@, event_id, waker));
        }
    }

    /// The number of readiness notifications in the current buffer.
    pub fn is_event_completed_epoll(&self) -> (n: usize)
        ensures
            n == self@.ready.len(),
    {
        self.epoll_events.len()
    }

    /// A copy of the current readiness buffer.
    pub fn get_epoll_events(&self) -> (evs: Vec<ReadyEvent>)
        ensures
            evs@ == self@.ready,
    {
        let mut out: Vec<ReadyEvent> = Vec::new();
        let mut i: usize = 0;
        while i < self.epoll_events.len()
            invariant
                i <= self.epoll_events.len(),
                out@.len() == i,
                forall|j: int| 0 <= j < i ==> out@[j] == self.epoll_events@[j],
            decreases self.epoll_events.len() - i,
        {
            out.push(self.epoll_events[i]);
            i = i + 1;
        }
        proof {
            assert(out@ =~= self@.ready);
        }
        out
    }

    /// Empties the readiness buffer.
    pub fn clear_epoll_events(&mut self)
        requires
            old(self).wf(),
        ensures
            final(self)@ == clear_ready_model(old(self)@),
            final(self).wf(),
    {
        self.epoll_events.clear();
        proof {
            assert(self@ =~= clear_ready_model(old(self)@));
        }
    }

    /// Hands the recorded kernel requests to the embedding program and empties
    /// the log.
    pub fn take_submissions(&mut self) -> (out: Vec<SqEntry>)
        requires
            old(self).wf(),
        ensures
            subs_view(out@) == old(self)@.submissions,
            final(self)@ == (ReactorModel { submissions: Seq::empty(), ..old(self)@ }),
            final(self).wf(),
    {
        let mut out: Vec<SqEntry> = Vec::new();
        core::mem::swap(&mut out, &mut self.submissions);
        proof {
            assert(self@ =~= (ReactorModel { submissions: Seq::empty(), ..old(self)@ }));
        }
        out
    }

    /// Hands the recorded readiness registrations to the embedding program
    /// and empties the log.
    pub fn take_registrations(&mut self) -> (out: Vec<EpollRegistration>)
        requires
            old(self).wf(),
        ensures
            out@ == old(self)@.registrations,
            final(self)@ == (ReactorModel { registrations: Seq::empty(), ..old(self)@ }),
            final(self).wf(),
    {
        let mut out: Vec<EpollRegistration> = Vec::new();
        core::mem::swap(&mut out, &mut self.epoll_registrations);
        proof {
            assert(self@ =~= (ReactorModel { registrations: Seq::empty(), ..old(self)@ }));
        }
        out
    }
}

} // verus!
