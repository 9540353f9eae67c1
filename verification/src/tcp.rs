//! The connection-multiplexing listener. It registers a listening descriptor
//! as a readiness group, and on each readiness cycle either accepts a new
//! connection (when the ready descriptor is the listening one) and attaches
//! the accepted descriptor to the same readiness group, or records the ready
//! descriptor for the embedding program's per-connection handler.
//!
//! The whole group shares the listener's correlation id: readiness on any
//! attached connection wakes the listener's waiter and is told apart only by
//! the descriptor value in the readiness buffer.

use vstd::prelude::*;

use crate::ops::{op_poll_spec, OpFuture, OpState, Poll};
use crate::reactor::{
    clear_ready_model, register_epoll_model, register_model, register_tcp_model, set_waiter_model,
    take_model, IoOp, Reactor, ReactorModel, ReadyEvent, WakeHandle,
};

verus! {

/// The descriptors a readiness batch hands to the per-connection handler: the
/// ready descriptors other than the listening one, in order.
pub open spec fn dispatch_fds(evs: Seq<ReadyEvent>, listen_fd: i32) -> Seq<i32>
    decreases evs.len(),
{
    if evs.len() == 0 {
        Seq::empty()
    } else if evs[0].fd == listen_fd {
        dispatch_fds(evs.drop_first(), listen_fd)
    } else {
        seq![evs[0].fd] + dispatch_fds(evs.drop_first(), listen_fd)
    }
}

/// How many entries of a readiness batch report the listening descriptor
/// itself, i.e. how many accepts the listener owes for the batch.
pub open spec fn accept_count(evs: Seq<ReadyEvent>, listen_fd: i32) -> nat
    decreases evs.len(),
{
    if evs.len() == 0 {
        0
    } else {
        (if evs[0].fd == listen_fd {
            1nat
        } else {
            0nat
        }) + accept_count(evs.drop_first(), listen_fd)
    }
}

/// A listening descriptor together with the correlation id of its readiness
/// group.
pub struct AsyncTcpListener {
    pub fd: i32,
    pub event_id: u64,
}

impl AsyncTcpListener {
    /// The listener's group id was allocated by the reactor.
    pub open spec fn wf(self, m: ReactorModel) -> bool {
        self.event_id < m.next_event_id
    }

    /// Registers `fd` with the readiness mechanism and keeps the returned
    /// correlation id as the listener's group id.
    pub fn new(reactor: &mut Reactor, fd: i32) -> (l: AsyncTcpListener)
        requires
            old(reactor).wf(),
            old(reactor).next_event_id < u64::MAX,
        ensures
            final(reactor)@ == register_tcp_model(old(reactor)@, fd).0,
            l.fd == fd,
            l.event_id == register_tcp_model(old(reactor)@, fd).1,
            final(reactor).wf(),
            l.wf(final(reactor)@),
    {
        let event_id = reactor.register_tcp(fd);
        AsyncTcpListener { fd, event_id }
    }

    /// Attaches an accepted connection's descriptor to the listener's
    /// readiness group, and parks the group's waiter on the do-nothing handle
    /// until the listener is polled again.
    pub fn add_connection(&self, reactor: &mut Reactor, fd: i32)
        requires
            old(reactor).wf(),
            self.wf(old(reactor)@),
        ensures
            final(reactor)@ == set_waiter_model(
                register_epoll_model(old(reactor)@, fd, self.event_id),
                self.event_id,
                WakeHandle::Noop,
            ),
            final(reactor).wf(),
    {
        reactor.register_epoll(fd, self.event_id);
        reactor.modify_waker(self.event_id, WakeHandle::Noop);
    }

    /// The accept loop as a future: the caller spawns it on the executor.
    pub fn accept(&self) -> (f: ListenerFuture)
        ensures
            f.fd == self.fd,
            f.event_id == self.event_id,
            f.state is Waiting,
            f.handled@ == Seq::<i32>::empty(),
    {
        ListenerFuture {
            fd: self.fd,
            event_id: self.event_id,
            state: ListenerState::Waiting,
            handled: Vec::new(),
        }
    }
}

/// One readiness cycle as a future: every poll re-registers the current waker
/// under the group id, and the future is ready once the readiness buffer is
/// non-empty.
pub struct AsyncEpollWait {
    pub event_id: u64,
}

impl AsyncEpollWait {
    pub fn poll(&self, reactor: &mut Reactor, waker: WakeHandle) -> (ready: bool)
        requires
            old(reactor).wf(),
            self.event_id < old(reactor).next_event_id,
        ensures
            final(reactor)@ == set_waiter_model(old(reactor)@, self.event_id, waker),
            ready == (old(reactor)@.ready.len() > 0),
            final(reactor).wf(),
    {
        reactor.modify_waker(self.event_id, waker);
        reactor.is_event_completed_epoll() > 0
    }
}

/// Where the accept loop stands: waiting for a readiness cycle, or holding an
/// accept in flight with `more` further accepts owed for the batch already
/// snapshotted.
pub enum ListenerState {
    Waiting,
    Accepting { more: usize, op: OpFuture },
}

/// The accept loop's state machine. Ready descriptors other than the
/// listening one accumulate in `handled`, in readiness order, for the
/// embedding program's handler; each readiness entry for the listening
/// descriptor itself is answered by one accept operation whose new descriptor
/// joins the readiness group.
pub struct ListenerFuture {
    pub fd: i32,
    pub event_id: u64,
    pub state: ListenerState,
    pub handled: Vec<i32>,
}

impl ListenerFuture {
    /// The group id was allocated by the reactor, and an in-flight accept is
    /// registered under an allocated id.
    pub open spec fn wf(self, m: ReactorModel) -> bool {
        &&& self.event_id < m.next_event_id
        &&& (self.state matches ListenerState::Accepting { more, op } ==> (op.state matches
            OpState::AwaitingCompletion(e) && e < m.next_event_id))
    }
}

/// The poll transition of the accept loop.
///
/// Waiting, empty buffer: re-arm the group's waiter and stay pending.
/// Waiting, non-empty buffer: snapshot and clear the buffer; append the
/// non-listening descriptors to `handled`; with no listening entry, re-arm
/// and keep waiting; otherwise register one accept and hold the rest of the
/// batch's accepts as owed.
/// Accepting, no outcome yet: change nothing and stay pending.
/// Accepting, accept succeeded with descriptor `n`: attach `n` to the group
/// (parking the group waiter on the do-nothing handle); register the next
/// owed accept, or, with none owed, re-arm the group's waiter and wait again.
/// Accepting, accept failed: consume the outcome and resolve with the error;
/// the loop ends abnormally.
pub open spec fn listener_poll_spec(
    pre_l: ListenerFuture,
    post_l: ListenerFuture,
    pre_r: ReactorModel,
    post_r: ReactorModel,
    waker: WakeHandle,
    ret: Poll,
) -> bool {
    match pre_l.state {
        ListenerState::Waiting => {
            let armed = set_waiter_model(pre_r, pre_l.event_id, waker);
            if pre_r.ready.len() == 0 {
                &&& post_r == armed
                &&& post_l == pre_l
                &&& ret is Pending
            } else {
                let cleared = clear_ready_model(armed);
                let owed = accept_count(pre_r.ready, pre_l.fd);
                let handled_now = pre_l.handled@ + dispatch_fds(pre_r.ready, pre_l.fd);
                &&& post_l.fd == pre_l.fd
                &&& post_l.event_id == pre_l.event_id
                &&& post_l.handled@ == handled_now
                &&& ret is Pending
                &&& if owed == 0 {
                    &&& post_r == cleared
                    &&& post_l.state is Waiting
                } else {
                    let reg = register_model(cleared, pre_l.fd, IoOp::Accept, Seq::empty(), waker);
                    &&& post_r == reg.0
                    &&& post_l.state matches ListenerState::Accepting { more, op }
                        && more == owed - 1 && op.fd == pre_l.fd && op.op is Accept && op.state
                        == OpState::AwaitingCompletion(reg.1) && op.buffer@ == Seq::<u8>::empty()
                }
            }
        },
        ListenerState::Accepting { more, op } => {
            match op.state {
                OpState::AwaitingCompletion(e) => {
                    if pre_r.completed.contains_key(e) {
                        let entry = pre_r.completed[e];
                        let taken = take_model(pre_r, e).0;
                        &&& post_l.fd == pre_l.fd
                        &&& post_l.event_id == pre_l.event_id
                        &&& post_l.handled@ == pre_l.handled@
                        &&& match entry.result {
                            Ok(n) => {
                                let parked = set_waiter_model(
                                    register_epoll_model(taken, n as i32, pre_l.event_id),
                                    pre_l.event_id,
                                    WakeHandle::Noop,
                                );
                                &&& ret is Pending
                                &&& if more > 0 {
                                    let reg = register_model(
                                        parked,
                                        pre_l.fd,
                                        IoOp::Accept,
                                        Seq::empty(),
                                        waker,
                                    );
                                    &&& post_r == reg.0
                                    &&& post_l.state matches ListenerState::Accepting {
                                        more: m2,
                                        op: op2,
                                    } && m2 == more - 1 && op2.fd == pre_l.fd && op2.op is Accept
                                        && op2.state == OpState::AwaitingCompletion(reg.1)
                                        && op2.buffer@ == Seq::<u8>::empty()
                                } else {
                                    &&& post_r == set_waiter_model(parked, pre_l.event_id, waker)
                                    &&& post_l.state is Waiting
                                }
                            },
                            Err(err) => {
                                &&& post_r == taken
                                &&& post_l.state is Waiting
                                &&& ret == Poll::Ready(Err::<usize, _>(err))
                            },
                        }
                    } else {
                        &&& post_r == pre_r
                        &&& post_l == pre_l
                        &&& ret is Pending
                    }
                },
                _ => false,
            }
        },
    }
}

/// Whatever one poll of the accept loop does, the listener keeps its
/// descriptor and group id, and the handler log only grows: descriptors
/// already handed to the handler are never dropped or reordered.
pub proof fn lemma_listener_poll_keeps_log(
    pre_l: ListenerFuture,
    post_l: ListenerFuture,
    pre_r: ReactorModel,
    post_r: ReactorModel,
    waker: WakeHandle,
    ret: Poll,
)
    requires
        listener_poll_spec(pre_l, post_l, pre_r, post_r, waker, ret),
    ensures
        post_l.fd == pre_l.fd,
        post_l.event_id == pre_l.event_id,
        post_l.handled@.len() >= pre_l.handled@.len(),
        post_l.handled@.subrange(0, pre_l.handled@.len() as int) == pre_l.handled@,
{
    match pre_l.state {
        ListenerState::Waiting => {
            if pre_r.ready.len() == 0 {
                assert(post_l.handled@.subrange(0, pre_l.handled@.len() as int)
                    =~= pre_l.handled@);
            } else {
                assert(post_l.handled@.subrange(0, pre_l.handled@.len() as int)
                    =~= pre_l.handled@);
            }
        },
        ListenerState::Accepting { more, op } => {
            assert(post_l.handled@.subrange(0, pre_l.handled@.len() as int) =~= pre_l.handled@);
        },
    }
}

impl ListenerFuture {
    /// Polls the accept loop once against the reactor, on behalf of the task
    /// whose wake handle is `waker`.
    pub fn poll(&mut self, reactor: &mut Reactor, waker: WakeHandle) -> (ret: Poll)
        requires
            old(reactor).wf(),
            old(self).wf(old(reactor)@),
            old(reactor).next_event_id < u64::MAX,
        ensures
            listener_poll_spec(
                *old(self),
                *final(self),
                old(reactor)@,
                final(reactor)@,
                waker,
                ret,
            ),
            final(reactor).wf(),
            final(self).wf(final(reactor)@),
    {
        let mut st = ListenerState::Waiting;
        core::mem::swap(&mut st, &mut self.state);
        match st {
            ListenerState::Waiting => {
                let gate = AsyncEpollWait { event_id: self.event_id };
                let ready = gate.poll(reactor, waker);
                if !ready {
                    self.state = ListenerState::Waiting;
                    return Poll::Pending;
                }
                let events = reactor.get_epoll_events();
                reactor.clear_epoll_events();
                let ghost evs = events@;
                let ghost pre_handled = self.handled@;
                let lfd = self.fd;
                let mut accepts: usize = 0;
                let mut idx: usize = 0;
                proof {
                    assert(evs.skip(0) =~= evs);
                    assert(pre_handled + dispatch_fds(evs, lfd) =~= self.handled@ + dispatch_fds(
                        evs.skip(0),
                        lfd,
                    ));
                }
                let ghost eid = self.event_id;
                while idx < events.len()
                    invariant
                        idx <= events@.len(),
                        events@ == evs,
                        accepts <= idx,
                        self.fd == lfd,
                        self.event_id == eid,
                        pre_handled + dispatch_fds(evs, lfd) == self.handled@ + dispatch_fds(
                            evs.skip(idx as int),
                            lfd,
                        ),
                        accept_count(evs, lfd) == accepts + accept_count(
                            evs.skip(idx as int),
                            lfd,
                        ),
                    decreases events@.len() - idx,
                {
                    let ghost handled_pre = self.handled@;
                    let evfd = events[idx].fd;
                    if evfd == lfd {
                        accepts = accepts + 1;
                    } else {
                        self.handled.push(evfd);
                    }
                    proof {
                        assert(evs.skip(idx as int)[0] == evs[idx as int]);
                        assert(evs.skip(idx as int).drop_first() =~= evs.skip(idx as int + 1));
                        if evfd != lfd {
                            assert(handled_pre + (seq![evfd] + dispatch_fds(
                                evs.skip(idx as int + 1),
                                lfd,
                            )) =~= self.handled@ + dispatch_fds(evs.skip(idx as int + 1), lfd));
                        }
                    }
                    idx = idx + 1;
                }
                proof {
                    assert(evs.skip(evs.len() as int) =~= Seq::<ReadyEvent>::empty());
                    assert(self.handled@ + Seq::<i32>::empty() =~= self.handled@);
                    assert(self.handled@ =~= pre_handled + dispatch_fds(evs, lfd));
                }
                if accepts == 0 {
                    self.state = ListenerState::Waiting;
                    return Poll::Pending;
                }
                let mut f = OpFuture::new(self.fd, IoOp::Accept, Vec::new());
                let r0 = f.poll(reactor, waker);
                self.state = ListenerState::Accepting { more: accepts - 1, op: f };
                Poll::Pending
            },
            ListenerState::Accepting { more, op } => {
                let mut op = op;
                let r = op.poll(reactor, waker);
                match r {
                    Poll::Pending => {
                        self.state = ListenerState::Accepting { more, op };
                        Poll::Pending
                    },
                    Poll::Ready(res) => match res {
                        Ok(n) => {
                            proof {
                                assert(n <= i32::MAX as usize);
                            }
                            let newfd = n as i32;
                            reactor.register_epoll(newfd, self.event_id);
                            reactor.modify_waker(self.event_id, WakeHandle::Noop);
                            if more > 0 {
                                let mut f = OpFuture::new(self.fd, IoOp::Accept, Vec::new());
                                let r2 = f.poll(reactor, waker);
                                self.state = ListenerState::Accepting { more: more - 1, op: f };
                                Poll::Pending
                            } else {
                                reactor.modify_waker(self.event_id, waker);
                                self.state = ListenerState::Waiting;
                                Poll::Pending
                            }
                        },
                        Err(err) => {
                            self.state = ListenerState::Waiting;
                            Poll::Ready(Err(err))
                        },
                    },
                }
            },
        }
    }
}

} // verus!
