//! Two-phase operation futures. Read, write and accept share one state
//! machine: on the first poll the operation is registered with the reactor
//! and the future is not ready; on later polls the future asks the reactor
//! for a recorded outcome; once resolved it answers every further poll with
//! the cached result.

use vstd::prelude::*;

use crate::reactor::{
    decode_result, register_model, take_model, CompletionModel, IoOp, OsError, Reactor,
    ReactorModel, WakeHandle,
};

verus! {

/// What one poll of a future reports: not ready yet, or ready with the
/// operation's outcome (a byte count, or, for an accept, the new descriptor
/// number carried through the same slot).
#[derive(Clone, Copy, Debug)]
pub enum Poll {
    Pending,
    Ready(Result<usize, OsError>),
}

/// Where a pending operation stands: not yet registered with the reactor,
/// registered and awaiting its completion under the stored correlation id, or
/// resolved with its cached outcome.
#[derive(Debug)]
pub enum OpState {
    Unregistered,
    AwaitingCompletion(u64),
    Resolved(Result<usize, OsError>),
}

/// One pending I/O intent: the descriptor, the owned data buffer, the
/// operation kind, and the state machine above.
pub struct OpFuture {
    pub fd: i32,
    pub op: IoOp,
    pub buffer: Vec<u8>,
    pub state: OpState,
}

/// A buffer after a completed read: the delivered bytes overwrite the prefix,
/// the rest keeps its old contents, and the length never changes.
pub open spec fn fill_prefix(buf: Seq<u8>, data: Seq<u8>) -> Seq<u8> {
    Seq::new(buf.len(), |i: int| if i < data.len() { data[i] } else { buf[i] })
}

/// The buffer contents after an outcome is consumed: only a successful read
/// copies the delivered bytes in; every other outcome leaves the buffer as it
/// was.
pub open spec fn buffer_after(op: IoOp, buf: Seq<u8>, entry: CompletionModel) -> Seq<u8> {
    if op is Read && entry.result is Ok {
        fill_prefix(buf, entry.data)
    } else {
        buf
    }
}

impl OpFuture {
    /// A fresh, unregistered operation future.
    pub open spec fn fresh_spec(fd: i32, op: IoOp, buffer: Seq<u8>, f: OpFuture) -> bool {
        &&& f.fd == fd
        &&& f.op == op
        &&& f.buffer@ == buffer
        &&& f.state is Unregistered
    }

    /// A registered operation's id was allocated by the reactor.
    pub open spec fn wf(self, m: ReactorModel) -> bool {
        self.state matches OpState::AwaitingCompletion(e) ==> e < m.next_event_id
    }

    pub fn new(fd: i32, op: IoOp, buffer: Vec<u8>) -> (f: OpFuture)
        ensures
            OpFuture::fresh_spec(fd, op, buffer@, f),
    {
        OpFuture { fd, op, buffer, state: OpState::Unregistered }
    }
}

/// The full poll transition of an operation future, relating the future and
/// the reactor before and after one poll to the reported result:
/// an unregistered future registers itself (under the waker it was polled
/// with) and is pending; an awaiting future consumes its recorded outcome if
/// one exists, otherwise changes nothing and stays pending; a resolved future
/// repeats its cached result and changes nothing.
pub open spec fn op_poll_spec(
    pre_f: OpFuture,
    post_f: OpFuture,
    pre_r: ReactorModel,
    post_r: ReactorModel,
    waker: WakeHandle,
    ret: Poll,
) -> bool {
    match pre_f.state {
        OpState::Unregistered => {
            let reg = register_model(pre_r, pre_f.fd, pre_f.op, pre_f.buffer@, waker);
            &&& post_r == reg.0
            &&& post_f.state == OpState::AwaitingCompletion(reg.1)
            &&& post_f.fd == pre_f.fd
            &&& post_f.op == pre_f.op
            &&& post_f.buffer@ == pre_f.buffer@
            &&& ret is Pending
        },
        OpState::AwaitingCompletion(e) => {
            if pre_r.completed.contains_key(e) {
                let entry = pre_r.completed[e];
                &&& post_r == take_model(pre_r, e).0
                &&& post_f.state == OpState::Resolved(entry.result)
                &&& post_f.fd == pre_f.fd
                &&& post_f.op == pre_f.op
                &&& post_f.buffer@ == buffer_after(pre_f.op, pre_f.buffer@, entry)
                &&& ret == Poll::Ready(entry.result)
            } else {
                &&& post_r == pre_r
                &&& post_f == pre_f
                &&& ret is Pending
            }
        },
        OpState::Resolved(res) => {
            &&& post_r == pre_r
            &&& post_f == pre_f
            &&& ret == Poll::Ready(res)
        },
    }
}

impl OpFuture {
    /// Polls the operation once against the reactor, on behalf of the task
    /// whose wake handle is `waker`.
    pub fn poll(&mut self, reactor: &mut Reactor, waker: WakeHandle) -> (ret: Poll)
        requires
            old(reactor).wf(),
            old(self).wf(old(reactor)@),
            old(reactor).next_event_id < u64::MAX,
        ensures
            op_poll_spec(*old(self), *final(self), old(reactor)@, final(reactor)@, waker, ret),
            final(reactor).wf(),
            final(self).wf(final(reactor)@),
    {
        match self.state {
            OpState::Unregistered => {
                let event_id = reactor.register(self.fd, self.op, &self.buffer, waker);
                self.state = OpState::AwaitingCompletion(event_id);
                Poll::Pending
            },
            OpState::AwaitingCompletion(event_id) => {
                match reactor.is_event_completed(event_id) {
                    Some(entry) => {
                        let is_ok_read = match (&self.op, &entry.result) {
                            (IoOp::Read, Ok(_)) => true,
                            _ => false,
                        };
                        if is_ok_read {
                            let mut i: usize = 0;
                            let n = if entry.data.len() < self.buffer.len() {
                                entry.data.len()
                            } else {
                                self.buffer.len()
                            };
                            while i < n
                                invariant
                                    i <= n,
                                    n <= entry.data@.len(),
                                    n <= self.buffer@.len(),
                                    n == if entry.data@.len() < self.buffer@.len() {
                                        entry.data@.len()
                                    } else {
                                        self.buffer@.len()
                                    },
                                    self.buffer@.len() == old(self).buffer@.len(),
                                    forall|j: int| 0 <= j < i ==> self.buffer@[j] == entry.data@[j],
                                    forall|j: int|
                                        i <= j < self.buffer@.len() ==> self.buffer@[j] == old(
                                            self,
                                        ).buffer@[j],
                                    self.fd == old(self).fd,
                                    self.op == old(self).op,
                                    self.state == old(self).state,
                                decreases n - i,
                            {
                                let b = entry.data[i];
                                self.buffer.set(i, b);
                                i = i + 1;
                            }
                            proof {
                                assert(self.buffer@ =~= fill_prefix(
                                    old(self).buffer@,
                                    entry.data@,
                                ));
                            }
                        }
                        let result = entry.result;
                        self.state = OpState::Resolved(result);
                        proof {
                            let em = old(reactor)@.completed[event_id];
                            assert(buffer_after(old(self).op, old(self).buffer@, em)
                                == self.buffer@);
                        }
                        Poll::Ready(result)
                    },
                    None => Poll::Pending,
                }
            },
            OpState::Resolved(res) => Poll::Ready(res),
        }
    }
}

/// Builds a read future over `buffer`; on resolution the delivered bytes
/// stand in the buffer's prefix and the result is the byte count.
pub struct AsyncReadFuture {
    pub inner: OpFuture,
}

impl AsyncReadFuture {
    pub fn new(fd: i32, buffer: Vec<u8>) -> (f: AsyncReadFuture)
        ensures
            OpFuture::fresh_spec(fd, IoOp::Read, buffer@, f.inner),
    {
        AsyncReadFuture { inner: OpFuture::new(fd, IoOp::Read, buffer) }
    }

    /// The owned buffer, so a resolved read's bytes can be inspected.
    pub fn buffer(&self) -> (b: &Vec<u8>)
        ensures
            b@ == self.inner.buffer@,
    {
        &self.inner.buffer
    }

    pub fn poll(&mut self, reactor: &mut Reactor, waker: WakeHandle) -> (ret: Poll)
        requires
            old(reactor).wf(),
            old(self).inner.wf(old(reactor)@),
            old(reactor).next_event_id < u64::MAX,
        ensures
            op_poll_spec(
                old(self).inner,
                final(self).inner,
                old(reactor)@,
                final(reactor)@,
                waker,
                ret,
            ),
            final(reactor).wf(),
            final(self).inner.wf(final(reactor)@),
    {
        self.inner.poll(reactor, waker)
    }
}

/// Builds a write future that carries the bytes to send; on resolution the
/// result is the byte count the kernel reported.
pub struct AsyncWriteFuture {
    pub inner: OpFuture,
}

impl AsyncWriteFuture {
    pub fn new(fd: i32, buffer: Vec<u8>) -> (f: AsyncWriteFuture)
        ensures
            OpFuture::fresh_spec(fd, IoOp::Write, buffer@, f.inner),
    {
        AsyncWriteFuture { inner: OpFuture::new(fd, IoOp::Write, buffer) }
    }

    pub fn poll(&mut self, reactor: &mut Reactor, waker: WakeHandle) -> (ret: Poll)
        requires
            old(reactor).wf(),
            old(self).inner.wf(old(reactor)@),
            old(reactor).next_event_id < u64::MAX,
        ensures
            op_poll_spec(
                old(self).inner,
                final(self).inner,
                old(reactor)@,
                final(reactor)@,
                waker,
                ret,
            ),
            final(reactor).wf(),
            final(self).inner.wf(final(reactor)@),
    {
        self.inner.poll(reactor, waker)
    }
}

/// Builds an accept future on a listening descriptor; on resolution the
/// result slot carries the new connection's descriptor number.
pub struct AsyncAcceptFuture {
    pub inner: OpFuture,
}

impl AsyncAcceptFuture {
    pub fn new(fd: i32) -> (f: AsyncAcceptFuture)
        ensures
            OpFuture::fresh_spec(fd, IoOp::Accept, Seq::empty(), f.inner),
    {
        AsyncAcceptFuture { inner: OpFuture::new(fd, IoOp::Accept, Vec::new()) }
    }

    pub fn poll(&mut self, reactor: &mut Reactor, waker: WakeHandle) -> (ret: Poll)
        requires
            old(reactor).wf(),
            old(self).inner.wf(old(reactor)@),
            old(reactor).next_event_id < u64::MAX,
        ensures
            op_poll_spec(
                old(self).inner,
                final(self).inner,
                old(reactor)@,
                final(reactor)@,
                waker,
                ret,
            ),
            final(reactor).wf(),
            final(self).inner.wf(final(reactor)@),
    {
        self.inner.poll(reactor, waker)
    }
}

/// An asynchronous read of up to `buffer.len()` bytes from `fd`.
pub fn read(fd: i32, buffer: Vec<u8>) -> (f: AsyncReadFuture)
    ensures
        OpFuture::fresh_spec(fd, IoOp::Read, buffer@, f.inner),
{
    AsyncReadFuture::new(fd, buffer)
}

/// An asynchronous write of `buffer` to `fd`.
pub fn write(fd: i32, buffer: Vec<u8>) -> (f: AsyncWriteFuture)
    ensures
        OpFuture::fresh_spec(fd, IoOp::Write, buffer@, f.inner),
{
    AsyncWriteFuture::new(fd, buffer)
}

/// An asynchronous accept on the listening descriptor `fd`.
pub fn accept(fd: i32) -> (f: AsyncAcceptFuture)
    ensures
        OpFuture::fresh_spec(fd, IoOp::Accept, Seq::empty(), f.inner),
{
    AsyncAcceptFuture::new(fd)
}

} // verus!
