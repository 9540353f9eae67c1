use asyncrun::ops::{OpState, Poll};
use asyncrun::reactor::{CqEvent, IoOp, OsError, Reactor, ReadyEvent, WakeHandle};

fn cq(user_data: u64, result: i32, data: Vec<u8>) -> CqEvent {
    CqEvent { user_data, result, data }
}

#[test]
fn event_ids_strictly_increasing() {
    let mut r = Reactor::new();
    let id1 = r.register(3, IoOp::Read, &vec![0u8; 4], WakeHandle::Task(0));
    let id2 = r.register(3, IoOp::Write, &vec![1u8, 2u8], WakeHandle::Task(1));
    let id3 = r.register_tcp(5);
    let id4 = r.register(5, IoOp::Accept, &Vec::new(), WakeHandle::Task(2));
    assert!(id1 < id2 && id2 < id3 && id3 < id4);
    assert_eq!((id1, id2, id3, id4), (1, 2, 3, 4));
}

#[test]
fn register_then_complete_yields_ok_for_all_kinds() {
    for op in [IoOp::Read, IoOp::Write, IoOp::Accept] {
        let mut r = Reactor::new();
        let id = r.register(3, op, &vec![0u8; 8], WakeHandle::Task(7));
        let wakes = r.wait(&vec![cq(id, 8, Vec::new())], &Vec::new());
        assert_eq!(wakes, vec![7]);
        let entry = r.is_event_completed(id).expect("completed result must be recorded");
        assert_eq!(entry.result, Ok(8));
    }
}

#[test]
fn register_then_complete_yields_err_for_negative_result() {
    let mut r = Reactor::new();
    let id = r.register(3, IoOp::Write, &vec![1u8], WakeHandle::Task(0));
    let wakes = r.wait(&vec![cq(id, -13, Vec::new())], &Vec::new());
    assert_eq!(wakes, vec![0]);
    let entry = r.is_event_completed(id).expect("completed result must be recorded");
    assert_eq!(entry.result, Err(OsError { code: -13 }));
}

#[test]
fn completion_without_waiter_is_retrievable_exactly_once() {
    let mut r = Reactor::new();
    // The future was dropped: its stale waker slot holds the do-nothing handle.
    let id = r.register(3, IoOp::Write, &vec![1u8], WakeHandle::Noop);
    let wakes = r.wait(&vec![cq(id, 1, Vec::new())], &Vec::new());
    assert!(wakes.is_empty());
    let entry = r.is_event_completed(id).expect("result recorded even with no task to wake");
    assert_eq!(entry.result, Ok(1));
    assert!(r.is_event_completed(id).is_none());
}

#[test]
fn second_completion_for_same_id_finds_no_waiter() {
    let mut r = Reactor::new();
    let id = r.register(3, IoOp::Write, &vec![1u8], WakeHandle::Task(4));
    let first = r.wait(&vec![cq(id, 1, Vec::new())], &Vec::new());
    assert_eq!(first, vec![4]);
    // The waiter was removed by the first wake; a late duplicate completion
    // wakes nobody but re-records the result.
    let second = r.wait(&vec![cq(id, 1, Vec::new())], &Vec::new());
    assert!(second.is_empty());
    assert!(r.is_event_completed(id).is_some());
    assert!(r.is_event_completed(id).is_none());
}

#[test]
fn readiness_wake_is_not_one_shot() {
    let mut r = Reactor::new();
    let id = r.register_tcp(9);
    r.modify_waker(id, WakeHandle::Task(2));
    let w1 = r.wait(&Vec::new(), &vec![ReadyEvent { fd: 9, tag: id }]);
    assert_eq!(w1, vec![2]);
    // The readiness waiter is cloned, not removed: the next cycle wakes it again.
    let w2 = r.wait(&Vec::new(), &vec![ReadyEvent { fd: 9, tag: id }]);
    assert_eq!(w2, vec![2]);
}

#[test]
fn wait_overwrites_readiness_buffer_and_clear_empties_it() {
    let mut r = Reactor::new();
    let id = r.register_tcp(9);
    r.modify_waker(id, WakeHandle::Task(0));
    r.wait(&Vec::new(), &vec![ReadyEvent { fd: 9, tag: id }]);
    assert_eq!(r.is_event_completed_epoll(), 1);
    let evs = r.get_epoll_events();
    assert_eq!(evs.len(), 1);
    assert_eq!((evs[0].fd, evs[0].tag), (9, id));
    // A cycle with nothing ready overwrites the buffer with the empty snapshot.
    let r2 = r.wait(&Vec::new(), &Vec::new());
    assert!(r2.is_empty());
    assert_eq!(r.is_event_completed_epoll(), 0);
    let id2 = r.register_tcp(11);
    r.modify_waker(id2, WakeHandle::Noop);
    r.wait(&Vec::new(), &vec![ReadyEvent { fd: 11, tag: id2 }]);
    assert_eq!(r.is_event_completed_epoll(), 1);
    r.clear_epoll_events();
    assert_eq!(r.is_event_completed_epoll(), 0);
}

#[test]
fn submissions_carry_operation_data_and_drain_once() {
    let mut r = Reactor::new();
    let id = r.register(6, IoOp::Write, &b"Hello, world!".to_vec(), WakeHandle::Task(0));
    let subs = r.take_submissions();
    assert_eq!(subs.len(), 1);
    assert_eq!(subs[0].fd, 6);
    assert!(matches!(subs[0].op, IoOp::Write));
    assert_eq!(subs[0].len, 13);
    assert_eq!(subs[0].data, b"Hello, world!".to_vec());
    assert_eq!(subs[0].user_data, id);
    assert!(r.take_submissions().is_empty());
}

#[test]
fn resolved_future_repolls_idempotently() {
    let mut r = Reactor::new();
    let mut f = asyncrun::ops::write(4, b"Hello, world!".to_vec());
    assert!(matches!(f.poll(&mut r, WakeHandle::Task(0)), Poll::Pending));
    let id = match f.inner.state {
        OpState::AwaitingCompletion(id) => id,
        _ => panic!("first poll must register the operation"),
    };
    r.wait(&vec![cq(id, 13, Vec::new())], &Vec::new());
    assert!(matches!(f.poll(&mut r, WakeHandle::Task(0)), Poll::Ready(Ok(13))));
    // Re-polling after resolution repeats the cached result without touching
    // the reactor: no new submission, no new id, nothing left to take.
    let subs_before = r.take_submissions().len();
    assert!(matches!(f.poll(&mut r, WakeHandle::Task(0)), Poll::Ready(Ok(13))));
    assert!(matches!(f.poll(&mut r, WakeHandle::Task(0)), Poll::Ready(Ok(13))));
    assert_eq!(subs_before, 1);
    assert!(r.take_submissions().is_empty());
    assert!(r.is_event_completed(id).is_none());
}
