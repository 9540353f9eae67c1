use asyncrun::ops::{accept, read, OpState};
use asyncrun::reactor::{CqEvent, IoOp, Reactor, ReadyEvent};
use asyncrun::task::{Executor, TaskFuture};
use asyncrun::tcp::{AsyncTcpListener, ListenerState};

fn cq(user_data: u64, result: i32, data: Vec<u8>) -> CqEvent {
    CqEvent { user_data, result, data }
}

fn awaiting_id(ex: &Executor, task: usize) -> u64 {
    match &ex.tasks[task].future {
        TaskFuture::Op(f) => match f.state {
            OpState::AwaitingCompletion(id) => id,
            _ => panic!("task is not awaiting a completion"),
        },
        _ => panic!("task is not an operation"),
    }
}

fn resolved_result(ex: &Executor, task: usize) -> Result<usize, i32> {
    match &ex.tasks[task].future {
        TaskFuture::Op(f) => match &f.state {
            OpState::Resolved(Ok(n)) => Ok(*n),
            OpState::Resolved(Err(e)) => Err(e.code),
            _ => panic!("task has not resolved"),
        },
        _ => panic!("task is not an operation"),
    }
}

#[test]
fn wake_bursts_coalesce_and_poll_once_each() {
    let mut r = Reactor::new();
    let mut ex = Executor::new();
    let t = ex.spawn(TaskFuture::Op(asyncrun::ops::write(3, vec![1u8, 2u8]).inner));
    ex.run(&mut r);
    assert_eq!(ex.tasks[t].polls, 1);
    let id = awaiting_id(&ex, t);

    // A burst of three wakes coalesces to one queue entry and one poll.
    ex.spawn_task(t);
    ex.spawn_task(t);
    ex.spawn_task(t);
    assert_eq!(ex.queue.len(), 1);
    ex.run(&mut r);
    assert_eq!(ex.tasks[t].polls, 2);
    assert!(!ex.tasks[t].done);

    // Another burst, still pending: polled exactly once more.
    ex.spawn_task(t);
    ex.spawn_task(t);
    assert_eq!(ex.queue.len(), 1);
    ex.run(&mut r);
    assert_eq!(ex.tasks[t].polls, 3);
    assert!(!ex.tasks[t].done);

    // The completion arrives: one wake, one poll, task done.
    let wakes = r.wait(&vec![cq(id, 2, Vec::new())], &Vec::new());
    assert_eq!(wakes, vec![t]);
    for w in wakes {
        ex.spawn_task(w);
    }
    ex.run(&mut r);
    assert_eq!(ex.tasks[t].polls, 4);
    assert!(ex.tasks[t].done);
    assert_eq!(resolved_result(&ex, t), Ok(2));

    // Waking a done task schedules nothing.
    ex.spawn_task(t);
    assert_eq!(ex.queue.len(), 0);
}

#[test]
fn scenario_write_hello_world_observes_ok_13() {
    let mut r = Reactor::new();
    let mut ex = Executor::new();
    let t = ex.spawn(TaskFuture::Op(asyncrun::ops::write(6, b"Hello, world!".to_vec()).inner));
    ex.run(&mut r);
    assert_eq!(ex.queue.len(), 0);
    let subs = r.take_submissions();
    assert_eq!(subs.len(), 1);
    assert!(matches!(subs[0].op, IoOp::Write));
    assert_eq!(subs[0].data, b"Hello, world!".to_vec());
    assert_eq!(subs[0].len, 13);

    // The kernel reports all 13 bytes written.
    let wakes = r.wait(&vec![cq(subs[0].user_data, 13, Vec::new())], &Vec::new());
    for w in wakes {
        ex.spawn_task(w);
    }
    ex.run(&mut r);
    assert!(ex.tasks[t].done);
    assert_eq!(resolved_result(&ex, t), Ok(13));
}

#[test]
fn scenario_read_one_byte_fills_buffer() {
    let mut r = Reactor::new();
    let mut ex = Executor::new();
    let t = ex.spawn(TaskFuture::Op(read(5, vec![0u8; 1]).inner));
    ex.run(&mut r);
    let subs = r.take_submissions();
    assert_eq!(subs.len(), 1);
    assert!(matches!(subs[0].op, IoOp::Read));
    assert_eq!(subs[0].len, 1);

    // The kernel reports one byte read and delivers it.
    let wakes = r.wait(&vec![cq(subs[0].user_data, 1, vec![b'Z'])], &Vec::new());
    for w in wakes {
        ex.spawn_task(w);
    }
    ex.run(&mut r);
    assert!(ex.tasks[t].done);
    assert_eq!(resolved_result(&ex, t), Ok(1));
    match &ex.tasks[t].future {
        TaskFuture::Op(f) => assert_eq!(f.buffer, vec![b'Z']),
        _ => panic!("task is not an operation"),
    }
}

#[test]
fn scenario_listener_accepts_exactly_once_and_registers_new_descriptor() {
    let mut r = Reactor::new();
    let mut ex = Executor::new();
    let listen_fd = 5;
    let listener = AsyncTcpListener::new(&mut r, listen_fd);
    let group_id = listener.event_id;
    assert_eq!(r.take_registrations().len(), 1);

    let t = ex.spawn(TaskFuture::Listener(listener.accept()));
    ex.run(&mut r);
    assert!(r.take_submissions().is_empty());

    // One readiness notification on the listening descriptor itself.
    let wakes = r.wait(
        &Vec::new(),
        &vec![ReadyEvent { fd: listen_fd, tag: group_id }],
    );
    assert_eq!(wakes, vec![t]);
    for w in wakes {
        ex.spawn_task(w);
    }
    ex.run(&mut r);

    // Exactly one accept was submitted, and nothing was handed to the handler.
    let subs = r.take_submissions();
    assert_eq!(subs.len(), 1);
    assert!(matches!(subs[0].op, IoOp::Accept));
    assert_eq!(subs[0].fd, listen_fd);
    match &ex.tasks[t].future {
        TaskFuture::Listener(l) => {
            assert!(matches!(l.state, ListenerState::Accepting { more: 0, .. }));
            assert!(l.handled.is_empty());
        },
        _ => panic!("task is not the listener"),
    }

    // The accept completes with the new connection's descriptor.
    let wakes = r.wait(&vec![cq(subs[0].user_data, 7, Vec::new())], &Vec::new());
    assert_eq!(wakes, vec![t]);
    for w in wakes {
        ex.spawn_task(w);
    }
    ex.run(&mut r);

    // Exactly one new descriptor joined the readiness group, under the
    // listener's own id, and no further accept was submitted.
    let regs = r.take_registrations();
    assert_eq!(regs.len(), 1);
    assert_eq!((regs[0].fd, regs[0].event_id), (7, group_id));
    assert!(r.take_submissions().is_empty());
    match &ex.tasks[t].future {
        TaskFuture::Listener(l) => {
            assert!(matches!(l.state, ListenerState::Waiting));
            assert!(l.handled.is_empty());
        },
        _ => panic!("task is not the listener"),
    }
}

#[test]
fn scenario_listener_dispatches_connection_readiness_to_handler() {
    let mut r = Reactor::new();
    let mut ex = Executor::new();
    let listener = AsyncTcpListener::new(&mut r, 5);
    let group_id = listener.event_id;
    r.take_registrations();
    let t = ex.spawn(TaskFuture::Listener(listener.accept()));
    ex.run(&mut r);

    // Readiness on an attached connection, not the listening descriptor:
    // the descriptor goes to the handler log and no accept is submitted.
    listener.add_connection(&mut r, 8);
    let wakes = r.wait(&Vec::new(), &vec![ReadyEvent { fd: 8, tag: group_id }]);
    // add_connection parks the group waiter on the do-nothing handle, so this
    // cycle wakes nobody; wake the listener by hand, as its next poll would.
    assert!(wakes.is_empty());
    ex.spawn_task(t);
    ex.run(&mut r);
    assert!(r.take_submissions().is_empty());
    match &ex.tasks[t].future {
        TaskFuture::Listener(l) => assert_eq!(l.handled, vec![8]),
        _ => panic!("task is not the listener"),
    }
}

#[test]
fn boundary_ten_reads_ten_writes_resolve_to_their_own_futures() {
    let mut r = Reactor::new();
    let mut ex = Executor::new();
    let fd = 4;
    let mut tasks = Vec::new();
    for _ in 0..10 {
        tasks.push(ex.spawn(TaskFuture::Op(read(fd, vec![0u8; 64]).inner)));
    }
    for _ in 0..10 {
        tasks.push(ex.spawn(TaskFuture::Op(asyncrun::ops::write(fd, b"Hello, world!".to_vec()).inner)));
    }
    ex.run(&mut r);
    assert_eq!(ex.queue.len(), 0);

    let subs = r.take_submissions();
    assert_eq!(subs.len(), 20);

    // Complete everything in reverse order, each with a result that encodes
    // which operation it belongs to.
    let mut completions = Vec::new();
    for (i, s) in subs.iter().enumerate().rev() {
        completions.push(cq(s.user_data, 1 + i as i32, Vec::new()));
    }
    let wakes = r.wait(&completions, &Vec::new());
    assert_eq!(wakes.len(), 20);
    for w in wakes {
        ex.spawn_task(w);
    }
    ex.run(&mut r);
    assert_eq!(ex.queue.len(), 0);

    // Every operation resolved, and each future observed its own result.
    for (i, t) in tasks.iter().enumerate() {
        assert!(ex.tasks[*t].done);
        assert_eq!(resolved_result(&ex, *t), Ok(1 + i));
    }
}

#[test]
fn accept_future_resolves_to_new_descriptor() {
    let mut r = Reactor::new();
    let mut ex = Executor::new();
    let t = ex.spawn(TaskFuture::Op(accept(5).inner));
    ex.run(&mut r);
    let id = awaiting_id(&ex, t);
    let subs = r.take_submissions();
    assert!(matches!(subs[0].op, IoOp::Accept));
    let wakes = r.wait(&vec![cq(id, 9, Vec::new())], &Vec::new());
    for w in wakes {
        ex.spawn_task(w);
    }
    ex.run(&mut r);
    assert_eq!(resolved_result(&ex, t), Ok(9));
}

#[test]
fn failing_operation_surfaces_error_to_its_task() {
    let mut r = Reactor::new();
    let mut ex = Executor::new();
    let t = ex.spawn(TaskFuture::Op(read(5, vec![0u8; 4]).inner));
    ex.run(&mut r);
    let id = awaiting_id(&ex, t);
    let wakes = r.wait(&vec![cq(id, -11, Vec::new())], &Vec::new());
    for w in wakes {
        ex.spawn_task(w);
    }
    ex.run(&mut r);
    assert!(ex.tasks[t].done);
    assert_eq!(resolved_result(&ex, t), Err(-11));
}

#[test]
fn listener_drains_batch_with_two_accepts_and_one_dispatch() {
    let mut r = Reactor::new();
    let mut ex = Executor::new();
    let listener = AsyncTcpListener::new(&mut r, 5);
    let group_id = listener.event_id;
    r.take_registrations();
    let t = ex.spawn(TaskFuture::Listener(listener.accept()));
    ex.run(&mut r);

    // One batch: readiness on a connection, then twice on the listener.
    let wakes = r.wait(
        &Vec::new(),
        &vec![
            ReadyEvent { fd: 8, tag: group_id },
            ReadyEvent { fd: 5, tag: group_id },
            ReadyEvent { fd: 5, tag: group_id },
        ],
    );
    for w in wakes {
        ex.spawn_task(w);
    }
    ex.run(&mut r);

    // The connection went to the handler; the first accept is in flight with
    // one more owed.
    match &ex.tasks[t].future {
        TaskFuture::Listener(l) => {
            assert_eq!(l.handled, vec![8]);
            assert!(matches!(l.state, ListenerState::Accepting { more: 1, .. }));
        },
        _ => panic!("task is not the listener"),
    }
    let subs = r.take_submissions();
    assert_eq!(subs.len(), 1);
    assert!(matches!(subs[0].op, IoOp::Accept));

    // First accept completes with descriptor 9: it joins the group and the
    // second owed accept is registered at once.
    let wakes = r.wait(&vec![cq(subs[0].user_data, 9, Vec::new())], &Vec::new());
    for w in wakes {
        ex.spawn_task(w);
    }
    ex.run(&mut r);
    let regs = r.take_registrations();
    assert_eq!(regs.len(), 1);
    assert_eq!((regs[0].fd, regs[0].event_id), (9, group_id));
    let subs = r.take_submissions();
    assert_eq!(subs.len(), 1);
    assert!(matches!(subs[0].op, IoOp::Accept));
    match &ex.tasks[t].future {
        TaskFuture::Listener(l) => {
            assert!(matches!(l.state, ListenerState::Accepting { more: 0, .. }))
        },
        _ => panic!("task is not the listener"),
    }

    // Second accept completes with descriptor 10: the batch is drained and the
    // listener waits again.
    let wakes = r.wait(&vec![cq(subs[0].user_data, 10, Vec::new())], &Vec::new());
    for w in wakes {
        ex.spawn_task(w);
    }
    ex.run(&mut r);
    let regs = r.take_registrations();
    assert_eq!(regs.len(), 1);
    assert_eq!((regs[0].fd, regs[0].event_id), (10, group_id));
    assert!(r.take_submissions().is_empty());
    match &ex.tasks[t].future {
        TaskFuture::Listener(l) => {
            assert!(matches!(l.state, ListenerState::Waiting));
            assert_eq!(l.handled, vec![8]);
        },
        _ => panic!("task is not the listener"),
    }
}

#[test]
fn partial_read_fills_only_the_prefix() {
    let mut r = Reactor::new();
    let mut ex = Executor::new();
    let t = ex.spawn(TaskFuture::Op(read(5, vec![0u8; 4]).inner));
    ex.run(&mut r);
    let id = awaiting_id(&ex, t);
    let wakes = r.wait(&vec![cq(id, 2, vec![b'a', b'b'])], &Vec::new());
    for w in wakes {
        ex.spawn_task(w);
    }
    ex.run(&mut r);
    assert_eq!(resolved_result(&ex, t), Ok(2));
    match &ex.tasks[t].future {
        TaskFuture::Op(f) => assert_eq!(f.buffer, vec![b'a', b'b', 0, 0]),
        _ => panic!("task is not an operation"),
    }
}
