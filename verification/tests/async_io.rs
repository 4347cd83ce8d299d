use starry_exec::async_calls::{
    submit_io_request, sys_async_connect, sys_async_read, sys_async_setup, sys_async_write,
    transfer_size, ConnectInput, ConnectPhase,
};
use starry_exec::async_io::{
    do_io, AsyncContext, CqEntry, IoOp, IoRequest, RequestQueue, Transfer, CQ_CAP, MAX_IO_SIZE,
    REQ_QUEUE_CAP,
};
use starry_exec::error::{Fault, KernelError};
use starry_exec::worker::{init, IoWorker, WorkAction};

fn completion(userdata: u64) -> CqEntry {
    CqEntry { userdata, result: 0, buf: 0, count: 0, kbuf: vec![] }
}

fn request(op: IoOp, file: u32, offset: i64, count: usize, kbuf: &[u8]) -> IoRequest<u32, u8> {
    IoRequest { op, file, userdata: 77, buf: 0x5000, count, offset, ctx: 1, kbuf: kbuf.to_vec() }
}

#[test]
fn completions_come_out_in_order() {
    let mut ctx = AsyncContext::new(0x4000);
    assert_eq!(ctx.handler, 0x4000);
    assert!(ctx.pop_one().is_none());
    for i in 0..5 {
        ctx.push_completion(completion(i));
    }
    for i in 0..5 {
        assert_eq!(ctx.pop_one().unwrap().userdata, i);
    }
    assert!(ctx.pop_one().is_none());
}

#[test]
fn completions_without_room_are_dropped() {
    let mut ctx = AsyncContext::new(1);
    for i in 0..CQ_CAP as u64 + 10 {
        ctx.push_completion(completion(i));
    }
    assert_eq!(ctx.cq.len(), 256);
    for i in 0..256 {
        assert_eq!(ctx.pop_one().unwrap().userdata, i);
    }
    assert!(ctx.pop_one().is_none());
}

#[test]
fn a_thread_gets_one_context() {
    let mut slot = None;
    assert_eq!(sys_async_setup(&mut slot, 0), Err(KernelError::InvalidInput));
    assert!(slot.is_none());
    assert_eq!(sys_async_setup(&mut slot, 0x100), Ok(0));
    assert_eq!(sys_async_setup(&mut slot, 0x200), Err(KernelError::AlreadyExists));
    assert_eq!(slot.unwrap().handler, 0x100);
}

#[test]
fn requests_are_refused_without_a_context_or_room() {
    let mut q: RequestQueue<u32, u8> = RequestQueue::new();
    let mut submit = |q: &mut RequestQueue<u32, u8>, ctx| {
        submit_io_request(q, ctx, IoOp::Write, 3, 0x10, 2, -1, 9, vec![1, 2])
    };
    assert_eq!(submit(&mut q, None), Err(KernelError::InvalidInput));
    assert!(q.pop().is_none());
    for _ in 0..REQ_QUEUE_CAP {
        assert_eq!(submit(&mut q, Some(4)), Ok(0));
    }
    assert_eq!(submit(&mut q, Some(4)), Err(KernelError::WouldBlock));
    assert_eq!(q.queue.len(), 256);
    let r = q.pop().unwrap();
    assert_eq!((r.op, r.file, r.buf, r.count, r.offset), (IoOp::Write, 3, 0x10, 2, -1));
    assert_eq!((r.userdata, r.ctx, r.kbuf), (9, 4, vec![1, 2]));
    assert_eq!(submit(&mut q, Some(4)), Ok(0));
}

#[test]
fn requests_are_limited_in_size() {
    assert_eq!(transfer_size(0), 0);
    assert_eq!(transfer_size(MAX_IO_SIZE - 1), 65535);
    assert_eq!(transfer_size(65536), 65536);
    assert_eq!(transfer_size(usize::MAX), 65536);
}

#[test]
fn a_read_asks_for_a_zeroed_buffer() {
    let mut q: RequestQueue<u32, u8> = RequestQueue::new();
    assert_eq!(
        sys_async_read(&mut q, Some(1), Err(KernelError::Other(9)), 0, 10, 0, 1),
        Err(KernelError::Other(9))
    );
    assert_eq!(
        sys_async_read(&mut q, Some(1), Ok(5), 0, 10, 0, 1),
        Err(KernelError::BadAddress)
    );
    assert_eq!(
        sys_async_read(&mut q, None, Ok(5), 0x8000, 10, 0, 1),
        Err(KernelError::InvalidInput)
    );
    assert!(q.pop().is_none());
    assert_eq!(sys_async_read(&mut q, Some(2), Ok(5), 0x8000, 100_000, 12, 34), Ok(0));
    let r = q.pop().unwrap();
    assert_eq!((r.op, r.file, r.buf, r.count, r.offset), (IoOp::Read, 5, 0x8000, 65536, 12));
    assert_eq!((r.userdata, r.ctx), (34, 2));
    assert_eq!(r.kbuf, vec![0; 65536]);
}

#[test]
fn a_write_carries_its_data() {
    let mut q: RequestQueue<u32, u8> = RequestQueue::new();
    assert_eq!(
        sys_async_write(&mut q, Some(1), Err(KernelError::Other(9)), 1, 3, 0, 1, Ok(vec![])),
        Err(KernelError::Other(9))
    );
    assert_eq!(
        sys_async_write(&mut q, Some(1), Ok(5), 1, 3, 0, 1, Err(KernelError::BadAddress)),
        Err(KernelError::BadAddress)
    );
    assert!(q.pop().is_none());
    assert_eq!(sys_async_write(&mut q, Some(2), Ok(5), 0, 3, -1, 6, Ok(vec![7, 8, 9])), Ok(0));
    let r = q.pop().unwrap();
    assert_eq!((r.op, r.file, r.buf, r.count, r.offset), (IoOp::Write, 5, 0, 3, -1));
    assert_eq!((r.userdata, r.ctx, r.kbuf), (6, 2, vec![7, 8, 9]));
}

#[test]
fn a_connection_is_requested_step_by_step() {
    let ok = ConnectInput::Done(Ok(()));
    for (domain, steps) in [(10, 2), (2, 1)] {
        let mut c = sys_async_connect();
        c.step(ConnectInput::Socket(Ok(domain)));
        assert_eq!(c.phase, ConnectPhase::ReadAddress { domain });
        c.step(ok);
        if steps == 2 {
            assert_eq!(c.phase, ConnectPhase::Normalize);
            c.step(ok);
        }
        assert_eq!(c.phase, ConnectPhase::SetNonblocking);
        c.step(ok);
        assert_eq!(c.phase, ConnectPhase::Connect);
        c.step(ConnectInput::Done(Err(KernelError::WouldBlock)));
        assert_eq!(c.phase, ConnectPhase::Submit);
        let mut q: RequestQueue<u32, u8> = RequestQueue::new();
        c.submit(&mut q, Some(3), 8, 55);
        assert_eq!(c.phase, ConnectPhase::Finished { result: Ok(0) });
        let r = q.pop().unwrap();
        assert_eq!((r.op, r.file, r.buf, r.count, r.offset), (IoOp::Connect, 8, 0, 0, 0));
        assert_eq!((r.userdata, r.ctx, r.kbuf), (55, 3, vec![]));
    }
}

#[test]
fn a_failed_connection_is_an_error() {
    let refused = KernelError::Other(111);
    let mut c = sys_async_connect();
    c.step(ConnectInput::Socket(Err(KernelError::Other(88))));
    assert_eq!(c.phase, ConnectPhase::Finished { result: Err(KernelError::Other(88)) });
    for failing in 0..4 {
        let mut c = sys_async_connect();
        c.step(ConnectInput::Socket(Ok(10)));
        for _ in 0..failing {
            c.step(ConnectInput::Done(Ok(())));
        }
        c.step(ConnectInput::Done(Err(refused)));
        assert_eq!(c.phase, ConnectPhase::Finished { result: Err(refused) });
    }
    let mut c = sys_async_connect();
    c.step(ConnectInput::Socket(Ok(2)));
    c.step(ConnectInput::Done(Ok(())));
    c.step(ConnectInput::Done(Err(KernelError::WouldBlock)));
    assert_eq!(c.phase, ConnectPhase::Finished { result: Err(KernelError::WouldBlock) });
}

#[test]
fn requests_lead_to_calls() {
    let t = |op, offset, count, kbuf: &[u8]| request(op, 1, offset, count, kbuf).transfer();
    assert_eq!(t(IoOp::Read, 0, 9, &[]), Ok(Transfer::ReadAt { offset: 0, len: 9 }));
    assert_eq!(t(IoOp::Read, -1, 9, &[]), Ok(Transfer::Read { len: 9 }));
    assert_eq!(t(IoOp::Read, i64::MIN, 9, &[]), Ok(Transfer::Read { len: 9 }));
    assert_eq!(t(IoOp::Write, 5, 2, &[1, 2]), Ok(Transfer::WriteAt { offset: 5, len: 2 }));
    assert_eq!(t(IoOp::Write, -1, 2, &[1, 2, 3]), Ok(Transfer::Write { len: 2 }));
    assert_eq!(t(IoOp::Write, -1, 3, &[1, 2]), Err(Fault::ShortBuffer));
    assert_eq!(t(IoOp::Connect, 0, 0, &[]), Ok(Transfer::Connect));
}

#[test]
fn outcomes_become_completions() {
    let read = request(IoOp::Read, 1, 0, 4, &[]);
    let e = do_io(&read, Ok(2), vec![8, 9, 0, 0]);
    assert_eq!((e.userdata, e.result, e.buf, e.count), (77, 2, 0x5000, 4));
    assert_eq!(e.kbuf, vec![8, 9, 0, 0]);
    let e = do_io(&read, Err(KernelError::WouldBlock), vec![0; 4]);
    assert_eq!((e.result, e.buf, e.count), (-11, 0x5000, 4));
    assert_eq!(do_io(&read, Ok(0), read.read_buffer()).result, 0);
    assert_eq!(do_io(&read, Err(KernelError::Other(5)), read.read_buffer()).result, -5);
    let write = request(IoOp::Write, 1, 0, 2, &[1, 2]);
    let e = do_io(&write, Ok(2), vec![1, 2]);
    assert_eq!((e.userdata, e.result, e.buf, e.count), (77, 2, 0, 0));
    assert!(e.kbuf.is_empty());
    assert_eq!(do_io(&write, Err(KernelError::BadAddress), vec![]).result, -14);
    let connect = request(IoOp::Connect, 1, 0, 0, &[]);
    let e = do_io(&connect, Ok(0), vec![]);
    assert_eq!((e.userdata, e.result, e.buf, e.count), (77, 0, 0, 0));
    assert_eq!(do_io(&connect, Err(KernelError::Other(111)), vec![]).result, -111);
}

#[test]
fn a_read_buffer_holds_what_is_asked_for() {
    for n in [0, 1, 4096] {
        let r = request(IoOp::Read, 1, 0, n, &[]);
        assert_eq!(r.read_buffer(), vec![0; n]);
        assert_eq!(do_io(&r, Ok(n), r.read_buffer()).kbuf.len(), n);
    }
}

/// Performs one round: the requests that were performed, by their files.
fn round(w: &mut IoWorker<u32, u8>, q: &mut RequestQueue<u32, u8>, ready: &[(u32, u32)]) -> Vec<u32> {
    let mut performed = Vec::new();
    let mut registered = Vec::new();
    loop {
        match w.action() {
            WorkAction::TakeRequest => {
                let r = q.pop();
                w.accept(r);
            }
            WorkAction::SetNonblocking { index } => {
                assert_eq!(index + 1, w.pending.len());
                w.done();
            }
            WorkAction::Register { index, events } => {
                let expected = if w.pending[index].op == IoOp::Read { 1 } else { 4 };
                assert_eq!(events, expected);
                registered.push(w.pending[index].file);
                w.done();
            }
            WorkAction::Poll { index } => {
                let file = w.pending[index].file;
                let events = ready.iter().find(|r| r.0 == file).map_or(0, |r| r.1);
                if let Some(r) = w.polled(events) {
                    performed.push(r.file);
                }
            }
            WorkAction::Wait => {
                w.done();
                let left: Vec<u32> = w.pending.iter().map(|r| r.file).collect();
                let mut all = [performed.clone(), left].concat();
                all.sort();
                registered.sort();
                assert_eq!(all, registered);
                return performed;
            }
        }
    }
}

#[test]
fn worker_performs_what_is_ready_and_keeps_the_rest() {
    let mut q = RequestQueue::new();
    let mut w: IoWorker<u32, u8> = IoWorker::io_worker_main();
    for file in 0..4 {
        q.push(request(IoOp::Read, file, 0, 1, &[]));
    }
    q.push(request(IoOp::Write, 4, 0, 0, &[]));
    assert_eq!(round(&mut w, &mut q, &[]), vec![]);
    assert_eq!(w.pending.len(), 5);
    assert_eq!(round(&mut w, &mut q, &[(1, 1), (2, 4), (4, 1)]), vec![1]);
    assert_eq!(round(&mut w, &mut q, &[(0, 0x11), (4, 4), (3, 1)]), vec![0, 3, 4]);
    assert_eq!(w.pending.len(), 1);
    assert_eq!(w.pending[0].file, 2);
    q.push(request(IoOp::Read, 9, 0, 1, &[]));
    assert_eq!(round(&mut w, &mut q, &[(2, 1), (9, 1)]), vec![2, 9]);
    assert_eq!(round(&mut w, &mut q, &[]), vec![]);
}

#[test]
fn worker_polls_equal_requests_one_by_one() {
    let mut w: IoWorker<u32, u8> = IoWorker::io_worker_main();
    for _ in 0..3 {
        w.accept(Some(request(IoOp::Read, 1, 0, 1, &[])));
        w.done();
    }
    w.accept(None);
    for _ in 0..3 {
        w.done();
    }
    let mut performed = 0;
    for events in [0, 1, 0] {
        assert!(matches!(w.action(), WorkAction::Poll { .. }));
        performed += w.polled(events).is_some() as usize;
    }
    assert_eq!(w.action(), WorkAction::Wait);
    assert_eq!((performed, w.pending.len()), (1, 2));
}

#[test]
fn worker_waits_for_connections_to_come_out() {
    let mut q = RequestQueue::new();
    let mut w: IoWorker<u32, u8> = IoWorker::io_worker_main();
    q.push(request(IoOp::Connect, 1, 0, 0, &[]));
    assert_eq!(round(&mut w, &mut q, &[(1, 1)]), vec![]);
    assert_eq!(round(&mut w, &mut q, &[(1, 4)]), vec![1]);
}

#[test]
fn worker_task_has_a_name_and_a_stack() {
    let t = init();
    assert_eq!(t.name, "async-io");
    assert_eq!(t.stack_size, 65536);
}

#[test]
fn a_completion_goes_to_the_context_of_its_request() {
    let r = IoRequest { ctx: 9, ..request(IoOp::Read, 1, 0, 2, &[]) };
    let (ctx, e) = r.complete(Ok(1), vec![5, 0]);
    assert_eq!(ctx, 9);
    assert_eq!((e.userdata, e.result, e.buf, e.count), (77, 1, 0x5000, 2));
    assert_eq!(e.kbuf, vec![5, 0]);
    let r = IoRequest { ctx: 4, ..request(IoOp::Write, 1, 0, 1, &[3]) };
    let (ctx, e) = r.complete(Err(KernelError::BadAddress), vec![]);
    assert_eq!((ctx, e.result), (4, -14));
}

#[test]
fn a_pass_completes_each_ready_request_once() {
    let mut contexts: Vec<AsyncContext> = (0..3).map(AsyncContext::new).collect();
    let mut w: IoWorker<u32, u8> = IoWorker::io_worker_main();
    let mut nonblocking = Vec::new();
    let mut polled = Vec::new();
    for i in 0..6u32 {
        let r = request(IoOp::Read, i, 0, 1, &[]);
        w.accept(Some(IoRequest { ctx: (i % 3) as u8, userdata: i as u64, ..r }));
        if let WorkAction::SetNonblocking { index } = w.action() {
            nonblocking.push(w.pending[index].file);
        }
        w.done();
    }
    w.accept(None);
    loop {
        match w.action() {
            WorkAction::Register { .. } => w.done(),
            WorkAction::Poll { index } => {
                let file = w.pending[index].file;
                polled.push(file);
                if let Some(r) = w.polled(u32::from(file != 1 && file != 5)) {
                    let (ctx, e) = r.complete(Ok(1), vec![file as u8]);
                    contexts[ctx as usize].push_completion(e);
                }
            }
            _ => break,
        }
    }
    assert_eq!(nonblocking, vec![0, 1, 2, 3, 4, 5]);
    polled.sort();
    assert_eq!(polled, vec![0, 1, 2, 3, 4, 5]);
    let mut left: Vec<u32> = w.pending.iter().map(|r| r.file).collect();
    left.sort();
    assert_eq!(left, vec![1, 5]);
    for (c, expected) in contexts.iter().zip([vec![0, 3], vec![4], vec![2]]) {
        let mut got: Vec<u64> = c.cq.iter().map(|e| e.userdata).collect();
        got.sort();
        assert_eq!(got, expected);
    }
}
