//! Asynchronous I/O: requests, the worker that performs them, and the queues
//! that completions travel through.

use vstd::prelude::*;
use std::collections::VecDeque;
use crate::error::{errno, Fault, KernelError};

verus! {

/// How many completions a context holds.
pub const CQ_CAP: usize = 256;

/// How many bytes a request transfers at most.
pub const MAX_IO_SIZE: usize = 65536;

/// How many requests wait for the worker at most.
pub const REQ_QUEUE_CAP: usize = 256;

// ---------- Completions ----------

/// A completed request.
pub struct CqEntry {
    pub userdata: u64,
    /// The number of bytes transferred; zero at the end of the file; a negative
    /// error number if the request failed.
    pub result: i64,
    pub buf: usize,
    pub count: usize,
    /// What was read, to be copied to the user buffer.
    pub kbuf: Vec<u8>,
}

/// A completed request, as a value of the specification.
pub ghost struct Completion {
    pub userdata: u64,
    pub result: i64,
    pub buf: usize,
    pub count: usize,
    pub kbuf: Seq<u8>,
}

impl View for CqEntry {
    type V = Completion;

    open spec fn view(&self) -> Completion {
        Completion {
            userdata: self.userdata,
            result: self.result,
            buf: self.buf,
            count: self.count,
            kbuf: self.kbuf@,
        }
    }
}

/// A queue that holds up to `cap` items, after one more came in. Without room
/// it stays as it is.
pub open spec fn pushed<T>(queue: Seq<T>, entry: T, cap: int) -> Seq<T> {
    if queue.len() < cap {
        queue.push(entry)
    } else {
        queue
    }
}

/// The completions of a thread, and the handler that they are delivered to.
pub struct AsyncContext {
    pub cq: VecDeque<CqEntry>,
    pub handler: usize,
}

impl AsyncContext {
    /// Whether there are no more completions than fit.
    pub open spec fn wf(self) -> bool {
        self.cq@.len() <= CQ_CAP
    }

    /// A context without completions.
    pub fn new(handler: usize) -> (r: AsyncContext)
        ensures
            r.wf(),
            r.cq@ == Seq::<CqEntry>::empty(),
            r.handler == handler,
    {
        AsyncContext { cq: VecDeque::with_capacity(CQ_CAP), handler }
    }

    /// Adds a completion behind the others. It is dropped if there is no room.
    pub fn push_completion(&mut self, entry: CqEntry)
        ensures
            final(self).handler == old(self).handler,
            final(self).cq@ == pushed(old(self).cq@, entry, CQ_CAP as int),
            old(self).wf() ==> final(self).wf(),
    {
        if self.cq.len() < CQ_CAP {
            self.cq.push_back(entry);
        }
    }

    /// Takes the completion out that has been there longest.
    pub fn pop_one(&mut self) -> (r: Option<CqEntry>)
        ensures
            final(self).handler == old(self).handler,
            match r {
                Some(entry) => old(self).cq@.len() > 0 && entry == old(self).cq@[0]
                    && final(self).cq@ == old(self).cq@.drop_first(),
                None => old(self).cq@.len() == 0 && final(self).cq@ == old(self).cq@,
            },
            old(self).wf() ==> final(self).wf(),
    {
        let r = self.cq.pop_front();
        assert(r is Some ==> self.cq@ =~= old(self).cq@.drop_first());
        r
    }
}

// ---------- Requests ----------

/// What a request asks for.
#[derive(Clone, Copy, PartialEq, Eq, Structural, Debug)]
pub enum IoOp {
    Read,
    Write,
    /// The outcome of a connection that is under way.
    Connect,
}

/// A request for I/O on a file of type `F`, for a context of type `C`.
pub struct IoRequest<F, C> {
    pub op: IoOp,
    pub file: F,
    pub userdata: u64,
    /// The user buffer.
    pub buf: usize,
    pub count: usize,
    /// The offset in the file; the file's position if it is negative.
    pub offset: i64,
    pub ctx: C,
    /// What is to be written.
    pub kbuf: Vec<u8>,
}

/// The requests that wait for the worker.
pub struct RequestQueue<F, C> {
    pub queue: VecDeque<IoRequest<F, C>>,
}

impl<F, C> View for RequestQueue<F, C> {
    type V = Seq<IoRequest<F, C>>;

    open spec fn view(&self) -> Seq<IoRequest<F, C>> {
        self.queue@
    }
}

impl<F, C> RequestQueue<F, C> {
    /// Whether there are no more requests than fit.
    pub open spec fn wf(self) -> bool {
        self@.len() <= REQ_QUEUE_CAP
    }

    /// An empty queue.
    pub fn new() -> (r: RequestQueue<F, C>)
        ensures
            r.wf(),
            r@ == Seq::<IoRequest<F, C>>::empty(),
    {
        RequestQueue { queue: VecDeque::new() }
    }

    /// Adds a request behind the others, if there is room.
    pub fn push(&mut self, req: IoRequest<F, C>) -> (r: bool)
        ensures
            r == (old(self)@.len() < REQ_QUEUE_CAP),
            final(self)@ == pushed(old(self)@, req, REQ_QUEUE_CAP as int),
            old(self).wf() ==> final(self).wf(),
    {
        if self.queue.len() >= REQ_QUEUE_CAP {
            return false;
        }
        self.queue.push_back(req);
        true
    }

    /// Takes the request out that has been there longest.
    pub fn pop(&mut self) -> (r: Option<IoRequest<F, C>>)
        ensures
            match r {
                Some(req) => old(self)@.len() > 0 && req == old(self)@[0] && final(self)@
                    == old(self)@.drop_first(),
                None => old(self)@.len() == 0 && final(self)@ == old(self)@,
            },
            old(self).wf() ==> final(self).wf(),
    {
        let r = self.queue.pop_front();
        assert(r is Some ==> self@ =~= old(self)@.drop_first());
        r
    }
}

// ---------- Performing a request ----------

/// A call that performs a request.
#[derive(Clone, Copy, PartialEq, Eq, Structural, Debug)]
pub enum Transfer {
    /// Read up to `len` bytes from `offset` on.
    ReadAt { offset: u64, len: usize },
    /// Read up to `len` bytes from the file's position on.
    Read { len: usize },
    /// Write `len` bytes from `offset` on.
    WriteAt { offset: u64, len: usize },
    /// Write `len` bytes from the file's position on.
    Write { len: usize },
    /// Find out how a connection came out.
    Connect,
}

/// The call that a request leads to.
pub open spec fn transfer_of<F, C>(req: IoRequest<F, C>) -> Result<Transfer, Fault> {
    match req.op {
        IoOp::Read => if req.offset >= 0 {
            Ok(Transfer::ReadAt { offset: req.offset as u64, len: req.count })
        } else {
            Ok(Transfer::Read { len: req.count })
        },
        IoOp::Write => if req.count > req.kbuf@.len() {
            Err(Fault::ShortBuffer)
        } else if req.offset >= 0 {
            Ok(Transfer::WriteAt { offset: req.offset as u64, len: req.count })
        } else {
            Ok(Transfer::Write { len: req.count })
        },
        IoOp::Connect => Ok(Transfer::Connect),
    }
}

/// What the outcome of a call is reported as: the number of bytes, or the
/// negative error number.
pub open spec fn result_code(outcome: Result<usize, KernelError>) -> i64 {
    match outcome {
        Ok(n) => n as i64,
        Err(e) => (-(errno(e) as i64)) as i64,
    }
}

/// The completion of a request whose call had the given outcome. What was read
/// goes to the user buffer; a write or a connection leaves nothing to be copied.
pub open spec fn completion_of<F, C>(
    req: IoRequest<F, C>,
    outcome: Result<usize, KernelError>,
    kbuf: Seq<u8>,
) -> Completion {
    let result = result_code(outcome);
    match req.op {
        IoOp::Read => Completion {
            userdata: req.userdata,
            result,
            buf: req.buf,
            count: req.count,
            kbuf,
        },
        _ => Completion {
            userdata: req.userdata,
            result,
            buf: 0,
            count: 0,
            kbuf: Seq::empty(),
        },
    }
}

/// A buffer of `n` zeros.
pub open spec fn zeros(n: usize) -> Seq<u8> {
    Seq::new(n as nat, |i: int| 0u8)
}

/// Makes a buffer of `n` zeros.
pub(crate) fn make_zeros(n: usize) -> (r: Vec<u8>)
    ensures
        r@ == zeros(n),
{
    let r = vec![0u8; n];
    assert(r@ =~= zeros(n));
    r
}

impl<F, C> IoRequest<F, C> {
    /// The buffer that a read request reads into: as many zeros as the request
    /// asks for bytes.
    pub fn read_buffer(&self) -> (r: Vec<u8>)
        ensures
            r@ == zeros(self.count),
    {
        make_zeros(self.count)
    }

    /// The call that the request leads to. What is written is the start of the
    /// request's buffer.
    pub fn transfer(&self) -> (r: Result<Transfer, Fault>)
        ensures
            r == transfer_of(*self),
    {
        match self.op {
            IoOp::Read => if self.offset >= 0 {
                Ok(Transfer::ReadAt { offset: self.offset as u64, len: self.count })
            } else {
                Ok(Transfer::Read { len: self.count })
            },
            IoOp::Write => if self.count > self.kbuf.len() {
                Err(Fault::ShortBuffer)
            } else if self.offset >= 0 {
                Ok(Transfer::WriteAt { offset: self.offset as u64, len: self.count })
            } else {
                Ok(Transfer::Write { len: self.count })
            },
            IoOp::Connect => Ok(Transfer::Connect),
        }
    }
}

/// The completion of a request, after the outcome of its call. For a read,
/// `kbuf` is the buffer that was read into, which holds as many bytes as the
/// request asks for.
pub fn do_io<F, C>(
    req: &IoRequest<F, C>,
    outcome: Result<usize, KernelError>,
    kbuf: Vec<u8>,
) -> (r: CqEntry)
    requires
        transfer_of(*req) is Ok,
        req.op is Read ==> kbuf@.len() == req.count,
    ensures
        r@ == completion_of(*req, outcome, kbuf@),
{
    let result = match outcome {
        Ok(n) => n as i64,
        Err(e) => -(e.errno() as i64),
    };
    match req.op {
        IoOp::Read => CqEntry {
            userdata: req.userdata,
            result,
            buf: req.buf,
            count: req.count,
            kbuf,
        },
        IoOp::Write | IoOp::Connect => CqEntry {
            userdata: req.userdata,
            result,
            buf: 0,
            count: 0,
            kbuf: Vec::new(),
        },
    }
}

impl<F, C> IoRequest<F, C> {
    /// Completes the request, after the outcome of its call: the context that the
    /// completion goes to, which is the request's own, and the completion.
    pub fn complete(self, outcome: Result<usize, KernelError>, kbuf: Vec<u8>) -> (r: (C, CqEntry))
        requires
            transfer_of(self) is Ok,
            self.op is Read ==> kbuf@.len() == self.count,
        ensures
            r.0 == self.ctx,
            r.1@ == completion_of(self, outcome, kbuf@),
    {
        let entry = do_io(&self, outcome, kbuf);
        (self.ctx, entry)
    }
}

// ---------- Laws ----------

/// A queue that holds up to `cap` items, after all of `entries` came in.
pub open spec fn pushed_all<T>(queue: Seq<T>, entries: Seq<T>, cap: int) -> Seq<T>
    decreases entries.len(),
{
    if entries.len() == 0 {
        queue
    } else {
        pushed(pushed_all(queue, entries.drop_last(), cap), entries.last(), cap)
    }
}

/// What comes into a queue leaves it in the same order. What finds no room is
/// lost, and nothing else. So it is with the completions of a context, and with
/// the requests for the worker.
pub proof fn law_queue_order<T>(queue: Seq<T>, entries: Seq<T>, cap: int)
    requires
        queue.len() <= cap,
    ensures
        pushed_all(queue, entries, cap) == (queue + entries).take(
            if queue.len() + entries.len() < cap {
                (queue.len() + entries.len()) as int
            } else {
                cap
            },
        ),
    decreases entries.len(),
{
    if entries.len() == 0 {
        assert((queue + entries).take(queue.len() as int) =~= queue);
    } else {
        law_queue_order(queue, entries.drop_last(), cap);
        let n = queue.len() + entries.len();
        if n <= cap {
            let before = queue + entries.drop_last();
            assert(before.take(n - 1) =~= before);
            assert((queue + entries).take(n as int) =~= before.push(entries.last()));
        } else {
            assert((queue + entries).take(cap) =~= (queue + entries.drop_last()).take(cap));
        }
    }
}

/// The completion of a read holds as many bytes as the request asked for, and
/// its result counts no more of them: what is to be copied is all there.
pub proof fn law_read_buffer<F, C>(
    req: IoRequest<F, C>,
    outcome: Result<usize, KernelError>,
    kbuf: Seq<u8>,
)
    requires
        req.op is Read,
        req.count <= i64::MAX,
        kbuf.len() == req.count,
        outcome matches Ok(n) ==> n <= req.count,
    ensures
        ({
            let e = completion_of(req, outcome, kbuf);
            &&& e.count == req.count
            &&& e.kbuf.len() == req.count
            &&& outcome is Ok ==> 0 <= e.result <= e.kbuf.len()
        }),
{
}

/// A completion's result tells success from failure: it is the number of bytes
/// where the call succeeded, and below zero where it failed.
pub proof fn law_result_sign(outcome: Result<usize, KernelError>)
    requires
        match outcome {
            Ok(n) => n <= i64::MAX,
            Err(KernelError::Other(n)) => n > 0,
            Err(_) => true,
        },
    ensures
        match outcome {
            Ok(n) => result_code(outcome) == n,
            Err(e) => result_code(outcome) == -errno(e) && result_code(outcome) < 0,
        },
{
}

/// A request with an offset of zero or more leads to a call at that offset, and
/// one with a negative offset to a call at the file's position; either way for as
/// many bytes as the request counts. A write fails exactly if it counts more
/// bytes than it brings along. A connection is only asked for its outcome.
pub proof fn law_transfer<F, C>(req: IoRequest<F, C>)
    ensures
        req.op == IoOp::Read ==> match transfer_of(req) {
            Ok(Transfer::ReadAt { offset, len }) => offset == req.offset && len == req.count,
            Ok(Transfer::Read { len }) => req.offset < 0 && len == req.count,
            _ => false,
        },
        req.op == IoOp::Write ==> match transfer_of(req) {
            Ok(Transfer::WriteAt { offset, len }) => offset == req.offset && len == req.count && len
                <= req.kbuf@.len(),
            Ok(Transfer::Write { len }) => req.offset < 0 && len == req.count && len
                <= req.kbuf@.len(),
            Err(f) => f == Fault::ShortBuffer && req.count > req.kbuf@.len(),
            _ => false,
        },
        req.op == IoOp::Connect ==> transfer_of(req) == Ok::<Transfer, Fault>(Transfer::Connect),
{
}

/// A completion has the user data of its request, and for its result the number
/// of bytes or the negative error number. That of a read has the request's buffer
/// and count and all that was read; that of any other request has none of these.
pub proof fn law_completion<F, C>(
    req: IoRequest<F, C>,
    outcome: Result<usize, KernelError>,
    kbuf: Seq<u8>,
)
    requires
        outcome matches Ok(n) ==> n <= i64::MAX,
    ensures
        ({
            let e = completion_of(req, outcome, kbuf);
            &&& e.userdata == req.userdata
            &&& match outcome {
                Ok(n) => e.result == n,
                Err(f) => e.result + errno(f) == 0,
            }
            &&& if req.op == IoOp::Read {
                e.buf == req.buf && e.count == req.count && e.kbuf == kbuf
            } else {
                e.buf == 0 && e.count == 0 && e.kbuf.len() == 0
            }
        }),
{
}

/// A context holds 256 completions, and 256 requests wait for the worker; what
/// comes then is dropped. Below that, what comes in is behind all the others,
/// which stay as they are.
pub proof fn law_room<T>(queue: Seq<T>, entry: T)
    ensures
        CQ_CAP == REQ_QUEUE_CAP,
        queue.len() >= 256 ==> pushed(queue, entry, CQ_CAP as int) == queue,
        queue.len() < 256 ==> {
            let after = pushed(queue, entry, CQ_CAP as int);
            &&& after.len() == queue.len() + 1
            &&& after[queue.len() as int] == entry
            &&& forall|i: int| 0 <= i < queue.len() ==> after[i] == #[trigger] queue[i]
        },
{
}

/// A read buffer holds as many bytes as are asked for, and all of them are zero.
pub proof fn law_zeros(n: usize)
    ensures
        zeros(n).len() == n,
        forall|i: int| 0 <= i < n ==> #[trigger] zeros(n)[i] == 0,
{
}

/// The call that a request gives is at the request's offset exactly if that is zero
/// or more, and for as many bytes as the request counts; its completion goes to
/// the request's own context, with the request's user data.
pub proof fn law_request<F, C>(
    req: &IoRequest<F, C>,
    t: Result<Transfer, Fault>,
    outcome: Result<usize, KernelError>,
    kbuf: Vec<u8>,
    r: (C, CqEntry),
)
    requires
        call_ensures(IoRequest::<F, C>::transfer, (req,), t),
        call_ensures(IoRequest::<F, C>::complete, (*req, outcome, kbuf), r),
    ensures
        t matches Ok(Transfer::ReadAt { offset, len }) ==> req.op == IoOp::Read && offset
            == req.offset && len == req.count,
        t matches Ok(Transfer::Read { len }) ==> req.op == IoOp::Read && req.offset < 0 && len
            == req.count,
        t matches Ok(Transfer::WriteAt { offset, len }) ==> req.op == IoOp::Write && offset
            == req.offset && len == req.count,
        t matches Ok(Transfer::Write { len }) ==> req.op == IoOp::Write && req.offset < 0 && len
            == req.count,
        t matches Ok(Transfer::Connect) ==> req.op == IoOp::Connect,
        t is Err ==> req.op == IoOp::Write && req.count > req.kbuf@.len(),
        r.0 == req.ctx,
        r.1.userdata == req.userdata,
        req.op == IoOp::Read ==> r.1.buf == req.buf && r.1.count == req.count && r.1.kbuf@ == kbuf@,
        req.op != IoOp::Read ==> r.1.buf == 0 && r.1.kbuf@.len() == 0,
        outcome matches Ok(n) && n <= i64::MAX ==> r.1.result == outcome->Ok_0,
        outcome matches Err(e) ==> r.1.result + errno(e) == 0,
{
    law_transfer(*req);
}

} // verus!
