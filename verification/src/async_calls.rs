//! The system calls for asynchronous I/O.

use vstd::prelude::*;
use crate::async_io::{
    make_zeros,
    zeros,
    AsyncContext,
    CqEntry,
    IoOp,
    IoRequest,
    RequestQueue,
    MAX_IO_SIZE,
    REQ_QUEUE_CAP,
};
use crate::error::KernelError;

verus! {

/// Gives a thread a context with the given handler. A thread has one context
/// at most.
pub fn sys_async_setup(slot: &mut Option<AsyncContext>, handler: usize) -> (r: Result<
    isize,
    KernelError,
>)
    ensures
        if handler == 0 {
            r == Err::<isize, KernelError>(KernelError::InvalidInput) && *final(slot) == *old(slot)
        } else if *old(slot) is Some {
            r == Err::<isize, KernelError>(KernelError::AlreadyExists) && *final(slot) == *old(slot)
        } else {
            &&& r == Ok::<isize, KernelError>(0)
            &&& *final(slot) matches Some(ctx) && ctx.handler == handler && ctx.cq@ == Seq::<
                CqEntry,
            >::empty()
        },
{
    if handler == 0 {
        return Err(KernelError::InvalidInput);
    }
    if slot.is_some() {
        return Err(KernelError::AlreadyExists);
    }
    *slot = Some(AsyncContext::new(handler));
    Ok(0)
}

/// What a request asks for, as a value of the specification.
pub ghost struct Asked<F, C> {
    pub op: IoOp,
    pub file: F,
    pub userdata: u64,
    pub buf: usize,
    pub count: usize,
    pub offset: i64,
    pub ctx: C,
    pub kbuf: Seq<u8>,
}

/// What `req` asks for.
pub open spec fn asked<F, C>(req: IoRequest<F, C>) -> Asked<F, C> {
    Asked {
        op: req.op,
        file: req.file,
        userdata: req.userdata,
        buf: req.buf,
        count: req.count,
        offset: req.offset,
        ctx: req.ctx,
        kbuf: req.kbuf@,
    }
}

/// What comes of a request: it is refused if the thread has no context or the
/// queue is full, and waits behind the others if not.
pub open spec fn submission<F, C>(
    before: Seq<IoRequest<F, C>>,
    ctx: Option<C>,
    req: spec_fn(C) -> Asked<F, C>,
    after: Seq<IoRequest<F, C>>,
    r: Result<isize, KernelError>,
) -> bool {
    match ctx {
        None => r == Err::<isize, KernelError>(KernelError::InvalidInput) && after == before,
        Some(c) => if before.len() >= REQ_QUEUE_CAP {
            r == Err::<isize, KernelError>(KernelError::WouldBlock) && after == before
        } else {
            &&& r == Ok::<isize, KernelError>(0)
            &&& after.len() == before.len() + 1
            &&& after.drop_last() == before
            &&& asked(after.last()) == req(c)
        },
    }
}

/// Puts a request into the queue. The worker is to be notified where this
/// succeeds.
pub fn submit_io_request<F, C>(
    queue: &mut RequestQueue<F, C>,
    ctx: Option<C>,
    op: IoOp,
    file: F,
    buf: usize,
    n: usize,
    offset: i64,
    userdata: u64,
    kbuf: Vec<u8>,
) -> (r: Result<isize, KernelError>)
    ensures
        submission(
            old(queue)@,
            ctx,
            |c: C|
                Asked { op, file, userdata, buf, count: n, offset, ctx: c, kbuf: kbuf@ },
            final(queue)@,
            r,
        ),
        old(queue).wf() ==> final(queue).wf(),
{
    let ctx = match ctx {
        Some(c) => c,
        None => return Err(KernelError::InvalidInput),
    };
    let req = IoRequest { op, file, userdata, buf, count: n, offset, ctx, kbuf };
    if queue.push(req) {
        assert(queue@.drop_last() =~= old(queue)@);
        Ok(0)
    } else {
        Err(KernelError::WouldBlock)
    }
}

/// How many bytes a request for `count` bytes transfers.
pub open spec fn clamped(count: usize) -> usize {
    if count < MAX_IO_SIZE {
        count
    } else {
        MAX_IO_SIZE
    }
}

/// How many bytes a request for `count` bytes transfers.
pub fn transfer_size(count: usize) -> (r: usize)
    ensures
        r == clamped(count),
{
    if count < MAX_IO_SIZE {
        count
    } else {
        MAX_IO_SIZE
    }
}

/// Asks for a read. `file` is the file that the caller's descriptor stands for.
pub fn sys_async_read<F, C>(
    queue: &mut RequestQueue<F, C>,
    ctx: Option<C>,
    file: Result<F, KernelError>,
    buf: usize,
    count: usize,
    offset: i64,
    userdata: u64,
) -> (r: Result<isize, KernelError>)
    ensures
        match file {
            Err(e) => r == Err::<isize, KernelError>(e) && final(queue)@ == old(queue)@,
            Ok(file) => if buf == 0 {
                r == Err::<isize, KernelError>(KernelError::BadAddress) && final(queue)@ == old(
                    queue,
                )@
            } else {
                submission(
                    old(queue)@,
                    ctx,
                    |c: C|
                        Asked {
                            op: IoOp::Read,
                            file,
                            userdata,
                            buf,
                            count: clamped(count),
                            offset,
                            ctx: c,
                            kbuf: zeros(clamped(count)),
                        },
                    final(queue)@,
                    r,
                )
            },
        },
        old(queue).wf() ==> final(queue).wf(),
{
    let file = match file {
        Ok(file) => file,
        Err(e) => return Err(e),
    };
    if buf == 0 {
        return Err(KernelError::BadAddress);
    }
    let n = transfer_size(count);
    submit_io_request(queue, ctx, IoOp::Read, file, buf, n, offset, userdata, make_zeros(n))
}

/// Asks for a write. `file` is the file that the caller's descriptor stands
/// for, and `data` what was copied from the user buffer: as many bytes as are
/// transferred.
pub fn sys_async_write<F, C>(
    queue: &mut RequestQueue<F, C>,
    ctx: Option<C>,
    file: Result<F, KernelError>,
    buf: usize,
    count: usize,
    offset: i64,
    userdata: u64,
    data: Result<Vec<u8>, KernelError>,
) -> (r: Result<isize, KernelError>)
    requires
        file is Ok && data is Ok ==> data->Ok_0@.len() == clamped(count),
    ensures
        match (file, data) {
            (Err(e), _) => r == Err::<isize, KernelError>(e) && final(queue)@ == old(queue)@,
            (_, Err(e)) => r == Err::<isize, KernelError>(e) && final(queue)@ == old(queue)@,
            (Ok(file), Ok(data)) => submission(
                old(queue)@,
                ctx,
                |c: C|
                    Asked {
                        op: IoOp::Write,
                        file,
                        userdata,
                        buf,
                        count: clamped(count),
                        offset,
                        ctx: c,
                        kbuf: data@,
                    },
                final(queue)@,
                r,
            ),
        },
        old(queue).wf() ==> final(queue).wf(),
{
    let file = match file {
        Ok(file) => file,
        Err(e) => return Err(e),
    };
    let n = transfer_size(count);
    let kbuf = match data {
        Ok(data) => data,
        Err(e) => return Err(e),
    };
    submit_io_request(queue, ctx, IoOp::Write, file, buf, n, offset, userdata, kbuf)
}

// ---------- Connecting ----------

/// The address family of IPv6.
pub const INET6: u32 = 10;

/// `linux_raw_sys::net::AF_INET6`. Trusted: the number of the address family.
#[verifier::external_body]
fn inet6() -> (r: u32)
    ensures
        r == INET6,
{
    linux_raw_sys::net::AF_INET6
}

/// What a request for a connection waits for.
#[derive(Clone, Copy, PartialEq, Eq, Debug)]
pub enum ConnectPhase {
    /// The socket that the caller's descriptor stands for.
    Lookup,
    /// The address, from user memory.
    ReadAddress { domain: u32 },
    /// The address, in the form that the socket's protocol takes.
    Normalize,
    /// That the socket does not block.
    SetNonblocking,
    /// That the connection is under way.
    Connect,
    /// That the request waits for the worker.
    Submit,
    /// Nothing: the call is over.
    Finished { result: Result<isize, KernelError> },
}

/// The outcome of what a request for a connection waited for.
#[derive(Clone, Copy, PartialEq, Eq, Debug)]
pub enum ConnectInput {
    /// The address family of the socket.
    Socket(Result<u32, KernelError>),
    /// Whether another action succeeded.
    Done(Result<(), KernelError>),
}

/// Whether `i` is an outcome of what a request in phase `p` waits for.
pub open spec fn connect_accepts(p: ConnectPhase, i: ConnectInput) -> bool {
    match p {
        ConnectPhase::Lookup => i is Socket,
        ConnectPhase::Submit | ConnectPhase::Finished { .. } => false,
        _ => i is Done,
    }
}

/// The phase after the outcome `i`. The address is normalized for an IPv6
/// socket only. A connection that is not established at once is waited for.
pub open spec fn connect_after(p: ConnectPhase, i: ConnectInput) -> ConnectPhase {
    match (p, i) {
        (ConnectPhase::Lookup, ConnectInput::Socket(Ok(domain))) => ConnectPhase::ReadAddress {
            domain,
        },
        (ConnectPhase::ReadAddress { domain }, ConnectInput::Done(Ok(_))) => if domain == INET6 {
            ConnectPhase::Normalize
        } else {
            ConnectPhase::SetNonblocking
        },
        (ConnectPhase::Normalize, ConnectInput::Done(Ok(_))) => ConnectPhase::SetNonblocking,
        (ConnectPhase::SetNonblocking, ConnectInput::Done(Ok(_))) => ConnectPhase::Connect,
        (ConnectPhase::Connect, ConnectInput::Done(Ok(_))) => ConnectPhase::Submit,
        (ConnectPhase::Connect, ConnectInput::Done(Err(KernelError::WouldBlock))) => {
            ConnectPhase::Submit
        },
        (_, ConnectInput::Socket(Err(e))) => ConnectPhase::Finished { result: Err(e) },
        (_, ConnectInput::Done(Err(e))) => ConnectPhase::Finished { result: Err(e) },
        _ => p,
    }
}

/// A request for a connection.
#[derive(Clone, Copy, PartialEq, Eq, Debug)]
pub struct ConnectCall {
    pub phase: ConnectPhase,
}

/// Begins to ask for a connection.
pub fn sys_async_connect() -> (r: ConnectCall)
    ensures
        r.phase is Lookup,
{
    ConnectCall { phase: ConnectPhase::Lookup }
}

impl ConnectCall {
    /// Takes note of the outcome of what the request waits for.
    pub fn step(&mut self, input: ConnectInput)
        requires
            connect_accepts(old(self).phase, input),
        ensures
            final(self).phase == connect_after(old(self).phase, input),
    {
        self.phase = match (self.phase, input) {
            (ConnectPhase::Lookup, ConnectInput::Socket(Ok(domain))) => {
                ConnectPhase::ReadAddress { domain }
            },
            (ConnectPhase::ReadAddress { domain }, ConnectInput::Done(Ok(_))) => {
                if domain == inet6() {
                    ConnectPhase::Normalize
                } else {
                    ConnectPhase::SetNonblocking
                }
            },
            (ConnectPhase::Normalize, ConnectInput::Done(Ok(_))) => ConnectPhase::SetNonblocking,
            (ConnectPhase::SetNonblocking, ConnectInput::Done(Ok(_))) => ConnectPhase::Connect,
            (ConnectPhase::Connect, ConnectInput::Done(Ok(_))) => ConnectPhase::Submit,
            (ConnectPhase::Connect, ConnectInput::Done(Err(KernelError::WouldBlock))) => {
                ConnectPhase::Submit
            },
            (_, ConnectInput::Socket(Err(e))) => ConnectPhase::Finished { result: Err(e) },
            (_, ConnectInput::Done(Err(e))) => ConnectPhase::Finished { result: Err(e) },
            (phase, _) => phase,
        };
    }

    /// Hands the request to the worker.
    pub fn submit<F, C>(
        &mut self,
        queue: &mut RequestQueue<F, C>,
        ctx: Option<C>,
        socket: F,
        userdata: u64,
    )
        requires
            old(self).phase is Submit,
        ensures
            final(self).phase is Finished,
            submission(
                old(queue)@,
                ctx,
                |c: C|
                    Asked {
                        op: IoOp::Connect,
                        file: socket,
                        userdata,
                        buf: 0,
                        count: 0,
                        offset: 0,
                        ctx: c,
                        kbuf: Seq::empty(),
                    },
                final(queue)@,
                final(self).phase->Finished_result,
            ),
            old(queue).wf() ==> final(queue).wf(),
    {
        let kbuf: Vec<u8> = Vec::new();
        assert(kbuf@ =~= Seq::<u8>::empty());
        let result = submit_io_request(queue, ctx, IoOp::Connect, socket, 0, 0, 0, userdata, kbuf);
        self.phase = ConnectPhase::Finished { result };
    }
}

// ---------- Laws ----------

/// A request transfers as many bytes as it is made for, and 65536 at most.
pub proof fn law_clamped(count: usize)
    ensures
        clamped(count) <= count,
        clamped(count) <= 65536,
        clamped(count) == count || clamped(count) == 65536,
{
}

/// A request of a thread without a context is refused with `EINVAL`, and one that
/// finds 256 others waiting with `EAGAIN`; the others stay as they are. Any other
/// request waits behind them, and asks for what it was made for.
pub proof fn law_submission<F, C>(
    before: Seq<IoRequest<F, C>>,
    ctx: Option<C>,
    req: spec_fn(C) -> Asked<F, C>,
    after: Seq<IoRequest<F, C>>,
    r: Result<isize, KernelError>,
)
    requires
        submission(before, ctx, req, after, r),
    ensures
        ctx is None <==> r == Err::<isize, KernelError>(KernelError::InvalidInput),
        ctx is Some && before.len() >= 256 <==> r == Err::<isize, KernelError>(
            KernelError::WouldBlock,
        ),
        r is Err ==> after == before,
        r matches Ok(v) ==> {
            let q = after[before.len() as int];
            let a = req(ctx->0);
            &&& v == 0
            &&& after == before.push(q)
            &&& (q.op, q.file, q.ctx) == (a.op, a.file, a.ctx)
            &&& (q.userdata, q.buf, q.count, q.offset) == (a.userdata, a.buf, a.count, a.offset)
            &&& q.kbuf@ == a.kbuf
        },
{
    if r is Ok {
        assert(after =~= after.drop_last().push(after.last()));
    }
}

/// A connection is asked for in order: the socket is found and the address read;
/// the address is normalized for a socket of the family 10 and for no other; the
/// socket is made not to block; and the connection is begun. One that is
/// established and one that is under way are both handed to the worker.
pub proof fn law_connect(domain: u32)
    ensures
        ({
            let ok = ConnectInput::Done(Ok(()));
            let read = connect_after(ConnectPhase::Lookup, ConnectInput::Socket(Ok(domain)));
            let next = connect_after(read, ok);
            let ready = if domain == 10 {
                connect_after(next, ok)
            } else {
                next
            };
            let begun = connect_after(ready, ok);
            &&& read == ConnectPhase::ReadAddress { domain }
            &&& domain == 10 <==> next == ConnectPhase::Normalize
            &&& ready == ConnectPhase::SetNonblocking
            &&& begun == ConnectPhase::Connect
            &&& connect_after(begun, ok) == ConnectPhase::Submit
            &&& connect_after(begun, ConnectInput::Done(Err(KernelError::WouldBlock)))
                == ConnectPhase::Submit
            &&& connect_accepts(ConnectPhase::Lookup, ConnectInput::Socket(Ok(domain)))
            &&& connect_accepts(read, ok) && connect_accepts(next, ok) && connect_accepts(ready, ok)
            &&& connect_accepts(begun, ok)
        }),
{
}

/// What fails on the way ends the call with its error, but that the connection is
/// under way is no failure.
pub proof fn law_connect_fails(p: ConnectPhase, e: KernelError)
    requires
        !(p is Submit),
        !(p is Finished),
    ensures
        ({
            let failed = if p is Lookup {
                ConnectInput::Socket(Err(e))
            } else {
                ConnectInput::Done(Err(e))
            };
            &&& connect_accepts(p, failed)
            &&& !(p is Connect && e == KernelError::WouldBlock) ==> connect_after(p, failed) == (
            ConnectPhase::Finished { result: Err(e) })
        }),
{
}

/// A thread that has no context gets one without completions, for any handler but
/// zero; its context stays as it is if it has one, and there is none for zero.
pub proof fn law_setup(slot: &mut Option<AsyncContext>, handler: usize, r: Result<isize, KernelError>)
    requires
        call_ensures(sys_async_setup, (slot, handler), r),
    ensures
        handler == 0 <==> r == Err::<isize, KernelError>(KernelError::InvalidInput),
        handler != 0 && *old(slot) is Some <==> r == Err::<isize, KernelError>(
            KernelError::AlreadyExists,
        ),
        r is Err ==> *final(slot) == *old(slot),
        r matches Ok(v) ==> v == 0 && (*final(slot) matches Some(ctx) && ctx.handler == handler
            && ctx.cq@.len() == 0),
{
}

/// Whether nothing but one request came into a queue, behind all the others: for
/// the given operation on the given file, with these values.
pub open spec fn queued<F, C>(
    before: Seq<IoRequest<F, C>>,
    after: Seq<IoRequest<F, C>>,
    op: IoOp,
    file: F,
    ctx: C,
    userdata: u64,
    buf: usize,
    count: int,
    offset: i64,
) -> bool {
    let q = after[before.len() as int];
    &&& before.len() < 256
    &&& after == before.push(q)
    &&& q.op == op
    &&& q.file == file
    &&& q.ctx == ctx
    &&& q.userdata == userdata
    &&& q.buf == buf
    &&& q.count == count
    &&& q.offset == offset
}

/// A read is asked for on the file of the descriptor, into the buffer, at the
/// offset, with the user data, for the count or for 65536 bytes if that is less. A
/// bad descriptor is refused with its error, then a null buffer with `EFAULT`, and
/// then what is refused to any request.
pub proof fn law_read_asked<F, C>(
    queue: &mut RequestQueue<F, C>,
    ctx: Option<C>,
    file: Result<F, KernelError>,
    buf: usize,
    count: usize,
    offset: i64,
    userdata: u64,
    r: Result<isize, KernelError>,
)
    requires
        call_ensures(
            sys_async_read::<F, C>,
            (queue, ctx, file, buf, count, offset, userdata),
            r,
        ),
    ensures
        r is Err ==> final(queue)@ == old(queue)@,
        file matches Err(e) ==> r == Err::<isize, KernelError>(e),
        file is Ok && buf == 0 ==> r == Err::<isize, KernelError>(KernelError::BadAddress),
        file is Ok && buf != 0 && ctx is None ==> r == Err::<isize, KernelError>(
            KernelError::InvalidInput,
        ),
        file is Ok && buf != 0 && ctx is Some && old(queue)@.len() >= 256 ==> r == Err::<
            isize,
            KernelError,
        >(KernelError::WouldBlock),
        file is Ok && buf != 0 && ctx is Some && old(queue)@.len() < 256 ==> {
            &&& r == Ok::<isize, KernelError>(0)
            &&& queued(
                old(queue)@,
                final(queue)@,
                IoOp::Read,
                file->Ok_0,
                ctx->0,
                userdata,
                buf,
                if count < 65536 {
                    count as int
                } else {
                    65536
                },
                offset,
            )
        },
{
    if file is Ok && buf != 0 && ctx is Some && old(queue)@.len() < 256 {
        assert(final(queue)@ =~= final(queue)@.drop_last().push(final(queue)@.last()));
    }
}

/// A write is asked for on the file of the descriptor, at the offset, with the user
/// data and with what was copied from the user buffer, for the count or for 65536
/// bytes if that is less. A bad descriptor is refused with its error, then a
/// buffer that cannot be copied with its error, and then what is refused to any
/// request.
pub proof fn law_write_asked<F, C>(
    queue: &mut RequestQueue<F, C>,
    ctx: Option<C>,
    file: Result<F, KernelError>,
    buf: usize,
    count: usize,
    offset: i64,
    userdata: u64,
    data: Result<Vec<u8>, KernelError>,
    r: Result<isize, KernelError>,
)
    requires
        call_ensures(
            sys_async_write::<F, C>,
            (queue, ctx, file, buf, count, offset, userdata, data),
            r,
        ),
    ensures
        r is Err ==> final(queue)@ == old(queue)@,
        file matches Err(e) ==> r == Err::<isize, KernelError>(e),
        file is Ok ==> (data matches Err(e) ==> r == Err::<isize, KernelError>(e)),
        file is Ok && data is Ok && ctx is None ==> r == Err::<isize, KernelError>(
            KernelError::InvalidInput,
        ),
        file is Ok && data is Ok && ctx is Some && old(queue)@.len() >= 256 ==> r == Err::<
            isize,
            KernelError,
        >(KernelError::WouldBlock),
        file is Ok && data is Ok && ctx is Some && old(queue)@.len() < 256 ==> {
            &&& r == Ok::<isize, KernelError>(0)
            &&& final(queue)@[old(queue)@.len() as int].kbuf@ == (data->Ok_0)@
            &&& queued(
                old(queue)@,
                final(queue)@,
                IoOp::Write,
                file->Ok_0,
                ctx->0,
                userdata,
                buf,
                if count < 65536 {
                    count as int
                } else {
                    65536
                },
                offset,
            )
        },
{
    if file is Ok && data is Ok && ctx is Some && old(queue)@.len() < 256 {
        assert(final(queue)@ =~= final(queue)@.drop_last().push(final(queue)@.last()));
    }
}

/// A connection is asked for as a request on the socket that has nothing to
/// transfer, with the user data.
pub proof fn law_connect_asked<F, C>(
    call: &mut ConnectCall,
    queue: &mut RequestQueue<F, C>,
    ctx: Option<C>,
    socket: F,
    userdata: u64,
)
    requires
        call_ensures(ConnectCall::submit::<F, C>, (call, queue, ctx, socket, userdata), ()),
    ensures
        final(call).phase matches ConnectPhase::Finished { result } && {
            &&& result is Err ==> final(queue)@ == old(queue)@
            &&& ctx is None ==> result == Err::<isize, KernelError>(KernelError::InvalidInput)
            &&& ctx is Some && old(queue)@.len() >= 256 ==> result == Err::<isize, KernelError>(
                KernelError::WouldBlock,
            )
            &&& ctx is Some && old(queue)@.len() < 256 ==> {
                &&& result == Ok::<isize, KernelError>(0)
                &&& queued(
                    old(queue)@,
                    final(queue)@,
                    IoOp::Connect,
                    socket,
                    ctx->0,
                    userdata,
                    0,
                    0,
                    0,
                )
            }
        },
{
    if ctx is Some && old(queue)@.len() < 256 {
        assert(final(queue)@ =~= final(queue)@.drop_last().push(final(queue)@.last()));
    }
}

/// The request for a connection begins with the lookup of the socket.
pub proof fn law_connect_begins(c: ConnectCall)
    requires
        call_ensures(sys_async_connect, (), c),
    ensures
        c.phase == ConnectPhase::Lookup,
{
}

} // verus!
