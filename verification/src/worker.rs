//! The worker that performs the requests for asynchronous I/O.
//!
//! The worker goes round: it takes in the requests that wait, asks to be woken
//! for each that it has, performs those whose files are ready, and waits.

use vstd::prelude::*;
use axpoll::IoEvents;
use crate::async_io::{
    completion_of,
    law_transfer,
    pushed,
    pushed_all,
    transfer_of,
    Completion,
    IoOp,
    IoRequest,
    Transfer,
    CQ_CAP,
};
use crate::error::{Fault, KernelError};

verus! {

/// How the worker's task is created.
#[derive(Clone, Copy, PartialEq, Eq, Debug)]
pub struct WorkerTask {
    pub name: &'static str,
    pub stack_size: usize,
}

/// The worker's task. It is spawned once, during boot.
pub fn init() -> (r: WorkerTask)
    ensures
        r.name@ == "async-io"@,
        r.stack_size == 0x10000,
{
    WorkerTask { name: "async-io", stack_size: 0x10000 }
}

/// The event that a file can be read.
pub const POLL_IN: u32 = 1;

/// The event that a file can be written.
pub const POLL_OUT: u32 = 4;

/// `axpoll::IoEvents::IN`. Trusted: its bit.
#[verifier::external_body]
fn readable() -> (r: u32)
    ensures
        r == POLL_IN,
{
    IoEvents::IN.bits()
}

/// `axpoll::IoEvents::OUT`. Trusted: its bit.
#[verifier::external_body]
fn writable() -> (r: u32)
    ensures
        r == POLL_OUT,
{
    IoEvents::OUT.bits()
}

/// `axpoll::IoEvents::intersects`. Trusted: whether the two sets of events have
/// one in common.
#[verifier::external_body]
fn intersects(a: u32, b: u32) -> (r: bool)
    ensures
        r == (a & b != 0),
{
    IoEvents::from_bits_retain(a).intersects(IoEvents::from_bits_retain(b))
}

/// The event that a request waits for: that its file can be read, or written. A
/// socket can be written when a connection has come out.
pub open spec fn awaited(op: IoOp) -> u32 {
    match op {
        IoOp::Read => POLL_IN,
        IoOp::Write | IoOp::Connect => POLL_OUT,
    }
}

/// Whether a request can be performed when its file reports `events`.
pub open spec fn is_ready(op: IoOp, events: u32) -> bool {
    events & awaited(op) != 0
}

/// What the worker waits for.
#[derive(Clone, Copy, PartialEq, Eq, Structural, Debug)]
pub enum WorkPhase {
    /// The next request.
    Accept,
    /// That the file of the newest request does not block.
    Nonblock,
    /// That it is woken when the file of a request is ready.
    Register { index: usize },
    /// What the file of a request reports.
    Poll { index: usize },
    /// That it is woken.
    Wait,
}

/// What is to be done next.
#[derive(Clone, Copy, PartialEq, Eq, Structural, Debug)]
pub enum WorkAction {
    /// Take the next request out of the queue.
    TakeRequest,
    /// Make the file of the pending request at `index` not block.
    SetNonblocking { index: usize },
    /// Ask to be woken for `events` on the file of the pending request at
    /// `index`.
    Register { index: usize, events: u32 },
    /// Poll the file of the pending request at `index`.
    Poll { index: usize },
    /// Wait to be woken.
    Wait,
}

/// The worker's state, as a value of the specification.
#[verifier::ext_equal]
pub ghost struct WorkState<F, C> {
    pub pending: Seq<IoRequest<F, C>>,
    pub phase: WorkPhase,
}

/// `s` without the item at `i`; the last item takes its place.
pub open spec fn swap_removed<T>(s: Seq<T>, i: int) -> Seq<T> {
    s.update(i, s.last()).drop_last()
}

impl<F, C> WorkState<F, C> {
    /// The state in which the request at `i` is polled, or else the worker
    /// waits.
    pub open spec fn poll_from(self, i: int) -> WorkState<F, C> {
        let phase = if i < self.pending.len() {
            WorkPhase::Poll { index: i as usize }
        } else {
            WorkPhase::Wait
        };
        WorkState { phase, ..self }
    }

    /// The state in which the worker asks to be woken for the request at `i`,
    /// or else goes on to poll.
    pub open spec fn register_from(self, i: int) -> WorkState<F, C> {
        if i < self.pending.len() {
            WorkState { phase: WorkPhase::Register { index: i as usize }, ..self }
        } else {
            self.poll_from(0)
        }
    }

    /// The state after the next request, if there is one.
    pub open spec fn after_request(self, req: Option<IoRequest<F, C>>) -> WorkState<F, C> {
        match req {
            Some(req) => WorkState {
                pending: self.pending.push(req),
                phase: WorkPhase::Nonblock,
            },
            None => self.register_from(0),
        }
    }

    /// The state after an action without an outcome.
    pub open spec fn after_done(self) -> WorkState<F, C> {
        match self.phase {
            WorkPhase::Nonblock | WorkPhase::Wait => WorkState { phase: WorkPhase::Accept, ..self },
            WorkPhase::Register { index } => self.register_from(index + 1),
            _ => self,
        }
    }

    /// The state after the file of the current request reported `events`, and
    /// the request if it is to be performed.
    pub open spec fn after_poll(self, events: u32) -> (WorkState<F, C>, Option<IoRequest<F, C>>) {
        match self.phase {
            WorkPhase::Poll { index } => {
                let req = self.pending[index as int];
                if is_ready(req.op, events) {
                    let rest = WorkState {
                        pending: swap_removed(self.pending, index as int),
                        ..self
                    };
                    (rest.poll_from(index as int), Some(req))
                } else {
                    (self.poll_from(index + 1), None)
                }
            },
            _ => (self, None),
        }
    }

    /// The action that the state asks for.
    pub open spec fn action(self) -> WorkAction {
        match self.phase {
            WorkPhase::Accept => WorkAction::TakeRequest,
            WorkPhase::Nonblock => WorkAction::SetNonblocking {
                index: (self.pending.len() - 1) as usize,
            },
            WorkPhase::Register { index } => WorkAction::Register {
                index,
                events: awaited(self.pending[index as int].op),
            },
            WorkPhase::Poll { index } => WorkAction::Poll { index },
            WorkPhase::Wait => WorkAction::Wait,
        }
    }

    /// Whether the current request is one of the pending ones.
    pub open spec fn wf(self) -> bool {
        match self.phase {
            WorkPhase::Register { index } | WorkPhase::Poll { index } => index < self.pending.len(),
            WorkPhase::Nonblock => self.pending.len() > 0,
            _ => true,
        }
    }
}

/// The worker.
pub struct IoWorker<F, C> {
    pub pending: Vec<IoRequest<F, C>>,
    pub phase: WorkPhase,
}

impl<F, C> View for IoWorker<F, C> {
    type V = WorkState<F, C>;

    open spec fn view(&self) -> WorkState<F, C> {
        WorkState { pending: self.pending@, phase: self.phase }
    }
}

/// The event that a request waits for.
fn event_of(op: IoOp) -> (r: u32)
    ensures
        r == awaited(op),
{
    match op {
        IoOp::Read => readable(),
        IoOp::Write | IoOp::Connect => writable(),
    }
}

impl<F, C> IoWorker<F, C> {
    /// A worker without requests.
    pub fn io_worker_main() -> (r: IoWorker<F, C>)
        ensures
            r@.wf(),
            r@ == (WorkState::<F, C> { pending: Seq::empty(), phase: WorkPhase::Accept }),
    {
        IoWorker { pending: Vec::new(), phase: WorkPhase::Accept }
    }

    /// What is to be done next.
    pub fn action(&self) -> (r: WorkAction)
        requires
            self@.wf(),
        ensures
            r == self@.action(),
    {
        match self.phase {
            WorkPhase::Accept => WorkAction::TakeRequest,
            WorkPhase::Nonblock => WorkAction::SetNonblocking { index: self.pending.len() - 1 },
            WorkPhase::Register { index } => WorkAction::Register {
                index,
                events: event_of(self.pending[index].op),
            },
            WorkPhase::Poll { index } => WorkAction::Poll { index },
            WorkPhase::Wait => WorkAction::Wait,
        }
    }

    /// Goes on to poll the request at `i`.
    fn poll_from(&mut self, i: usize)
        ensures
            final(self)@ == old(self)@.poll_from(i as int),
    {
        self.phase = if i < self.pending.len() {
            WorkPhase::Poll { index: i }
        } else {
            WorkPhase::Wait
        };
    }

    /// Goes on to register for the request at `i`.
    fn register_from(&mut self, i: usize)
        ensures
            final(self)@ == old(self)@.register_from(i as int),
    {
        if i < self.pending.len() {
            self.phase = WorkPhase::Register { index: i };
        } else {
            self.poll_from(0);
        }
    }

    /// Takes in the next request; if there is none, the round goes on.
    pub fn accept(&mut self, req: Option<IoRequest<F, C>>)
        requires
            old(self)@.wf(),
            old(self)@.phase is Accept,
        ensures
            final(self)@ == old(self)@.after_request(req),
            final(self)@.wf(),
    {
        match req {
            Some(req) => {
                self.pending.push(req);
                self.phase = WorkPhase::Nonblock;
            },
            None => self.register_from(0),
        }
    }

    /// Takes note that an action without an outcome was performed.
    pub fn done(&mut self)
        requires
            old(self)@.wf(),
            old(self)@.phase is Nonblock || old(self)@.phase is Register || old(
                self,
            )@.phase is Wait,
        ensures
            final(self)@ == old(self)@.after_done(),
            final(self)@.wf(),
    {
        assert(self.pending@.len() == self.pending.len());
        match self.phase {
            WorkPhase::Register { index } => self.register_from(index + 1),
            _ => {
                self.phase = WorkPhase::Accept;
            },
        }
    }

    /// Takes note of what the file of the current request reported. A request
    /// whose file is ready is handed out, to be performed.
    pub fn polled(&mut self, events: u32) -> (r: Option<IoRequest<F, C>>)
        requires
            old(self)@.wf(),
            old(self)@.phase is Poll,
        ensures
            (final(self)@, r) == old(self)@.after_poll(events),
            final(self)@.wf(),
    {
        assert(self.pending@.len() == self.pending.len());
        let index = match self.phase {
            WorkPhase::Poll { index } => index,
            _ => return None,
        };
        if intersects(events, event_of(self.pending[index].op)) {
            let req = self.pending.swap_remove(index);
            assert(self.pending@ =~= swap_removed(old(self)@.pending, index as int));
            self.poll_from(index);
            Some(req)
        } else {
            self.poll_from(index + 1);
            None
        }
    }
}

// ---------- A round of the worker ----------

/// A poll: the request, and what its file reported.
pub ghost struct PollResult<F, C> {
    pub req: IoRequest<F, C>,
    pub events: u32,
}

/// What polling does from `s` on, where `report` tells what is reported in each
/// poll of the round, the next one being number `n`: the polls in order, and the
/// requests that stay.
pub open spec fn poll_all<F, C>(s: WorkState<F, C>, report: spec_fn(nat) -> u32, n: nat) -> (
    Seq<PollResult<F, C>>,
    Seq<IoRequest<F, C>>,
)
    decreases
            s.pending.len() - (match s.phase {
                WorkPhase::Poll { index } => index as int,
                _ => s.pending.len() as int,
            }),
{
    match s.phase {
        WorkPhase::Poll { index } if index < s.pending.len() <= usize::MAX => {
            let poll = PollResult { req: s.pending[index as int], events: report(n) };
            let (polls, rest) = poll_all(s.after_poll(report(n)).0, report, n + 1);
            (seq![poll] + polls, rest)
        },
        _ => (Seq::empty(), s.pending),
    }
}

/// The requests whose polls found their files ready, or not ready, in order.
pub open spec fn polled_as<F, C>(polls: Seq<PollResult<F, C>>, ready: bool) -> Seq<IoRequest<F, C>>
    decreases polls.len(),
{
    if polls.len() == 0 {
        Seq::empty()
    } else {
        let rest = polled_as(polls.drop_first(), ready);
        if is_ready(polls[0].req.op, polls[0].events) == ready {
            seq![polls[0].req] + rest
        } else {
            rest
        }
    }
}

/// The requests that the worker performs from `s` on: those that polls hand out,
/// in order.
pub open spec fn performed<F, C>(s: WorkState<F, C>, report: spec_fn(nat) -> u32, n: nat) -> Seq<
    IoRequest<F, C>,
>
    decreases
            s.pending.len() - (match s.phase {
                WorkPhase::Poll { index } => index as int,
                _ => s.pending.len() as int,
            }),
{
    match s.phase {
        WorkPhase::Poll { index } if index < s.pending.len() <= usize::MAX => {
            let (t, out) = s.after_poll(report(n));
            match out {
                Some(req) => seq![req] + performed(t, report, n + 1),
                None => performed(t, report, n + 1),
            }
        },
        _ => Seq::empty(),
    }
}

/// The requests that were polled.
pub open spec fn polled_requests<F, C>(polls: Seq<PollResult<F, C>>) -> Seq<IoRequest<F, C>> {
    polls.map_values(|p: PollResult<F, C>| p.req)
}

/// Removing an item takes it out of the items from `i` on, and no other.
proof fn lemma_swap_removed<T>(s: Seq<T>, i: int)
    requires
        0 <= i < s.len(),
    ensures
        s.skip(i).to_multiset() == swap_removed(s, i).skip(i).to_multiset().insert(s[i]),
        swap_removed(s, i).take(i) == s.take(i),
{
    broadcast use vstd::multiset::group_multiset_axioms;
    broadcast use vstd::seq_lib::group_to_multiset_ensures;

    let t = s.skip(i);
    let u = swap_removed(s, i).skip(i);
    assert(swap_removed(s, i).take(i) =~= s.take(i));
    assert(t =~= t.drop_last().push(t.last()));
    if i == s.len() - 1 {
        assert(u =~= t.drop_last());
    } else {
        assert(u =~= t.drop_last().update(0, t.last()));
        vstd::seq_lib::to_multiset_update(t.drop_last(), 0, t.last());
        assert(t.drop_last()[0] == s[i]);
    }
    assert(t.to_multiset() =~= u.to_multiset().insert(s[i]));
}

/// In a round, whatever the files report, the worker polls each request exactly
/// once. It performs exactly those whose polls found their files ready, in the
/// order of the polls, and keeps the others, in the order of the polls too: none
/// is lost or done twice, though the last request takes the place of each that
/// leaves.
pub proof fn law_round<F, C>(s: WorkState<F, C>, report: spec_fn(nat) -> u32, n: nat)
    requires
        s.wf(),
        s.phase is Poll,
        s.pending.len() <= usize::MAX,
    ensures
        ({
            let i = s.phase->Poll_index as int;
            let (polls, rest) = poll_all(s, report, n);
            &&& polls.len() == s.pending.len() - i
            &&& polled_requests(polls).to_multiset() == s.pending.skip(i).to_multiset()
            &&& forall|k: int| 0 <= k < polls.len() ==> (#[trigger] polls[k]).events == report(
                (n + k) as nat,
            )
            &&& performed(s, report, n) == polled_as(polls, true)
            &&& rest == s.pending.take(i) + polled_as(polls, false)
        }),
    decreases s.pending.len() - s.phase->Poll_index,
{
    broadcast use vstd::multiset::group_multiset_axioms;
    broadcast use vstd::seq_lib::group_to_multiset_ensures;

    let i = s.phase->Poll_index as int;
    let req = s.pending[i];
    let poll = PollResult { req, events: report(n) };
    let (t, out) = s.after_poll(report(n));
    let (tail, rest) = poll_all(t, report, n + 1);
    let polls = seq![poll] + tail;
    assert(polls.drop_first() =~= tail);
    let j = if out is Some {
        i
    } else {
        i + 1
    };
    if t.phase is Poll {
        law_round(t, report, n + 1);
        assert forall|k: int| 0 <= k < polls.len() implies (#[trigger] polls[k]).events == report(
            (n + k) as nat,
        ) by {
            if k > 0 {
                assert(polls[k] == tail[k - 1]);
            }
        }
    } else {
        assert(t.pending.skip(j) =~= Seq::empty());
        assert(polled_requests(tail) =~= Seq::empty());
        assert(t.pending.take(j) =~= t.pending);
        assert(polled_as(tail, false) =~= Seq::empty());
        assert(polled_as(tail, true) =~= Seq::empty());
        assert(performed(t, report, n + 1) =~= Seq::empty());
    }
    assert(polled_requests(polls) =~= polled_requests(tail).insert(0, req));
    vstd::seq_lib::to_multiset_insert(polled_requests(tail), 0, req);
    if out is Some {
        lemma_swap_removed(s.pending, i);
    } else {
        assert(s.pending.skip(i) =~= s.pending.skip(i + 1).insert(0, req));
        vstd::seq_lib::to_multiset_insert(s.pending.skip(i + 1), 0, req);
        assert(s.pending.take(i + 1) + polled_as(tail, false) =~= s.pending.take(i) + (seq![req]
            + polled_as(tail, false)));
    }
}

// ---------- A whole pass of the worker ----------

/// What the files do in the polls of a pass, by the numbers of the polls.
pub ghost struct PassWorld {
    /// What is reported.
    pub report: spec_fn(nat) -> u32,
    /// The outcome of the call, if one is made.
    pub outcome: spec_fn(nat) -> Result<usize, KernelError>,
    /// The buffer that was read into, if one was.
    pub kbuf: spec_fn(nat) -> Seq<u8>,
}

/// What taking in the requests in `queue` does: the actions on them, and the
/// state in which the round goes on.
pub open spec fn accept_all<F, C>(s: WorkState<F, C>, queue: Seq<IoRequest<F, C>>) -> (
    Seq<WorkAction>,
    WorkState<F, C>,
)
    decreases queue.len(),
{
    if queue.len() == 0 {
        (Seq::empty(), s.after_request(None))
    } else {
        let t = s.after_request(Some(queue[0]));
        let (actions, end) = accept_all(t.after_done(), queue.drop_first());
        (seq![t.action()] + actions, end)
    }
}

/// What asking to be woken does from `s` on: the actions, and the state in which
/// the round goes on.
pub open spec fn register_all<F, C>(s: WorkState<F, C>) -> (Seq<WorkAction>, WorkState<F, C>)
    decreases
            s.pending.len() - (match s.phase {
                WorkPhase::Register { index } => index as int,
                _ => s.pending.len() as int,
            }),
{
    match s.phase {
        WorkPhase::Register { index } if index < s.pending.len() <= usize::MAX => {
            let (actions, end) = register_all(s.after_done());
            (seq![s.action()] + actions, end)
        },
        _ => (Seq::empty(), s),
    }
}

/// The completions that come of the polls from `s` on, each with the context that
/// it goes to.
pub open spec fn completions<F, C>(s: WorkState<F, C>, w: PassWorld, n: nat) -> Seq<(C, Completion)>
    decreases
            s.pending.len() - (match s.phase {
                WorkPhase::Poll { index } => index as int,
                _ => s.pending.len() as int,
            }),
{
    match s.phase {
        WorkPhase::Poll { index } if index < s.pending.len() <= usize::MAX => {
            let (t, out) = s.after_poll((w.report)(n));
            let rest = completions(t, w, n + 1);
            match out {
                Some(req) => seq![
                    (req.ctx, completion_of(req, (w.outcome)(n), (w.kbuf)(n))),
                ] + rest,
                None => rest,
            }
        },
        _ => Seq::empty(),
    }
}

/// The completions of the requests whose polls found their files ready, in the
/// order of the polls, each with the context of its own request; the first poll
/// is number `n`.
pub open spec fn owed<F, C>(polls: Seq<PollResult<F, C>>, w: PassWorld, n: nat) -> Seq<
    (C, Completion),
>
    decreases polls.len(),
{
    if polls.len() == 0 {
        Seq::empty()
    } else {
        let req = polls[0].req;
        let rest = owed(polls.drop_first(), w, n + 1);
        if is_ready(req.op, polls[0].events) {
            seq![(req.ctx, completion_of(req, (w.outcome)(n), (w.kbuf)(n)))] + rest
        } else {
            rest
        }
    }
}

/// The requests that the worker has in a pass: those that it kept, and those that
/// it takes in.
pub open spec fn at_hand<F, C>(s: WorkState<F, C>, queue: Seq<IoRequest<F, C>>) -> WorkState<F, C> {
    WorkState { pending: s.pending + queue, ..s }
}

/// Each request that is taken in joins the pending ones, in order, and its file
/// is made not to block.
proof fn lemma_accept<F, C>(s: WorkState<F, C>, queue: Seq<IoRequest<F, C>>)
    requires
        s.phase is Accept,
        s.pending.len() + queue.len() <= usize::MAX,
    ensures
        accept_all(s, queue).0 == Seq::new(
            queue.len(),
            |k: int| WorkAction::SetNonblocking { index: (s.pending.len() + k) as usize },
        ),
        accept_all(s, queue).1 == at_hand(s, queue).register_from(0),
    decreases queue.len(),
{
    if queue.len() == 0 {
        assert(s.pending + queue =~= s.pending);
    } else {
        let t = s.after_request(Some(queue[0])).after_done();
        lemma_accept(t, queue.drop_first());
        assert(t.pending + queue.drop_first() =~= s.pending + queue);
        assert(accept_all(s, queue).0 =~= Seq::new(
            queue.len(),
            |k: int| WorkAction::SetNonblocking { index: (s.pending.len() + k) as usize },
        ));
    }
}

/// The worker asks once for each pending request, in order, to be woken for the
/// event that the request waits for.
proof fn lemma_register<F, C>(s: WorkState<F, C>)
    requires
        s.wf(),
        s.phase is Register,
        s.pending.len() <= usize::MAX,
    ensures
        ({
            let i = s.phase->Register_index as int;
            &&& register_all(s).0 == Seq::new(
                (s.pending.len() - i) as nat,
                |k: int|
                    WorkAction::Register {
                        index: (i + k) as usize,
                        events: awaited(s.pending[i + k].op),
                    },
            )
            &&& register_all(s).1 == s.poll_from(0)
        }),
    decreases s.pending.len() - s.phase->Register_index,
{
    let i = s.phase->Register_index as int;
    let t = s.after_done();
    if i + 1 < s.pending.len() {
        lemma_register(t);
    } else {
        assert(register_all(t) == (Seq::<WorkAction>::empty(), t));
    }
    assert(register_all(s).0 =~= Seq::new(
        (s.pending.len() - i) as nat,
        |k: int|
            WorkAction::Register {
                index: (i + k) as usize,
                events: awaited(s.pending[i + k].op),
            },
    ));
}

/// The completions of a round are those owed for its polls.
proof fn lemma_completions<F, C>(s: WorkState<F, C>, w: PassWorld, n: nat)
    requires
        s.pending.len() <= usize::MAX,
    ensures
        completions(s, w, n) == owed(poll_all(s, w.report, n).0, w, n),
    decreases
            s.pending.len() - (match s.phase {
                WorkPhase::Poll { index } => index as int,
                _ => s.pending.len() as int,
            }),
{
    if s.phase is Poll && s.phase->Poll_index < s.pending.len() {
        let t = s.after_poll((w.report)(n)).0;
        lemma_completions(t, w, n + 1);
        let polls = poll_all(s, w.report, n).0;
        assert(polls.drop_first() =~= poll_all(t, w.report, n + 1).0);
    }
}

/// The calls that the worker makes from `s` on: one for each request that a poll
/// hands out, on the request's file.
pub open spec fn calls<F, C>(s: WorkState<F, C>, report: spec_fn(nat) -> u32, n: nat) -> Seq<
    (F, Result<Transfer, Fault>),
>
    decreases
            s.pending.len() - (match s.phase {
                WorkPhase::Poll { index } => index as int,
                _ => s.pending.len() as int,
            }),
{
    match s.phase {
        WorkPhase::Poll { index } if index < s.pending.len() <= usize::MAX => {
            let (t, out) = s.after_poll(report(n));
            let rest = calls(t, report, n + 1);
            match out {
                Some(req) => seq![(req.file, transfer_of(req))] + rest,
                None => rest,
            }
        },
        _ => Seq::empty(),
    }
}

/// Each request that is handed out has one call, on its own file, and one
/// completion, for its own context.
proof fn lemma_calls<F, C>(s: WorkState<F, C>, w: PassWorld, n: nat)
    requires
        s.pending.len() <= usize::MAX,
    ensures
        ({
            let done = performed(s, w.report, n);
            let made = calls(s, w.report, n);
            let ends = completions(s, w, n);
            &&& made.len() == done.len()
            &&& ends.len() == done.len()
            &&& forall|k: int|
                #![trigger done[k]]
                0 <= k < done.len() ==> {
                    &&& made[k] == (done[k].file, transfer_of(done[k]))
                    &&& ends[k].0 == done[k].ctx
                    &&& ends[k].1.userdata == done[k].userdata
                }
        }),
    decreases
            s.pending.len() - (match s.phase {
                WorkPhase::Poll { index } => index as int,
                _ => s.pending.len() as int,
            }),
{
    if s.phase is Poll && s.phase->Poll_index < s.pending.len() {
        let (t, out) = s.after_poll((w.report)(n));
        lemma_calls(t, w, n + 1);
        let done = performed(s, w.report, n);
        let tail = performed(t, w.report, n + 1);
        if out is Some {
            assert forall|k: int| #![trigger done[k]] 0 <= k < done.len() implies {
                &&& calls(s, w.report, n)[k] == (done[k].file, transfer_of(done[k]))
                &&& completions(s, w, n)[k].0 == done[k].ctx
                &&& completions(s, w, n)[k].1.userdata == done[k].userdata
            } by {
                if k > 0 {
                    assert(done[k] == tail[k - 1]);
                    assert(calls(s, w.report, n)[k] == calls(t, w.report, n + 1)[k - 1]);
                    assert(completions(s, w, n)[k] == completions(t, w, n + 1)[k - 1]);
                }
            }
        }
    }
}

/// In one pass the worker takes in all the requests that wait, in order, and
/// makes the file of each not block. It asks once for each request that it then
/// has to be woken, and polls each exactly once. For each that is ready, and for
/// no other, it makes one call on the request's file: at the request's offset if
/// that is zero or more and else at the file's position, for as many bytes as the
/// request counts. Of each such call it makes one completion, with the request's
/// user data, which goes to the request's own context; that request is gone. The
/// others stay. This is so whatever the files report and whatever comes of the
/// calls.
pub proof fn law_pass<F, C>(s: WorkState<F, C>, queue: Seq<IoRequest<F, C>>, w: PassWorld)
    requires
        s.phase is Accept,
        s.pending.len() + queue.len() <= usize::MAX,
    ensures
        ({
            let all = s.pending + queue;
            let (taken, s1) = accept_all(s, queue);
            let (registered, s2) = register_all(s1);
            let (polls, rest) = poll_all(s2, w.report, 0);
            let done = performed(s2, w.report, 0);
            let made = calls(s2, w.report, 0);
            let ends = completions(s2, w, 0);
            &&& taken == Seq::new(
                queue.len(),
                |k: int| WorkAction::SetNonblocking { index: (s.pending.len() + k) as usize },
            )
            &&& registered == Seq::new(
                all.len(),
                |k: int| WorkAction::Register { index: k as usize, events: awaited(all[k].op) },
            )
            &&& polls.len() == all.len()
            &&& polled_requests(polls).to_multiset() == all.to_multiset()
            &&& ends == owed(polls, w, 0)
            &&& done == polled_as(polls, true)
            &&& rest == polled_as(polls, false)
            &&& made.len() == done.len()
            &&& ends.len() == done.len()
            &&& forall|k: int|
                #![trigger done[k]]
                0 <= k < done.len() ==> {
                    let r = done[k];
                    &&& ends[k].0 == r.ctx
                    &&& ends[k].1.userdata == r.userdata
                    &&& made[k].0 == r.file
                    &&& match made[k].1 {
                        Ok(Transfer::ReadAt { offset, len }) => r.op == IoOp::Read && offset
                            == r.offset && len == r.count,
                        Ok(Transfer::Read { len }) => r.op == IoOp::Read && r.offset < 0 && len
                            == r.count,
                        Ok(Transfer::WriteAt { offset, len }) => r.op == IoOp::Write && offset
                            == r.offset && len == r.count,
                        Ok(Transfer::Write { len }) => r.op == IoOp::Write && r.offset < 0 && len
                            == r.count,
                        Ok(Transfer::Connect) => r.op == IoOp::Connect,
                        Err(_) => r.op == IoOp::Write && r.count > r.kbuf@.len(),
                    }
                }
        }),
{
    let all = s.pending + queue;
    lemma_accept(s, queue);
    let s1 = accept_all(s, queue).1;
    if all.len() > 0 {
        lemma_register(s1);
        let s2 = register_all(s1).1;
        assert(s2.pending == all);
        law_round(s2, w.report, 0);
        assert(all.skip(0) =~= all);
        assert(all.take(0) =~= Seq::empty());
        let polls = poll_all(s2, w.report, 0).0;
        assert(Seq::<IoRequest<F, C>>::empty() + polled_as(polls, false) =~= polled_as(
            polls,
            false,
        ));
    } else {
        let polls = poll_all(s1, w.report, 0).0;
        assert(polled_requests(polls) =~= all);
        assert(all =~= Seq::empty());
    }
    let s2 = register_all(s1).1;
    lemma_completions(s2, w, 0);
    lemma_calls(s2, w, 0);
    let done = performed(s2, w.report, 0);
    assert(register_all(s1).0 =~= Seq::new(
        all.len(),
        |k: int| WorkAction::Register { index: k as usize, events: awaited(all[k].op) },
    ));
    lemma_right_calls(done, calls(s2, w.report, 0));
}

/// What [`law_transfer`] says of each of the calls.
proof fn lemma_right_calls<F, C>(
    done: Seq<IoRequest<F, C>>,
    made: Seq<(F, Result<Transfer, Fault>)>,
)
    requires
        made.len() == done.len(),
        forall|k: int|
            #![trigger done[k]]
            0 <= k < done.len() ==> made[k] == (done[k].file, transfer_of(done[k])),
    ensures
        forall|k: int|
            #![trigger done[k]]
            0 <= k < done.len() ==> {
                let r = done[k];
                &&& made[k].0 == r.file
                &&& match made[k].1 {
                    Ok(Transfer::ReadAt { offset, len }) => r.op == IoOp::Read && offset == r.offset
                        && len == r.count,
                    Ok(Transfer::Read { len }) => r.op == IoOp::Read && r.offset < 0 && len
                        == r.count,
                    Ok(Transfer::WriteAt { offset, len }) => r.op == IoOp::Write && offset
                        == r.offset && len == r.count,
                    Ok(Transfer::Write { len }) => r.op == IoOp::Write && r.offset < 0 && len
                        == r.count,
                    Ok(Transfer::Connect) => r.op == IoOp::Connect,
                    Err(_) => r.op == IoOp::Write && r.count > r.kbuf@.len(),
                }
            },
{
    assert forall|k: int| #![trigger done[k]] 0 <= k < done.len() implies {
        let r = done[k];
        &&& made[k].0 == r.file
        &&& match made[k].1 {
            Ok(Transfer::ReadAt { offset, len }) => r.op == IoOp::Read && offset == r.offset && len
                == r.count,
            Ok(Transfer::Read { len }) => r.op == IoOp::Read && r.offset < 0 && len == r.count,
            Ok(Transfer::WriteAt { offset, len }) => r.op == IoOp::Write && offset == r.offset
                && len == r.count,
            Ok(Transfer::Write { len }) => r.op == IoOp::Write && r.offset < 0 && len == r.count,
            Ok(Transfer::Connect) => r.op == IoOp::Connect,
            Err(_) => r.op == IoOp::Write && r.count > r.kbuf@.len(),
        }
    } by {
        law_transfer(done[k]);
    }
}

/// The completions of all contexts after the given ones went to theirs.
pub open spec fn delivered<C>(cqs: spec_fn(C) -> Seq<Completion>, d: Seq<(C, Completion)>) -> spec_fn(
    C,
) -> Seq<Completion>
    decreases d.len(),
{
    if d.len() == 0 {
        cqs
    } else {
        let before = delivered(cqs, d.drop_last());
        |c: C|
            if c == d.last().0 {
                pushed(before(c), d.last().1, CQ_CAP as int)
            } else {
                before(c)
            }
    }
}

/// Those of the completions that go to the context `c`, in order.
pub open spec fn meant_for<C>(d: Seq<(C, Completion)>, c: C) -> Seq<Completion>
    decreases d.len(),
{
    if d.len() == 0 {
        Seq::empty()
    } else {
        let before = meant_for(d.drop_last(), c);
        if d.last().0 == c {
            before.push(d.last().1)
        } else {
            before
        }
    }
}

/// A context gets the completions that are meant for it, in order, as long as it
/// has room, and no others.
pub proof fn law_delivered<C>(cqs: spec_fn(C) -> Seq<Completion>, d: Seq<(C, Completion)>, c: C)
    ensures
        delivered(cqs, d)(c) == pushed_all(cqs(c), meant_for(d, c), CQ_CAP as int),
    decreases d.len(),
{
    if d.len() > 0 {
        law_delivered(cqs, d.drop_last(), c);
        let before = meant_for(d.drop_last(), c);
        if d.last().0 == c {
            assert(meant_for(d, c).drop_last() =~= before);
        }
    }
}

/// A read is performed exactly if its file reports that it can be read, the event
/// of value 1; a write or a connection exactly if its file reports that it can be
/// written, the event of value 4. That event is the one that the worker asks to
/// be woken for.
pub proof fn law_ready(op: IoOp, events: u32)
    ensures
        op == IoOp::Read ==> awaited(op) == 1 && (is_ready(op, events) <==> events % 2 == 1),
        op != IoOp::Read ==> awaited(op) == 4 && (is_ready(op, events) <==> events / 4 % 2 == 1),
{
    assert((events & 1 != 0) == (events % 2 == 1)) by (bit_vector);
    assert((events & 4 != 0) == (events / 4 % 2 == 1)) by (bit_vector);
}

/// A poll that finds its file ready hands out the request that was polled, and
/// only that; one that does not hands out none, and leaves all of them.
pub proof fn law_poll<F, C>(s: WorkState<F, C>, index: usize, events: u32)
    requires
        s.phase == (WorkPhase::Poll { index }),
        index < s.pending.len(),
    ensures
        ({
            let (t, out) = s.after_poll(events);
            let r = s.pending[index as int];
            let ready = if r.op == IoOp::Read {
                events % 2 == 1
            } else {
                events / 4 % 2 == 1
            };
            &&& out == if ready {
                Some(r)
            } else {
                None
            }
            &&& t.pending.len() == s.pending.len() - if ready {
                1int
            } else {
                0
            }
            &&& !ready ==> t.pending == s.pending
        }),
{
    law_ready(s.pending[index as int].op, events);
}

/// The state in which a round of polls ends.
pub open spec fn round_end<F, C>(s: WorkState<F, C>, report: spec_fn(nat) -> u32, n: nat) -> WorkState<
    F,
    C,
>
    decreases
            s.pending.len() - (match s.phase {
                WorkPhase::Poll { index } => index as int,
                _ => s.pending.len() as int,
            }),
{
    match s.phase {
        WorkPhase::Poll { index } if index < s.pending.len() <= usize::MAX => round_end(
            s.after_poll(report(n)).0,
            report,
            n + 1,
        ),
        _ => s,
    }
}

/// A round of polls ends with the worker waiting, and once it is woken it looks
/// for new requests again, with those that stayed.
pub proof fn law_worker_goes_round<F, C>(s: WorkState<F, C>, report: spec_fn(nat) -> u32, n: nat)
    requires
        s.wf(),
        s.phase is Poll || s.phase is Wait,
        s.pending.len() <= usize::MAX,
    ensures
        ({
            let end = round_end(s, report, n);
            let next = end.after_done();
            &&& end.action() == WorkAction::Wait
            &&& next.action() == WorkAction::TakeRequest
            &&& next.pending == end.pending
            &&& next.pending == poll_all(s, report, n).1
        }),
    decreases
            s.pending.len() - (match s.phase {
                WorkPhase::Poll { index } => index as int,
                _ => s.pending.len() as int,
            }),
{
    if s.phase is Poll {
        law_worker_goes_round(s.after_poll(report(n)).0, report, n + 1);
    }
}

/// Without a request to take in, a worker that has none waits; one that has some
/// goes on with them. A request that is taken in comes behind the others.
pub proof fn law_take_request<F, C>(s: WorkState<F, C>, req: IoRequest<F, C>)
    requires
        s.phase is Accept,
        s.pending.len() < usize::MAX,
    ensures
        s.after_request(None).pending == s.pending,
        s.pending.len() == 0 ==> s.after_request(None).action() == WorkAction::Wait,
        s.pending.len() > 0 ==> s.after_request(None).action() == (WorkAction::Register {
            index: 0,
            events: if s.pending[0].op == IoOp::Read {
                1
            } else {
                4
            },
        }),
        s.after_request(Some(req)).pending == s.pending.push(req),
        s.after_request(Some(req)).action() == (WorkAction::SetNonblocking {
            index: s.pending.len() as usize,
        }),
        s.after_request(Some(req)).after_done().action() == WorkAction::TakeRequest,
{
}

/// The worker's task has the name `async-io` and a stack of 64 KiB, and starts
/// without requests by looking for one.
pub proof fn law_worker_starts<F, C>(t: WorkerTask, w: IoWorker<F, C>)
    requires
        call_ensures(init, (), t),
        call_ensures(IoWorker::<F, C>::io_worker_main, (), w),
    ensures
        t.name@ == "async-io"@,
        t.stack_size == 64 * 1024,
        w@.pending.len() == 0,
        w@.action() == WorkAction::TakeRequest,
{
}

} // verus!
