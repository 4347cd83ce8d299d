//! What a user task does each time it comes back from user mode.
//!
//! `UserTask` goes round: it runs user code, handles the reason for which the
//! code stopped, delivers one completion of asynchronous I/O or else the
//! pending signals, and runs user code again, until the task is to exit.

use vstd::prelude::*;
use vstd::slice::{slice_subrange, slice_to_vec};
use crate::arch::Arch;
use crate::async_io::{completion_of, result_code, Completion, CqEntry, IoOp, IoRequest};
use crate::bytes::{law_write_then_read, law_written, le64, le_bytes};
use crate::context::{
    handler_call,
    inject_handler_call,
    law_handler_arguments,
    law_return_address,
    pushed,
    returns_by_stack,
    Injection,
    UserContext,
};
use crate::error::{Fault, KernelError};
use crate::user::{
    exit_status,
    interrupted,
    law_exit_status,
    ptrace_exit_event_code,
    ExceptionKind,
    ReturnReason,
    Signo,
    SyscallRestartInfo,
    SyscallTraceState,
    TimerState,
    TraceFlags,
    EINTR,
};

verus! {

/// What a task waits for.
#[derive(Clone, Copy, PartialEq, Eq, Structural, Debug)]
pub enum TaskPhase {
    /// That its number is written where its creator asked for it.
    WriteTid,
    /// Whether a tracer wants it to stop before it runs.
    QueryStop,
    /// That it stopped before it runs.
    FirstStop,
    /// Whether it is to exit.
    CheckExit,
    /// How it is traced, before it runs.
    QueryStep,
    /// That it is set up to run one instruction.
    SetupStep,
    /// That user code stops.
    Run,
    /// That its time is counted as the kernel's.
    EnterKernel { reason: ReturnReason },
    /// At which end of the system call a tracer waits.
    TakeEntryTrace,
    /// That it stopped at the system call's entry.
    EntryStop,
    /// Whether the tracer still waits.
    RetakeTrace,
    /// That the tracer waits at the system call's end.
    SetExitTrace,
    /// Whether a tracer is told that it is about to end.
    NotifyExit { code: i32 },
    /// That it stopped before it ends.
    ExitStop,
    /// That the system call is done.
    Syscall,
    /// Whether a tracer waits at the system call's end.
    TakeExitTrace,
    /// That it stopped at the system call's end.
    SyscallStop,
    /// Whether it stops because it runs a new program.
    TakeExecStop,
    /// That a tracer is told of the new program.
    NotifyExec,
    /// That it stopped with the new program.
    ExecStop,
    /// Whether a page fault could be handled.
    PageFault { addr: usize, flags: u32 },
    /// That other tasks had their turn.
    Yield,
    /// How it is traced, at a breakpoint.
    QueryBreak,
    /// The instruction that a breakpoint replaced, if there is one.
    TakeInsn,
    /// That the instruction is back in its place.
    RestoreInsn { addr: usize, insn: u32 },
    /// That the processor sees the instruction.
    FlushIcache,
    /// That the instruction is kept for later.
    KeepInsn { addr: usize, insn: u32 },
    /// That it stopped at the breakpoint.
    BreakStop,
    /// Whether a misaligned access could be done in its place.
    Emulate,
    /// That a signal is sent to it.
    Raise { signo: Signo },
    /// The next completion, if there is one.
    TakeCompletion,
    /// That what was read is in the user buffer.
    CopyOut { addr: usize },
    /// Whether the return address of the handler could be stored on the stack.
    PushReturn { addr: usize },
    /// Whether a signal was unblocked.
    Unblock,
    /// Whether the system call may be made again.
    QueryRestart,
    /// Whether a signal was delivered.
    CheckSignals { restart: Option<SyscallRestartInfo> },
    /// That its time is counted as its own.
    EnterUser,
    /// That the interruption is over.
    ClearInterrupt,
    /// Nothing: it exits.
    Exited,
}

/// What is to be done next.
pub enum TaskAction {
    WriteTid { addr: usize, tid: u32 },
    /// Find out whether a tracer wants the task to stop.
    QueryStop,
    /// Stop for a tracer, and say whether it made the task go on.
    PtraceStop { signo: Signo },
    QueryExit,
    QueryTrace,
    SetupSinglestep,
    /// Run user code.
    Run,
    SetTimer { timer: TimerState },
    /// Take the state of the tracing of system calls, which resets it.
    TakeSyscallTrace,
    /// Stop for a tracer of system calls, and say whether it made the task go
    /// on.
    SyscallStop { signo: Signo },
    SetSyscallTrace { state: SyscallTraceState },
    NotifyExit { code: i32 },
    HandleSyscall,
    /// Take the note that the task runs a new program.
    TakeExecStop,
    NotifyExec,
    HandlePageFault { addr: usize, flags: u32 },
    Yield,
    TakeSavedInsn,
    /// Write to the task's memory.
    WriteMemory { addr: usize, data: Vec<u8> },
    FlushIcache,
    SetSavedInsn { addr: usize, insn: u32 },
    EmulateUnaligned,
    /// Send the task a signal that it cannot ignore.
    RaiseFatal { signo: Signo },
    /// Take the next completion, with the handler of its context.
    TakeCompletion,
    /// Copy to user memory.
    UserCopy { addr: usize, data: Vec<u8> },
    /// Store a return address in user memory, and say whether all of it could be
    /// stored.
    StoreReturn { addr: usize, data: Vec<u8> },
    UnblockNextSignal,
    /// Find out whether the system call with this number may be made again.
    QueryRestart { sysno: usize },
    CheckSignals { restart: Option<SyscallRestartInfo> },
    ClearInterrupt,
    /// Nothing: the task exits.
    Exit,
}

/// What is to be done next, as a value of the specification.
pub ghost enum TaskRequest {
    WriteTid { addr: usize, tid: u32 },
    QueryStop,
    PtraceStop { signo: Signo },
    QueryExit,
    QueryTrace,
    SetupSinglestep,
    Run,
    SetTimer { timer: TimerState },
    TakeSyscallTrace,
    SyscallStop { signo: Signo },
    SetSyscallTrace { state: SyscallTraceState },
    NotifyExit { code: i32 },
    HandleSyscall,
    TakeExecStop,
    NotifyExec,
    HandlePageFault { addr: usize, flags: u32 },
    Yield,
    TakeSavedInsn,
    WriteMemory { addr: usize, data: Seq<u8> },
    FlushIcache,
    SetSavedInsn { addr: usize, insn: u32 },
    EmulateUnaligned,
    RaiseFatal { signo: Signo },
    TakeCompletion,
    UserCopy { addr: usize, data: Seq<u8> },
    StoreReturn { addr: usize, data: Seq<u8> },
    UnblockNextSignal,
    QueryRestart { sysno: usize },
    CheckSignals { restart: Option<SyscallRestartInfo> },
    ClearInterrupt,
    Exit,
}

impl View for TaskAction {
    type V = TaskRequest;

    open spec fn view(&self) -> TaskRequest {
        match *self {
            TaskAction::WriteTid { addr, tid } => TaskRequest::WriteTid { addr, tid },
            TaskAction::QueryStop => TaskRequest::QueryStop,
            TaskAction::PtraceStop { signo } => TaskRequest::PtraceStop { signo },
            TaskAction::QueryExit => TaskRequest::QueryExit,
            TaskAction::QueryTrace => TaskRequest::QueryTrace,
            TaskAction::SetupSinglestep => TaskRequest::SetupSinglestep,
            TaskAction::Run => TaskRequest::Run,
            TaskAction::SetTimer { timer } => TaskRequest::SetTimer { timer },
            TaskAction::TakeSyscallTrace => TaskRequest::TakeSyscallTrace,
            TaskAction::SyscallStop { signo } => TaskRequest::SyscallStop { signo },
            TaskAction::SetSyscallTrace { state } => TaskRequest::SetSyscallTrace { state },
            TaskAction::NotifyExit { code } => TaskRequest::NotifyExit { code },
            TaskAction::HandleSyscall => TaskRequest::HandleSyscall,
            TaskAction::TakeExecStop => TaskRequest::TakeExecStop,
            TaskAction::NotifyExec => TaskRequest::NotifyExec,
            TaskAction::HandlePageFault { addr, flags } => TaskRequest::HandlePageFault {
                addr,
                flags,
            },
            TaskAction::Yield => TaskRequest::Yield,
            TaskAction::TakeSavedInsn => TaskRequest::TakeSavedInsn,
            TaskAction::WriteMemory { addr, data } => TaskRequest::WriteMemory {
                addr,
                data: data@,
            },
            TaskAction::FlushIcache => TaskRequest::FlushIcache,
            TaskAction::SetSavedInsn { addr, insn } => TaskRequest::SetSavedInsn { addr, insn },
            TaskAction::EmulateUnaligned => TaskRequest::EmulateUnaligned,
            TaskAction::RaiseFatal { signo } => TaskRequest::RaiseFatal { signo },
            TaskAction::TakeCompletion => TaskRequest::TakeCompletion,
            TaskAction::UserCopy { addr, data } => TaskRequest::UserCopy { addr, data: data@ },
            TaskAction::StoreReturn { addr, data } => TaskRequest::StoreReturn {
                addr,
                data: data@,
            },
            TaskAction::UnblockNextSignal => TaskRequest::UnblockNextSignal,
            TaskAction::QueryRestart { sysno } => TaskRequest::QueryRestart { sysno },
            TaskAction::CheckSignals { restart } => TaskRequest::CheckSignals { restart },
            TaskAction::ClearInterrupt => TaskRequest::ClearInterrupt,
            TaskAction::Exit => TaskRequest::Exit,
        }
    }
}

/// The outcome of what a task waited for.
pub enum TaskInput {
    /// That an action was performed; whether it succeeded does not matter.
    Done,
    /// The answer to a question.
    Flag(bool),
    /// How the task is traced.
    Trace(TraceFlags),
    /// Why user code stopped, with its first argument and the number of the
    /// system call.
    Return { reason: ReturnReason, arg0: usize, sysno: usize },
    /// At which end of a system call a tracer waits.
    SyscallTrace(SyscallTraceState),
    /// An instruction that a breakpoint replaced, and its address.
    SavedInsn(Option<(usize, u32)>),
    /// Whether a signal could be sent.
    Sent(Result<(), KernelError>),
    /// A completion, and the handler that it goes to.
    Completion(Option<(usize, CqEntry)>),
    /// Whether a signal was unblocked, and what a system call returned.
    Unblocked { unblocked: bool, retval: usize },
}

/// The outcome of what a task waited for, as a value of the specification.
pub ghost enum TaskAnswer {
    Done,
    Flag(bool),
    Trace(TraceFlags),
    Return { reason: ReturnReason, arg0: usize, sysno: usize },
    SyscallTrace(SyscallTraceState),
    SavedInsn(Option<(usize, u32)>),
    Sent(Result<(), KernelError>),
    Completion(Option<(usize, Completion)>),
    Unblocked { unblocked: bool, retval: usize },
}

impl View for TaskInput {
    type V = TaskAnswer;

    open spec fn view(&self) -> TaskAnswer {
        match *self {
            TaskInput::Done => TaskAnswer::Done,
            TaskInput::Flag(b) => TaskAnswer::Flag(b),
            TaskInput::Trace(t) => TaskAnswer::Trace(t),
            TaskInput::Return { reason, arg0, sysno } => TaskAnswer::Return {
                reason,
                arg0,
                sysno,
            },
            TaskInput::SyscallTrace(t) => TaskAnswer::SyscallTrace(t),
            TaskInput::SavedInsn(i) => TaskAnswer::SavedInsn(i),
            TaskInput::Sent(r) => TaskAnswer::Sent(r),
            TaskInput::Completion(None) => TaskAnswer::Completion(None),
            TaskInput::Completion(Some((handler, e))) => TaskAnswer::Completion(
                Some((handler, e@)),
            ),
            TaskInput::Unblocked { unblocked, retval } => TaskAnswer::Unblocked {
                unblocked,
                retval,
            },
        }
    }
}

/// The state of a task, as a value of the specification.
#[verifier::ext_equal]
pub ghost struct TaskState {
    pub arch: Arch,
    pub tid: u32,
    pub set_child_tid: usize,
    /// The first argument and the number of the system call, when user code
    /// stopped.
    pub saved_a0: usize,
    pub saved_sysno: usize,
    /// Whether user code made a system call.
    pub is_syscall: bool,
    /// What the last exception was about.
    pub kind: ExceptionKind,
    /// The completion that is being delivered.
    pub handler: usize,
    pub userdata: u64,
    pub result: i64,
    /// What is to be written to user memory.
    pub data: Seq<u8>,
    pub phase: TaskPhase,
}

/// The bytes of the 16-bit number in the lower half of `insn`.
pub open spec fn insn_bytes(insn: u32) -> Seq<u8> {
    let v = insn as u16;
    seq![(v % 0x100) as u8, (v / 0x100) as u8]
}

impl TaskState {
    /// The state in another phase.
    pub open spec fn at(self, phase: TaskPhase) -> TaskState {
        TaskState { phase, ..self }
    }

    /// What follows the start of a system call: a tracer is told if the task is
    /// about to end.
    pub open spec fn exit_event(self) -> TaskState {
        match exit_status(self.arch, self.saved_sysno, self.saved_a0) {
            Some(code) => self.at(TaskPhase::NotifyExit { code }),
            None => self.at(TaskPhase::Syscall),
        }
    }

    /// What an exception leads to if no tracer takes it: the signal that the
    /// task is sent. A processor that cannot do misaligned accesses has them
    /// done in its place.
    pub open spec fn signal(self, kind: ExceptionKind) -> TaskState {
        match kind {
            ExceptionKind::Misaligned => if self.arch == Arch::Loongarch64 {
                self.at(TaskPhase::Emulate)
            } else {
                self.at(TaskPhase::Raise { signo: Signo::Bus })
            },
            ExceptionKind::IllegalInstruction => self.at(TaskPhase::Raise { signo: Signo::Ill }),
            ExceptionKind::Breakpoint | ExceptionKind::Other => self.at(
                TaskPhase::Raise { signo: Signo::Trap },
            ),
        }
    }

    /// What follows when user code stopped for the given reason.
    pub open spec fn dispatch(self, reason: ReturnReason) -> TaskState {
        match reason {
            ReturnReason::Syscall => self.at(TaskPhase::TakeEntryTrace),
            ReturnReason::PageFault { addr, flags } => self.at(TaskPhase::PageFault { addr, flags }),
            ReturnReason::Interrupt => self.at(TaskPhase::Yield),
            ReturnReason::Exception(kind) => {
                let s = TaskState { kind, ..self };
                if kind == ExceptionKind::Breakpoint {
                    s.at(TaskPhase::QueryBreak)
                } else {
                    s.signal(kind)
                }
            },
            ReturnReason::Other => self.at(TaskPhase::Raise { signo: Signo::Segv }),
        }
    }

    /// What follows when nothing is left to be stored: the task runs the handler
    /// next, if there is room on the stack.
    pub open spec fn redirect(self, c: UserContext) -> (TaskState, UserContext) {
        match handler_call(self.arch, c, self.handler, self.userdata, self.result) {
            Some(d) => (self.at(TaskPhase::EnterUser), d),
            None => (self.at(TaskPhase::CheckExit), c),
        }
    }

    /// What follows when the completion's data is in place: the handler is
    /// called, after its return address is stored if it belongs on the stack.
    pub open spec fn inject(self, c: UserContext) -> (TaskState, UserContext) {
        match handler_call(self.arch, c, self.handler, self.userdata, self.result) {
            Some(d) if returns_by_stack(self.arch) => (
                TaskState { data: le_bytes(c.ip as u64), ..self }.at(
                    TaskPhase::PushReturn { addr: d.sp },
                ),
                c,
            ),
            _ => self.redirect(c),
        }
    }

    /// What follows when there is a completion to deliver: what was read is
    /// copied to the user buffer, and the handler is called.
    pub open spec fn deliver(self, handler: usize, e: Completion, c: UserContext) -> Result<
        (TaskState, UserContext),
        Fault,
    > {
        let s = TaskState {
            handler,
            userdata: e.userdata,
            result: e.result,
            ..self
        };
        if e.result > 0 && e.buf != 0 {
            if e.result as usize > e.kbuf.len() {
                Err(Fault::ShortBuffer)
            } else {
                Ok(
                    (
                        TaskState { data: e.kbuf.take((e.result as usize) as int), ..s }.at(
                            TaskPhase::CopyOut { addr: e.buf },
                        ),
                        c,
                    ),
                )
            }
        } else {
            Ok(s.inject(c))
        }
    }

    /// The state after an action whose outcome does not matter.
    pub open spec fn after_done(self, c: UserContext) -> (TaskState, UserContext) {
        match self.phase {
            TaskPhase::WriteTid => (self.at(TaskPhase::QueryStop), c),
            TaskPhase::SetupStep => (self.at(TaskPhase::Run), c),
            TaskPhase::EnterKernel { reason } => (self.dispatch(reason), c),
            TaskPhase::SetExitTrace => (self.exit_event(), c),
            TaskPhase::Syscall => (self.at(TaskPhase::TakeExitTrace), c),
            TaskPhase::NotifyExec => (self.at(TaskPhase::ExecStop), c),
            TaskPhase::Yield => (self.at(TaskPhase::TakeCompletion), c),
            TaskPhase::RestoreInsn { .. } => if self.arch == Arch::Riscv64 {
                (self.at(TaskPhase::FlushIcache), c)
            } else {
                (self.at(TaskPhase::BreakStop), c)
            },
            TaskPhase::FlushIcache | TaskPhase::KeepInsn { .. } => (
                self.at(TaskPhase::BreakStop),
                c,
            ),
            TaskPhase::CopyOut { .. } => self.inject(c),
            TaskPhase::EnterUser => (self.at(TaskPhase::ClearInterrupt), c),
            TaskPhase::ClearInterrupt => (self.at(TaskPhase::CheckExit), c),
            _ => (self, c),
        }
    }

    /// The state and the registers after it was tried to store the return address
    /// of a handler. If it could not be stored, the handler is not called.
    pub open spec fn after_store(self, c: UserContext, stored: bool) -> (TaskState, UserContext) {
        if stored {
            self.redirect(c)
        } else {
            (self.at(TaskPhase::CheckExit), c)
        }
    }

    /// The state after the answer to a question.
    pub open spec fn after_flag(self, b: bool) -> TaskState {
        match self.phase {
            TaskPhase::QueryStop => self.at(
                if b {
                    TaskPhase::FirstStop
                } else {
                    TaskPhase::CheckExit
                },
            ),
            TaskPhase::FirstStop => self.at(TaskPhase::CheckExit),
            TaskPhase::CheckExit => self.at(
                if b {
                    TaskPhase::Exited
                } else {
                    TaskPhase::QueryStep
                },
            ),
            TaskPhase::EntryStop => if b {
                self.at(TaskPhase::RetakeTrace)
            } else {
                self.exit_event()
            },
            TaskPhase::NotifyExit { .. } => self.at(
                if b {
                    TaskPhase::ExitStop
                } else {
                    TaskPhase::Syscall
                },
            ),
            TaskPhase::ExitStop => self.at(TaskPhase::Syscall),
            TaskPhase::SyscallStop => self.at(TaskPhase::TakeExecStop),
            TaskPhase::TakeExecStop => self.at(
                if b {
                    TaskPhase::NotifyExec
                } else {
                    TaskPhase::TakeCompletion
                },
            ),
            TaskPhase::ExecStop => self.at(
                if b {
                    TaskPhase::CheckExit
                } else {
                    TaskPhase::TakeCompletion
                },
            ),
            TaskPhase::PageFault { .. } => self.at(
                if b {
                    TaskPhase::TakeCompletion
                } else {
                    TaskPhase::Raise { signo: Signo::Segv }
                },
            ),
            TaskPhase::BreakStop => if b {
                self.at(TaskPhase::TakeCompletion)
            } else {
                self.signal(self.kind)
            },
            TaskPhase::Emulate => self.at(
                if b {
                    TaskPhase::TakeCompletion
                } else {
                    TaskPhase::Raise { signo: Signo::Bus }
                },
            ),
            TaskPhase::QueryRestart => {
                let info = SyscallRestartInfo {
                    saved_a0: self.saved_a0,
                    saved_sysno: self.saved_sysno,
                };
                self.at(
                    TaskPhase::CheckSignals {
                        restart: if b {
                            Some(info)
                        } else {
                            None
                        },
                    },
                )
            },
            TaskPhase::CheckSignals { .. } => self.at(
                if b {
                    TaskPhase::CheckSignals { restart: None }
                } else {
                    TaskPhase::EnterUser
                },
            ),
            _ => self,
        }
    }

    /// The state after the task learned how it is traced.
    pub open spec fn after_trace(self, t: TraceFlags) -> TaskState {
        let traced = t.traceme || t.attached;
        match self.phase {
            TaskPhase::QueryStep => self.at(
                if t.singlestep && traced && self.arch == Arch::Riscv64 {
                    TaskPhase::SetupStep
                } else {
                    TaskPhase::Run
                },
            ),
            TaskPhase::QueryBreak => if traced {
                self.at(TaskPhase::TakeInsn)
            } else {
                self.signal(self.kind)
            },
            _ => self,
        }
    }

    /// The state after the task learned at which end of a system call a tracer
    /// waits.
    pub open spec fn after_syscall_trace(self, t: SyscallTraceState) -> TaskState {
        match self.phase {
            TaskPhase::TakeEntryTrace => if t == SyscallTraceState::Entry {
                self.at(TaskPhase::EntryStop)
            } else {
                self.exit_event()
            },
            TaskPhase::RetakeTrace => if t == SyscallTraceState::Neither {
                self.exit_event()
            } else {
                self.at(TaskPhase::SetExitTrace)
            },
            TaskPhase::TakeExitTrace => self.at(
                if t == SyscallTraceState::Exit {
                    TaskPhase::SyscallStop
                } else {
                    TaskPhase::TakeExecStop
                },
            ),
            _ => self,
        }
    }

    /// The state after the task learned which instruction a breakpoint
    /// replaced. It is put back if the task is there.
    pub open spec fn after_insn(self, saved: Option<(usize, u32)>, c: UserContext) -> TaskState {
        match saved {
            None => self.at(TaskPhase::BreakStop),
            Some((addr, insn)) => self.at(
                if addr == c.ip {
                    TaskPhase::RestoreInsn { addr, insn }
                } else {
                    TaskPhase::KeepInsn { addr, insn }
                },
            ),
        }
    }

    /// The state after it was tried to unblock a signal. A system call that was
    /// interrupted may be made again.
    pub open spec fn after_unblock(self, unblocked: bool, retval: usize) -> TaskState {
        self.at(
            if unblocked {
                TaskPhase::EnterUser
            } else if self.is_syscall && retval as isize == -EINTR {
                TaskPhase::QueryRestart
            } else {
                TaskPhase::CheckSignals { restart: None }
            },
        )
    }

    /// The state and the registers after the outcome `a`.
    pub open spec fn after(self, c: UserContext, a: TaskAnswer) -> Result<
        (TaskState, UserContext),
        Fault,
    > {
        match a {
            TaskAnswer::Done => Ok(self.after_done(c)),
            TaskAnswer::Flag(b) => if self.phase is PushReturn {
                Ok(self.after_store(c, b))
            } else {
                Ok((self.after_flag(b), c))
            },
            TaskAnswer::Trace(t) => Ok((self.after_trace(t), c)),
            TaskAnswer::Return { reason, arg0, sysno } => Ok(
                (
                    TaskState {
                        saved_a0: arg0,
                        saved_sysno: sysno,
                        is_syscall: reason is Syscall,
                        ..self
                    }.at(TaskPhase::EnterKernel { reason }),
                    c,
                ),
            ),
            TaskAnswer::SyscallTrace(t) => Ok((self.after_syscall_trace(t), c)),
            TaskAnswer::SavedInsn(i) => Ok((self.after_insn(i, c), c)),
            TaskAnswer::Sent(Ok(_)) => Ok((self.at(TaskPhase::TakeCompletion), c)),
            TaskAnswer::Sent(Err(_)) => Err(Fault::Signal),
            TaskAnswer::Completion(Some((handler, e))) => self.deliver(handler, e, c),
            TaskAnswer::Completion(None) => Ok((self.at(TaskPhase::Unblock), c)),
            TaskAnswer::Unblocked { unblocked, retval } => Ok(
                (self.after_unblock(unblocked, retval), c),
            ),
        }
    }

    /// Whether `a` is an outcome of what the state waits for.
    pub open spec fn accepts(self, a: TaskAnswer) -> bool {
        match self.phase {
            TaskPhase::WriteTid | TaskPhase::SetupStep | TaskPhase::EnterKernel { .. }
            | TaskPhase::SetExitTrace | TaskPhase::Syscall | TaskPhase::NotifyExec
            | TaskPhase::Yield | TaskPhase::RestoreInsn { .. } | TaskPhase::FlushIcache
            | TaskPhase::KeepInsn { .. } | TaskPhase::CopyOut { .. } | TaskPhase::EnterUser
            | TaskPhase::ClearInterrupt => {
                a is Done
            },
            TaskPhase::QueryStep | TaskPhase::QueryBreak => a is Trace,
            TaskPhase::Run => a is Return,
            TaskPhase::TakeEntryTrace | TaskPhase::RetakeTrace | TaskPhase::TakeExitTrace => {
                a is SyscallTrace
            },
            TaskPhase::TakeInsn => a is SavedInsn,
            TaskPhase::Raise { .. } => a is Sent,
            TaskPhase::TakeCompletion => a is Completion,
            TaskPhase::Unblock => a is Unblocked,
            TaskPhase::Exited => false,
            _ => a is Flag,
        }
    }

    /// The action that the state asks for.
    pub open spec fn request(self) -> TaskRequest {
        match self.phase {
            TaskPhase::WriteTid => TaskRequest::WriteTid {
                addr: self.set_child_tid,
                tid: self.tid,
            },
            TaskPhase::QueryStop => TaskRequest::QueryStop,
            TaskPhase::FirstStop => TaskRequest::PtraceStop { signo: Signo::Stop },
            TaskPhase::CheckExit => TaskRequest::QueryExit,
            TaskPhase::QueryStep | TaskPhase::QueryBreak => TaskRequest::QueryTrace,
            TaskPhase::SetupStep => TaskRequest::SetupSinglestep,
            TaskPhase::Run => TaskRequest::Run,
            TaskPhase::EnterKernel { .. } => TaskRequest::SetTimer { timer: TimerState::Kernel },
            TaskPhase::TakeEntryTrace | TaskPhase::RetakeTrace | TaskPhase::TakeExitTrace => {
                TaskRequest::TakeSyscallTrace
            },
            TaskPhase::EntryStop | TaskPhase::SyscallStop => TaskRequest::SyscallStop {
                signo: Signo::Trap,
            },
            TaskPhase::SetExitTrace => TaskRequest::SetSyscallTrace {
                state: SyscallTraceState::Exit,
            },
            TaskPhase::NotifyExit { code } => TaskRequest::NotifyExit { code },
            TaskPhase::ExitStop | TaskPhase::ExecStop | TaskPhase::BreakStop => {
                TaskRequest::PtraceStop { signo: Signo::Trap }
            },
            TaskPhase::Syscall => TaskRequest::HandleSyscall,
            TaskPhase::TakeExecStop => TaskRequest::TakeExecStop,
            TaskPhase::NotifyExec => TaskRequest::NotifyExec,
            TaskPhase::PageFault { addr, flags } => TaskRequest::HandlePageFault { addr, flags },
            TaskPhase::Yield => TaskRequest::Yield,
            TaskPhase::TakeInsn => TaskRequest::TakeSavedInsn,
            TaskPhase::RestoreInsn { addr, insn } => TaskRequest::WriteMemory {
                addr,
                data: insn_bytes(insn),
            },
            TaskPhase::FlushIcache => TaskRequest::FlushIcache,
            TaskPhase::KeepInsn { addr, insn } => TaskRequest::SetSavedInsn { addr, insn },
            TaskPhase::Emulate => TaskRequest::EmulateUnaligned,
            TaskPhase::Raise { signo } => TaskRequest::RaiseFatal { signo },
            TaskPhase::TakeCompletion => TaskRequest::TakeCompletion,
            TaskPhase::CopyOut { addr } => TaskRequest::UserCopy { addr, data: self.data },
            TaskPhase::PushReturn { addr } => TaskRequest::StoreReturn { addr, data: self.data },
            TaskPhase::Unblock => TaskRequest::UnblockNextSignal,
            TaskPhase::QueryRestart => TaskRequest::QueryRestart { sysno: self.saved_sysno },
            TaskPhase::CheckSignals { restart } => TaskRequest::CheckSignals { restart },
            TaskPhase::EnterUser => TaskRequest::SetTimer { timer: TimerState::User },
            TaskPhase::ClearInterrupt => TaskRequest::ClearInterrupt,
            TaskPhase::Exited => TaskRequest::Exit,
        }
    }
}

/// A user task.
pub struct UserTask {
    pub arch: Arch,
    pub tid: u32,
    pub set_child_tid: usize,
    pub saved_a0: usize,
    pub saved_sysno: usize,
    pub is_syscall: bool,
    pub kind: ExceptionKind,
    pub handler: usize,
    pub userdata: u64,
    pub result: i64,
    pub data: Vec<u8>,
    pub phase: TaskPhase,
}

impl View for UserTask {
    type V = TaskState;

    open spec fn view(&self) -> TaskState {
        TaskState {
            arch: self.arch,
            tid: self.tid,
            set_child_tid: self.set_child_tid,
            saved_a0: self.saved_a0,
            saved_sysno: self.saved_sysno,
            is_syscall: self.is_syscall,
            kind: self.kind,
            handler: self.handler,
            userdata: self.userdata,
            result: self.result,
            data: self.data@,
            phase: self.phase,
        }
    }
}

/// A user task that has not run yet.
pub struct NewTask {
    pub arch: Arch,
    pub name: String,
    /// The size of the stack that the kernel uses on behalf of the task.
    pub stack_size: usize,
    pub set_child_tid: usize,
}

/// Creates a user task. Nothing of it runs before it is started.
pub fn new_user_task(
    arch: Arch,
    name: &str,
    kernel_stack_size: usize,
    set_child_tid: usize,
) -> (r: NewTask)
    ensures
        r.arch == arch,
        r.name@ == name@,
        r.stack_size == kernel_stack_size,
        r.set_child_tid == set_child_tid,
{
    NewTask { arch, name: name.to_owned(), stack_size: kernel_stack_size, set_child_tid }
}

impl NewTask {
    /// Starts the task, which has the number `id`. If `set_child_tid` is not
    /// zero, the number is written there before user code runs; whether that
    /// succeeds does not matter.
    pub fn start(&self, id: u64) -> (r: UserTask)
        ensures
            r@ == (TaskState {
                arch: self.arch,
                tid: id as u32,
                set_child_tid: self.set_child_tid,
                saved_a0: 0,
                saved_sysno: 0,
                is_syscall: false,
                kind: ExceptionKind::Other,
                handler: 0,
                userdata: 0,
                result: 0,
                data: Seq::empty(),
                phase: if self.set_child_tid != 0 {
                    TaskPhase::WriteTid
                } else {
                    TaskPhase::QueryStop
                },
            }),
    {
        UserTask {
            arch: self.arch,
            tid: id as u32,
            set_child_tid: self.set_child_tid,
            saved_a0: 0,
            saved_sysno: 0,
            is_syscall: false,
            kind: ExceptionKind::Other,
            handler: 0,
            userdata: 0,
            result: 0,
            data: Vec::new(),
            phase: if self.set_child_tid != 0 {
                TaskPhase::WriteTid
            } else {
                TaskPhase::QueryStop
            },
        }
    }
}

/// The bytes of the 16-bit number in the lower half of `insn`.
fn make_insn_bytes(insn: u32) -> (r: Vec<u8>)
    ensures
        r@ == insn_bytes(insn),
{
    let v = insn as u16;
    vec![(v % 0x100) as u8, (v / 0x100) as u8]
}

/// Whether a call leaves the return address in a register, not on the stack.
fn returns_by_register(arch: Arch) -> (r: bool)
    ensures
        r == !returns_by_stack(arch),
{
    match arch {
        Arch::X86_64 => false,
        _ => true,
    }
}

impl UserTask {
    /// What is to be done next.
    pub fn action(&self) -> (r: TaskAction)
        ensures
            r@ == self@.request(),
    {
        match self.phase {
            TaskPhase::WriteTid => TaskAction::WriteTid {
                addr: self.set_child_tid,
                tid: self.tid,
            },
            TaskPhase::QueryStop => TaskAction::QueryStop,
            TaskPhase::FirstStop => TaskAction::PtraceStop { signo: Signo::Stop },
            TaskPhase::CheckExit => TaskAction::QueryExit,
            TaskPhase::QueryStep | TaskPhase::QueryBreak => TaskAction::QueryTrace,
            TaskPhase::SetupStep => TaskAction::SetupSinglestep,
            TaskPhase::Run => TaskAction::Run,
            TaskPhase::EnterKernel { .. } => TaskAction::SetTimer { timer: TimerState::Kernel },
            TaskPhase::TakeEntryTrace | TaskPhase::RetakeTrace | TaskPhase::TakeExitTrace => {
                TaskAction::TakeSyscallTrace
            },
            TaskPhase::EntryStop | TaskPhase::SyscallStop => TaskAction::SyscallStop {
                signo: Signo::Trap,
            },
            TaskPhase::SetExitTrace => TaskAction::SetSyscallTrace {
                state: SyscallTraceState::Exit,
            },
            TaskPhase::NotifyExit { code } => TaskAction::NotifyExit { code },
            TaskPhase::ExitStop | TaskPhase::ExecStop | TaskPhase::BreakStop => {
                TaskAction::PtraceStop { signo: Signo::Trap }
            },
            TaskPhase::Syscall => TaskAction::HandleSyscall,
            TaskPhase::TakeExecStop => TaskAction::TakeExecStop,
            TaskPhase::NotifyExec => TaskAction::NotifyExec,
            TaskPhase::PageFault { addr, flags } => TaskAction::HandlePageFault { addr, flags },
            TaskPhase::Yield => TaskAction::Yield,
            TaskPhase::TakeInsn => TaskAction::TakeSavedInsn,
            TaskPhase::RestoreInsn { addr, insn } => TaskAction::WriteMemory {
                addr,
                data: make_insn_bytes(insn),
            },
            TaskPhase::FlushIcache => TaskAction::FlushIcache,
            TaskPhase::KeepInsn { addr, insn } => TaskAction::SetSavedInsn { addr, insn },
            TaskPhase::Emulate => TaskAction::EmulateUnaligned,
            TaskPhase::Raise { signo } => TaskAction::RaiseFatal { signo },
            TaskPhase::TakeCompletion => TaskAction::TakeCompletion,
            TaskPhase::CopyOut { addr } => TaskAction::UserCopy {
                addr,
                data: slice_to_vec(self.data.as_slice()),
            },
            TaskPhase::PushReturn { addr } => TaskAction::StoreReturn {
                addr,
                data: slice_to_vec(self.data.as_slice()),
            },
            TaskPhase::Unblock => TaskAction::UnblockNextSignal,
            TaskPhase::QueryRestart => TaskAction::QueryRestart { sysno: self.saved_sysno },
            TaskPhase::CheckSignals { restart } => TaskAction::CheckSignals { restart },
            TaskPhase::EnterUser => TaskAction::SetTimer { timer: TimerState::User },
            TaskPhase::ClearInterrupt => TaskAction::ClearInterrupt,
            TaskPhase::Exited => TaskAction::Exit,
        }
    }

    /// What follows the start of a system call.
    fn exit_event(&self) -> (r: TaskPhase)
        ensures
            self@.at(r) == self@.exit_event(),
    {
        match ptrace_exit_event_code(self.arch, self.saved_sysno, self.saved_a0) {
            Some(code) => TaskPhase::NotifyExit { code },
            None => TaskPhase::Syscall,
        }
    }

    /// What an exception leads to if no tracer takes it.
    fn signal(&self, kind: ExceptionKind) -> (r: TaskPhase)
        ensures
            self@.at(r) == self@.signal(kind),
    {
        match kind {
            ExceptionKind::Misaligned => match self.arch {
                Arch::Loongarch64 => TaskPhase::Emulate,
                _ => TaskPhase::Raise { signo: Signo::Bus },
            },
            ExceptionKind::IllegalInstruction => TaskPhase::Raise { signo: Signo::Ill },
            ExceptionKind::Breakpoint | ExceptionKind::Other => TaskPhase::Raise {
                signo: Signo::Trap,
            },
        }
    }

    /// Goes on by the reason for which user code stopped.
    fn dispatch(&mut self, reason: ReturnReason)
        ensures
            final(self)@ == old(self)@.dispatch(reason),
    {
        self.phase = match reason {
            ReturnReason::Syscall => TaskPhase::TakeEntryTrace,
            ReturnReason::PageFault { addr, flags } => TaskPhase::PageFault { addr, flags },
            ReturnReason::Interrupt => TaskPhase::Yield,
            ReturnReason::Exception(kind) => {
                self.kind = kind;
                match kind {
                    ExceptionKind::Breakpoint => TaskPhase::QueryBreak,
                    _ => self.signal(kind),
                }
            },
            ReturnReason::Other => TaskPhase::Raise { signo: Signo::Segv },
        };
    }

    /// Has the handler of a completion called.
    fn inject(&mut self, uctx: &mut UserContext)
        ensures
            (final(self)@, *final(uctx)) == old(self)@.inject(*old(uctx)),
    {
        match inject_handler_call(self.arch, uctx, self.handler, self.userdata, self.result) {
            Injection::NoRoom => {
                self.phase = TaskPhase::CheckExit;
            },
            Injection::Ready => {
                self.phase = TaskPhase::EnterUser;
            },
            Injection::Push { addr, data } => {
                self.data = data;
                self.phase = TaskPhase::PushReturn { addr };
            },
        }
    }

    /// Takes note of whether the return address of a handler could be stored.
    fn stored(&mut self, uctx: &mut UserContext, stored: bool)
        ensures
            (final(self)@, *final(uctx)) == old(self)@.after_store(*old(uctx), stored),
    {
        if !returns_by_register(self.arch) && uctx.sp >= 8 {
            let called = pushed(uctx, self.handler, self.userdata, self.result, stored);
            self.phase = if called {
                TaskPhase::EnterUser
            } else {
                TaskPhase::CheckExit
            };
        } else if stored {
            self.inject(uctx);
        } else {
            self.phase = TaskPhase::CheckExit;
        }
    }

    /// Delivers a completion.
    fn deliver(&mut self, uctx: &mut UserContext, handler: usize, e: CqEntry) -> (r: Result<
        (),
        Fault,
    >)
        ensures
            match old(self)@.deliver(handler, e@, *old(uctx)) {
                Ok((s, c)) => r is Ok && final(self)@ == s && *final(uctx) == c,
                Err(f) => r == Err::<(), Fault>(f),
            },
    {
        self.handler = handler;
        self.userdata = e.userdata;
        self.result = e.result;
        if e.result > 0 && e.buf != 0 {
            let n = e.result as usize;
            if n > e.kbuf.len() {
                return Err(Fault::ShortBuffer);
            }
            self.data = slice_to_vec(slice_subrange(e.kbuf.as_slice(), 0, n));
            assert(self.data@ =~= e.kbuf@.take(n as int));
            self.phase = TaskPhase::CopyOut { addr: e.buf };
        } else {
            self.inject(uctx);
        }
        Ok(())
    }

    /// Takes note of an action whose outcome does not matter.
    fn done(&mut self, uctx: &mut UserContext)
        ensures
            (final(self)@, *final(uctx)) == old(self)@.after_done(*old(uctx)),
    {
        match self.phase {
            TaskPhase::WriteTid => {
                self.phase = TaskPhase::QueryStop;
            },
            TaskPhase::SetupStep => {
                self.phase = TaskPhase::Run;
            },
            TaskPhase::EnterKernel { reason } => self.dispatch(reason),
            TaskPhase::SetExitTrace => {
                self.phase = self.exit_event();
            },
            TaskPhase::Syscall => {
                self.phase = TaskPhase::TakeExitTrace;
            },
            TaskPhase::NotifyExec => {
                self.phase = TaskPhase::ExecStop;
            },
            TaskPhase::Yield => {
                self.phase = TaskPhase::TakeCompletion;
            },
            TaskPhase::RestoreInsn { .. } => {
                self.phase = match self.arch {
                    Arch::Riscv64 => TaskPhase::FlushIcache,
                    _ => TaskPhase::BreakStop,
                };
            },
            TaskPhase::FlushIcache | TaskPhase::KeepInsn { .. } => {
                self.phase = TaskPhase::BreakStop;
            },
            TaskPhase::CopyOut { .. } => self.inject(uctx),
            TaskPhase::EnterUser => {
                self.phase = TaskPhase::ClearInterrupt;
            },
            TaskPhase::ClearInterrupt => {
                self.phase = TaskPhase::CheckExit;
            },
            _ => {},
        }
    }

    /// Takes note of the answer to a question.
    fn flag(&mut self, b: bool)
        ensures
            final(self)@ == old(self)@.after_flag(b),
    {
        self.phase = match self.phase {
            TaskPhase::QueryStop => if b {
                TaskPhase::FirstStop
            } else {
                TaskPhase::CheckExit
            },
            TaskPhase::FirstStop => TaskPhase::CheckExit,
            TaskPhase::CheckExit => if b {
                TaskPhase::Exited
            } else {
                TaskPhase::QueryStep
            },
            TaskPhase::EntryStop => if b {
                TaskPhase::RetakeTrace
            } else {
                self.exit_event()
            },
            TaskPhase::NotifyExit { .. } => if b {
                TaskPhase::ExitStop
            } else {
                TaskPhase::Syscall
            },
            TaskPhase::ExitStop => TaskPhase::Syscall,
            TaskPhase::SyscallStop => TaskPhase::TakeExecStop,
            TaskPhase::TakeExecStop => if b {
                TaskPhase::NotifyExec
            } else {
                TaskPhase::TakeCompletion
            },
            TaskPhase::ExecStop => if b {
                TaskPhase::CheckExit
            } else {
                TaskPhase::TakeCompletion
            },
            TaskPhase::PageFault { .. } => if b {
                TaskPhase::TakeCompletion
            } else {
                TaskPhase::Raise { signo: Signo::Segv }
            },
            TaskPhase::BreakStop => if b {
                TaskPhase::TakeCompletion
            } else {
                self.signal(self.kind)
            },
            TaskPhase::Emulate => if b {
                TaskPhase::TakeCompletion
            } else {
                TaskPhase::Raise { signo: Signo::Bus }
            },
            TaskPhase::QueryRestart => {
                let restart = if b {
                    Some(
                        SyscallRestartInfo {
                            saved_a0: self.saved_a0,
                            saved_sysno: self.saved_sysno,
                        },
                    )
                } else {
                    None
                };
                TaskPhase::CheckSignals { restart }
            },
            TaskPhase::CheckSignals { .. } => if b {
                TaskPhase::CheckSignals { restart: None }
            } else {
                TaskPhase::EnterUser
            },
            phase => phase,
        };
    }

    /// Takes note of how the task is traced.
    fn traced(&mut self, t: TraceFlags)
        ensures
            final(self)@ == old(self)@.after_trace(t),
    {
        let traced = t.traceme || t.attached;
        self.phase = match self.phase {
            TaskPhase::QueryStep => if t.singlestep && traced && self.arch == Arch::Riscv64 {
                TaskPhase::SetupStep
            } else {
                TaskPhase::Run
            },
            TaskPhase::QueryBreak => if traced {
                TaskPhase::TakeInsn
            } else {
                self.signal(self.kind)
            },
            phase => phase,
        };
    }

    /// Takes note of the end of a system call at which a tracer waits.
    fn syscall_traced(&mut self, t: SyscallTraceState)
        ensures
            final(self)@ == old(self)@.after_syscall_trace(t),
    {
        self.phase = match self.phase {
            TaskPhase::TakeEntryTrace => if t == SyscallTraceState::Entry {
                TaskPhase::EntryStop
            } else {
                self.exit_event()
            },
            TaskPhase::RetakeTrace => if t == SyscallTraceState::Neither {
                self.exit_event()
            } else {
                TaskPhase::SetExitTrace
            },
            TaskPhase::TakeExitTrace => if t == SyscallTraceState::Exit {
                TaskPhase::SyscallStop
            } else {
                TaskPhase::TakeExecStop
            },
            phase => phase,
        };
    }

    /// Takes note of the outcome of the action that was asked for. `uctx` holds
    /// the registers of the task.
    pub fn step(&mut self, uctx: &mut UserContext, input: TaskInput) -> (r: Result<(), Fault>)
        requires
            old(self)@.accepts(input@),
        ensures
            match old(self)@.after(*old(uctx), input@) {
                Ok((s, c)) => r is Ok && final(self)@ == s && *final(uctx) == c,
                Err(f) => r == Err::<(), Fault>(f),
            },
    {
        match input {
            TaskInput::Done => self.done(uctx),
            TaskInput::Flag(b) => match self.phase {
                TaskPhase::PushReturn { .. } => self.stored(uctx, b),
                _ => self.flag(b),
            },
            TaskInput::Trace(t) => self.traced(t),
            TaskInput::Return { reason, arg0, sysno } => {
                self.saved_a0 = arg0;
                self.saved_sysno = sysno;
                self.is_syscall = match reason {
                    ReturnReason::Syscall => true,
                    _ => false,
                };
                self.phase = TaskPhase::EnterKernel { reason };
            },
            TaskInput::SyscallTrace(t) => self.syscall_traced(t),
            TaskInput::SavedInsn(saved) => {
                self.phase = match saved {
                    None => TaskPhase::BreakStop,
                    Some((addr, insn)) => if addr == uctx.ip {
                        TaskPhase::RestoreInsn { addr, insn }
                    } else {
                        TaskPhase::KeepInsn { addr, insn }
                    },
                };
            },
            TaskInput::Sent(Ok(_)) => {
                self.phase = TaskPhase::TakeCompletion;
            },
            TaskInput::Sent(Err(_)) => return Err(Fault::Signal),
            TaskInput::Completion(Some((handler, e))) => return self.deliver(uctx, handler, e),
            TaskInput::Completion(None) => {
                self.phase = TaskPhase::Unblock;
            },
            TaskInput::Unblocked { unblocked, retval } => {
                self.phase = if unblocked {
                    TaskPhase::EnterUser
                } else if self.is_syscall && retval as isize == -(interrupted() as isize) {
                    TaskPhase::QueryRestart
                } else {
                    TaskPhase::CheckSignals { restart: None }
                };
            },
        }
        Ok(())
    }
}

// ---------- Laws ----------

/// Where a phase stands within a pass, from one run of user code to the next.
pub open spec fn rank(p: TaskPhase) -> int {
    match p {
        TaskPhase::WriteTid => 0,
        TaskPhase::QueryStop => 1,
        TaskPhase::FirstStop => 2,
        TaskPhase::CheckExit => 3,
        TaskPhase::QueryStep => 4,
        TaskPhase::SetupStep => 5,
        TaskPhase::Run => 6,
        TaskPhase::EnterKernel { .. } => 7,
        TaskPhase::TakeEntryTrace => 8,
        TaskPhase::EntryStop => 9,
        TaskPhase::RetakeTrace => 10,
        TaskPhase::SetExitTrace => 11,
        TaskPhase::NotifyExit { .. } => 12,
        TaskPhase::ExitStop => 13,
        TaskPhase::Syscall => 14,
        TaskPhase::TakeExitTrace => 15,
        TaskPhase::SyscallStop => 16,
        TaskPhase::TakeExecStop => 17,
        TaskPhase::NotifyExec => 18,
        TaskPhase::ExecStop => 19,
        TaskPhase::PageFault { .. } => 20,
        TaskPhase::Yield => 21,
        TaskPhase::QueryBreak => 22,
        TaskPhase::TakeInsn => 23,
        TaskPhase::RestoreInsn { .. } => 24,
        TaskPhase::FlushIcache => 25,
        TaskPhase::KeepInsn { .. } => 26,
        TaskPhase::BreakStop => 27,
        TaskPhase::Emulate => 28,
        TaskPhase::Raise { .. } => 29,
        TaskPhase::TakeCompletion => 30,
        TaskPhase::CopyOut { .. } => 31,
        TaskPhase::PushReturn { .. } => 32,
        TaskPhase::Unblock => 33,
        TaskPhase::QueryRestart => 34,
        TaskPhase::CheckSignals { .. } => 35,
        TaskPhase::EnterUser => 36,
        TaskPhase::ClearInterrupt => 37,
        TaskPhase::Exited => 38,
    }
}

/// Whether the phase `q` may follow `p`: it comes later in the pass, or starts the
/// next one, or the next signal is delivered.
#[verifier::opaque]
pub open spec fn ordered(p: TaskPhase, q: TaskPhase) -> bool {
    ||| rank(q) > rank(p)
    ||| q is CheckExit
    ||| p is CheckSignals && q is CheckSignals
}

/// A handler is called, or not, before the task looks for signals.
proof fn lemma_inject_ordered(s: TaskState, c: UserContext, p: TaskPhase)
    requires
        rank(p) <= rank(TaskPhase::CopyOut { addr: 0 }),
    ensures
        ordered(p, s.inject(c).0.phase),
{
    reveal(ordered);
}

proof fn lemma_dispatch_ordered(s: TaskState, reason: ReturnReason)
    requires
        s.phase == (TaskPhase::EnterKernel { reason }),
    ensures
        ordered(s.phase, s.dispatch(reason).phase),
{
    reveal(ordered);
}

/// The phases that nothing is asked in.
proof fn lemma_done_ordered(s: TaskState, c: UserContext)
    requires
        s.accepts(TaskAnswer::Done),
    ensures
        ordered(s.phase, s.after_done(c).0.phase),
{
    match s.phase {
        TaskPhase::EnterKernel { reason } => lemma_dispatch_ordered(s, reason),
        TaskPhase::CopyOut { .. } => lemma_inject_ordered(s, c, s.phase),
        _ => {
            reveal(ordered);
        },
    }
}

/// The phases with a question.
proof fn lemma_flag_ordered(s: TaskState, b: bool)
    requires
        s.accepts(TaskAnswer::Flag(b)),
        !(s.phase is PushReturn),
    ensures
        ordered(s.phase, s.after_flag(b).phase),
{
    reveal(ordered);
}

/// The phases that ask how the task is traced.
proof fn lemma_trace_ordered(s: TaskState, t: TraceFlags)
    requires
        s.accepts(TaskAnswer::Trace(t)),
    ensures
        ordered(s.phase, s.after_trace(t).phase),
{
    reveal(ordered);
}

/// The phases that ask where in a system call a tracer waits.
proof fn lemma_syscall_trace_ordered(s: TaskState, t: SyscallTraceState)
    requires
        s.accepts(TaskAnswer::SyscallTrace(t)),
    ensures
        ordered(s.phase, s.after_syscall_trace(t).phase),
{
    reveal(ordered);
}

/// The delivery of a completion.
proof fn lemma_deliver_ordered(s: TaskState, c: UserContext, handler: usize, e: Completion)
    requires
        s.phase is TakeCompletion,
        s.deliver(handler, e, c) is Ok,
    ensures
        ordered(s.phase, (s.deliver(handler, e, c)->Ok_0).0.phase),
{
    if e.result > 0 && e.buf != 0 {
        reveal(ordered);
    } else {
        let t = TaskState { handler, userdata: e.userdata, result: e.result, ..s };
        lemma_inject_ordered(t, c, s.phase);
    }
}

/// The other phases, each with an answer of its own.
proof fn lemma_answer_ordered(s: TaskState, c: UserContext, a: TaskAnswer)
    requires
        s.accepts(a),
        s.after(c, a) is Ok,
        match a {
            TaskAnswer::Return { .. } | TaskAnswer::SavedInsn(_) | TaskAnswer::Sent(_)
            | TaskAnswer::Completion(None) | TaskAnswer::Unblocked { .. } => true,
            TaskAnswer::Flag(_) => s.phase is PushReturn,
            _ => false,
        },
    ensures
        ordered(s.phase, (s.after(c, a)->Ok_0).0.phase),
{
    reveal(ordered);
}

/// A task never goes back within a pass, and repeats nothing but the delivery
/// of signals. So in each pass it runs user code once, handles at most one
/// system call, and delivers at most one completion.
#[verifier::spinoff_prover]
pub proof fn law_pass_order(s: TaskState, c: UserContext, a: TaskAnswer)
    requires
        s.accepts(a),
        s.after(c, a) is Ok,
    ensures
        ordered(s.phase, (s.after(c, a)->Ok_0).0.phase),
{
    match a {
        TaskAnswer::Done => lemma_done_ordered(s, c),
        TaskAnswer::Flag(b) => if s.phase is PushReturn {
            lemma_answer_ordered(s, c, a);
        } else {
            lemma_flag_ordered(s, b);
        },
        TaskAnswer::Trace(t) => lemma_trace_ordered(s, t),
        TaskAnswer::SyscallTrace(t) => lemma_syscall_trace_ordered(s, t),
        TaskAnswer::Completion(Some((handler, e))) => lemma_deliver_ordered(s, c, handler, e),
        _ => lemma_answer_ordered(s, c, a),
    }
}

/// A system call that user code made is handled, whatever a tracer does: every
/// way from the start of the call leads there.
#[verifier::spinoff_prover]
pub proof fn law_syscall_handled(s: TaskState, c: UserContext, a: TaskAnswer)
    requires
        s.accepts(a),
        s.phase == (TaskPhase::EnterKernel { reason: ReturnReason::Syscall }) || rank(
            TaskPhase::TakeEntryTrace,
        ) <= rank(s.phase) < rank(TaskPhase::Syscall),
    ensures
        s.after(c, a) is Ok,
        rank(s.phase) < rank((s.after(c, a)->Ok_0).0.phase) <= rank(TaskPhase::Syscall),
{
}

/// After user code stopped, the task comes to look for a completion, whatever
/// the reason was. Only a task that stopped with a new program, and was made to
/// go on, starts its next pass without that.
#[verifier::spinoff_prover]
pub proof fn law_completion_looked_for(s: TaskState, c: UserContext, a: TaskAnswer)
    requires
        s.accepts(a),
        s.after(c, a) is Ok,
        rank(TaskPhase::Run) < rank(s.phase) < rank(TaskPhase::TakeCompletion),
    ensures
        ({
            let t = (s.after(c, a)->Ok_0).0;
            if s.phase is ExecStop && a == TaskAnswer::Flag(true) {
                t.phase is CheckExit
            } else {
                rank(s.phase) < rank(t.phase) <= rank(TaskPhase::TakeCompletion)
            }
        }),
{
}

/// A task exits only where it looks whether it is to, before it runs user code
/// again; and it runs no user code unless it has looked.
pub proof fn law_exit_checked(s: TaskState, c: UserContext, a: TaskAnswer)
    requires
        s.accepts(a),
        s.after(c, a) is Ok,
    ensures
        ({
            let t = (s.after(c, a)->Ok_0).0;
            &&& t.phase is Exited <==> s.phase is CheckExit && a == TaskAnswer::Flag(true)
            &&& t.phase is QueryStep ==> s.phase is CheckExit && a == TaskAnswer::Flag(false)
            &&& t.phase is SetupStep ==> s.phase is QueryStep
            &&& t.phase is Run ==> s.phase is QueryStep || s.phase is SetupStep
        }),
{
}

/// The state after `n` signals were delivered.
pub open spec fn after_signals(s: TaskState, n: nat) -> TaskState
    decreases n,
{
    if n == 0 {
        s
    } else {
        after_signals(s, (n - 1) as nat).after_flag(true)
    }
}

/// The first signal that is delivered decides whether an interrupted system
/// call is made again: the ones after it are delivered without the decision.
pub proof fn law_restart_once(s: TaskState, n: nat)
    requires
        s.phase is CheckSignals,
        n > 0,
    ensures
        after_signals(s, n).phase == (TaskPhase::CheckSignals { restart: None }),
    decreases n,
{
    if n > 1 {
        law_restart_once(s, (n - 1) as nat);
    } else {
        assert(after_signals(s, 0) == s);
    }
}

/// A system call is made again only if it was interrupted and its kind allows
/// it, and then with the registers with which it was made.
pub proof fn law_restart(s: TaskState, c: UserContext, a: TaskAnswer)
    requires
        s.accepts(a),
        s.after(c, a) is Ok,
    ensures
        ({
            let t = (s.after(c, a)->Ok_0).0;
            &&& t.phase is QueryRestart ==> s.phase is Unblock && s.is_syscall && (
            a matches TaskAnswer::Unblocked { unblocked, retval } && !unblocked && retval as isize
                == -EINTR)
            &&& t.phase matches TaskPhase::CheckSignals { restart: Some(info) } ==> {
                &&& s.phase is QueryRestart
                &&& a == TaskAnswer::Flag(true)
                &&& info.saved_a0 == s.saved_a0
                &&& info.saved_sysno == s.saved_sysno
            }
        }),
{
}

/// The state and the registers once what was read is in the user buffer.
pub open spec fn copied(s: TaskState, c: UserContext, e: Completion) -> (TaskState, UserContext) {
    if e.result > 0 && e.buf != 0 {
        s.after(c, TaskAnswer::Done)->Ok_0
    } else {
        (s, c)
    }
}

/// When the handler of a completion is called, what was read is in the user
/// buffer, its return address is stored if it belongs on the stack, and it gets
/// the completion's user data and result. Until then the registers are as they
/// were, and they stay so if there is no room on the stack or the return address
/// cannot be stored: then the handler is not called.
pub proof fn law_delivery(
    s: TaskState,
    c: UserContext,
    handler: usize,
    e: Completion,
    stored: bool,
)
    requires
        s.phase is TakeCompletion,
        e.result > 0 ==> e.result as usize <= e.kbuf.len(),
    ensures
        s.after(c, TaskAnswer::Completion(Some((handler, e)))) is Ok,
        ({
            let (t, d) = s.after(c, TaskAnswer::Completion(Some((handler, e))))->Ok_0;
            let (u, f) = copied(t, d, e);
            let (v, g) = u.after(f, TaskAnswer::Flag(stored))->Ok_0;
            let call = handler_call(s.arch, c, handler, e.userdata, e.result);
            &&& e.result > 0 && e.buf != 0 ==> d == c && t.request() == (TaskRequest::UserCopy {
                addr: e.buf,
                data: e.kbuf.take((e.result as usize) as int),
            })
            &&& match call {
                None => f == c && u.phase is CheckExit,
                Some(h) => if !returns_by_stack(s.arch) {
                    f == h && u.phase is EnterUser
                } else {
                    &&& f == c
                    &&& u.request() == (TaskRequest::StoreReturn {
                        addr: h.sp,
                        data: le_bytes(c.ip as u64),
                    })
                    &&& u.after(f, TaskAnswer::Flag(stored)) is Ok
                    &&& if stored {
                        g == h && v.phase is EnterUser
                    } else {
                        g == c && v.phase is CheckExit
                    }
                },
            }
        }),
{
}

/// What a read request read is what the task finds in the buffer that it asked
/// to have it in, byte for byte. A write request changes no user memory.
pub proof fn law_read_delivered<F, C>(
    s: TaskState,
    c: UserContext,
    handler: usize,
    req: IoRequest<F, C>,
    outcome: Result<usize, KernelError>,
    kbuf: Seq<u8>,
)
    requires
        s.phase is TakeCompletion,
        kbuf.len() == req.count <= i64::MAX,
        outcome matches Ok(n) ==> n <= req.count,
        outcome matches Err(KernelError::Other(n)) ==> n > 0,
    ensures
        ({
            let e = completion_of(req, outcome, kbuf);
            let r = s.after(c, TaskAnswer::Completion(Some((handler, e))));
            &&& r is Ok
            &&& if req.op == IoOp::Read && req.buf != 0 && (outcome matches Ok(n) && n > 0) {
                (r->Ok_0).0.request() == (TaskRequest::UserCopy {
                    addr: req.buf,
                    data: kbuf.take(outcome->Ok_0 as int),
                })
            } else {
                !((r->Ok_0).0.phase is CopyOut)
            }
        }),
{
    if let Ok(n) = outcome {
        assert(result_code(outcome) == n);
        assert((n as i64) as usize == n);
    }
}

// ---------- What a task does, question by question ----------

/// The state after an outcome that is no fault.
pub open spec fn next(s: TaskState, c: UserContext, a: TaskAnswer) -> TaskState {
    (s.after(c, a)->Ok_0).0
}

/// Whether `a` is an outcome of what the state waits for, and the task then asks
/// for `q`, with its registers as they were.
pub open spec fn leads_to(s: TaskState, c: UserContext, a: TaskAnswer, q: TaskRequest) -> bool {
    &&& s.accepts(a)
    &&& s.after(c, a) matches Ok((t, d)) && t.request() == q && d == c
}

/// A task has its number written where its creator asked for it, stops with
/// `SIGSTOP` if a tracer wants it to, and then looks whether it is to exit,
/// whatever the stop came to.
pub proof fn law_task_starts(s: TaskState, c: UserContext, stop: bool, resumed: bool)
    ensures
        s.phase is WriteTid ==> {
            &&& s.request() == (TaskRequest::WriteTid { addr: s.set_child_tid, tid: s.tid })
            &&& leads_to(s, c, TaskAnswer::Done, TaskRequest::QueryStop)
        },
        s.phase is QueryStop ==> if stop {
            let t = next(s, c, TaskAnswer::Flag(true));
            &&& leads_to(
                s,
                c,
                TaskAnswer::Flag(true),
                TaskRequest::PtraceStop { signo: Signo::Stop },
            )
            &&& leads_to(t, c, TaskAnswer::Flag(resumed), TaskRequest::QueryExit)
        } else {
            leads_to(s, c, TaskAnswer::Flag(false), TaskRequest::QueryExit)
        },
{
}

/// A task that is to exit does. Otherwise it runs user code, on RISC-V for one
/// instruction if its process is stepped and traced in either way; and it takes
/// note of why the code stopped, of its first argument and of the number of the
/// system call.
pub proof fn law_task_runs(
    s: TaskState,
    c: UserContext,
    t: TraceFlags,
    reason: ReturnReason,
    arg0: usize,
    sysno: usize,
)
    ensures
        s.phase is CheckExit ==> {
            let a = next(s, c, TaskAnswer::Flag(false));
            let step = t.singlestep && (t.traceme || t.attached) && s.arch == Arch::Riscv64;
            let b = next(a, c, TaskAnswer::Trace(t));
            &&& leads_to(s, c, TaskAnswer::Flag(true), TaskRequest::Exit)
            &&& leads_to(s, c, TaskAnswer::Flag(false), TaskRequest::QueryTrace)
            &&& step ==> leads_to(a, c, TaskAnswer::Trace(t), TaskRequest::SetupSinglestep)
                && leads_to(b, c, TaskAnswer::Done, TaskRequest::Run)
            &&& !step ==> leads_to(a, c, TaskAnswer::Trace(t), TaskRequest::Run)
        },
        s.phase is Run ==> {
            let a = TaskAnswer::Return { reason, arg0, sysno };
            let n = next(s, c, a);
            &&& leads_to(s, c, a, TaskRequest::SetTimer { timer: TimerState::Kernel })
            &&& n.phase == (TaskPhase::EnterKernel { reason })
            &&& n.saved_a0 == arg0
            &&& n.saved_sysno == sysno
            &&& n.is_syscall <==> reason == ReturnReason::Syscall
        },
{
}

/// What user code stopped for decides what is done: a page fault is handled, an
/// interrupt gives other tasks their turn, and an exception leads to its signal:
/// `SIGBUS` for a misaligned access, which LoongArch tries to do in its place
/// first, `SIGILL` for an illegal instruction, and `SIGTRAP` for any other. A
/// reason that is not known leads to `SIGSEGV`.
pub proof fn law_stop_handled(s: TaskState, c: UserContext, reason: ReturnReason)
    requires
        s.phase == (TaskPhase::EnterKernel { reason }),
    ensures
        leads_to(
            s,
            c,
            TaskAnswer::Done,
            match reason {
                ReturnReason::Syscall => TaskRequest::TakeSyscallTrace,
                ReturnReason::PageFault { addr, flags } => TaskRequest::HandlePageFault {
                    addr,
                    flags,
                },
                ReturnReason::Interrupt => TaskRequest::Yield,
                ReturnReason::Exception(ExceptionKind::Breakpoint) => TaskRequest::QueryTrace,
                ReturnReason::Exception(ExceptionKind::Misaligned) => if s.arch
                    == Arch::Loongarch64 {
                    TaskRequest::EmulateUnaligned
                } else {
                    TaskRequest::RaiseFatal { signo: Signo::Bus }
                },
                ReturnReason::Exception(ExceptionKind::IllegalInstruction) => {
                    TaskRequest::RaiseFatal { signo: Signo::Ill }
                },
                ReturnReason::Exception(ExceptionKind::Other) => TaskRequest::RaiseFatal {
                    signo: Signo::Trap,
                },
                ReturnReason::Other => TaskRequest::RaiseFatal { signo: Signo::Segv },
            },
        ),
        reason == ReturnReason::Exception(ExceptionKind::Breakpoint) ==> next(
            s,
            c,
            TaskAnswer::Done,
        ).phase is QueryBreak && next(s, c, TaskAnswer::Done).kind == ExceptionKind::Breakpoint,
        reason == ReturnReason::Syscall ==> next(s, c, TaskAnswer::Done).phase is TakeEntryTrace,
{
}

/// A page fault that cannot be handled leads to `SIGSEGV`, and a misaligned access
/// that cannot be done in its place to `SIGBUS`. Where they can, and after other
/// tasks had their turn or a signal was sent, the task looks for a completion.
/// That a signal cannot be sent is a fault.
pub proof fn law_stop_outcome(s: TaskState, c: UserContext, e: KernelError)
    ensures
        s.phase is PageFault ==> leads_to(
            s,
            c,
            TaskAnswer::Flag(true),
            TaskRequest::TakeCompletion,
        ) && leads_to(
            s,
            c,
            TaskAnswer::Flag(false),
            TaskRequest::RaiseFatal { signo: Signo::Segv },
        ),
        s.phase is Emulate ==> leads_to(s, c, TaskAnswer::Flag(true), TaskRequest::TakeCompletion)
            && leads_to(
            s,
            c,
            TaskAnswer::Flag(false),
            TaskRequest::RaiseFatal { signo: Signo::Bus },
        ),
        s.phase is Yield ==> leads_to(s, c, TaskAnswer::Done, TaskRequest::TakeCompletion),
        s.phase is Raise ==> {
            &&& leads_to(s, c, TaskAnswer::Sent(Ok(())), TaskRequest::TakeCompletion)
            &&& s.accepts(TaskAnswer::Sent(Err(e)))
            &&& s.after(c, TaskAnswer::Sent(Err(e))) == Err::<(TaskState, UserContext), Fault>(
                Fault::Signal,
            )
        },
{
}

/// At a breakpoint, a process that asked to be traced and one that a tracer
/// attached to are alike: the saved instruction is taken, and the task stops for
/// the tracer. It is sent `SIGTRAP` straight away exactly if neither holds.
pub proof fn law_breakpoint(s: TaskState, c: UserContext, t: TraceFlags)
    requires
        s.phase is QueryBreak,
        s.kind == ExceptionKind::Breakpoint,
    ensures
        s.request() == TaskRequest::QueryTrace,
        t.traceme || t.attached <==> leads_to(
            s,
            c,
            TaskAnswer::Trace(t),
            TaskRequest::TakeSavedInsn,
        ),
        !t.traceme && !t.attached <==> leads_to(
            s,
            c,
            TaskAnswer::Trace(t),
            TaskRequest::RaiseFatal { signo: Signo::Trap },
        ),
        next(s, c, TaskAnswer::Trace(t)).kind == ExceptionKind::Breakpoint,
{
}

/// The instruction that a breakpoint replaced is put back, as the two bytes of its
/// lower half, if the task is at its address, and the processor is told on
/// RISC-V; if the task is elsewhere, the instruction is kept for later. Either way
/// the task then stops with `SIGTRAP`. If the tracer makes it go on, it looks for
/// a completion; if there is none to do that, it is sent `SIGTRAP`.
pub proof fn law_saved_instruction(s: TaskState, c: UserContext, addr: usize, insn: u32)
    requires
        s.phase is TakeInsn,
        s.kind == ExceptionKind::Breakpoint,
    ensures
        ({
            let stop = TaskRequest::PtraceStop { signo: Signo::Trap };
            let a = TaskAnswer::SavedInsn(Some((addr, insn)));
            let t = next(s, c, a);
            let u = next(t, c, TaskAnswer::Done);
            let here = addr == c.ip;
            let halted = if here && s.arch == Arch::Riscv64 {
                next(u, c, TaskAnswer::Done)
            } else {
                u
            };
            let none = TaskAnswer::SavedInsn(None);
            &&& s.request() == TaskRequest::TakeSavedInsn
            &&& leads_to(s, c, none, stop)
            &&& s.accepts(a) && s.after(c, a) is Ok
            &&& here ==> (t.request() matches TaskRequest::WriteMemory { addr: to, data } && to
                == addr && data.len() == 2 && data[0] + 0x100 * data[1] == insn as int % 0x1_0000)
            &&& here && s.arch == Arch::Riscv64 ==> leads_to(
                t,
                c,
                TaskAnswer::Done,
                TaskRequest::FlushIcache,
            ) && leads_to(u, c, TaskAnswer::Done, stop)
            &&& here && s.arch != Arch::Riscv64 ==> leads_to(t, c, TaskAnswer::Done, stop)
            &&& !here ==> t.request() == (TaskRequest::SetSavedInsn { addr, insn }) && leads_to(
                t,
                c,
                TaskAnswer::Done,
                stop,
            )
            &&& leads_to(halted, c, TaskAnswer::Flag(true), TaskRequest::TakeCompletion)
            &&& leads_to(
                halted,
                c,
                TaskAnswer::Flag(false),
                TaskRequest::RaiseFatal { signo: Signo::Trap },
            )
            &&& leads_to(
                next(s, c, none),
                c,
                TaskAnswer::Flag(true),
                TaskRequest::TakeCompletion,
            )
            &&& leads_to(
                next(s, c, none),
                c,
                TaskAnswer::Flag(false),
                TaskRequest::RaiseFatal { signo: Signo::Trap },
            )
        }),
{
    assert(insn as u16 as u32 == insn % 0x1_0000) by (bit_vector);
}

/// Whether a task in the state `s` is about to have its system call done: a tracer
/// is told first if the call ends the task, with the exit code in the second byte.
pub open spec fn call_comes(s: TaskState) -> bool {
    let ends = if s.arch == Arch::X86_64 {
        s.saved_sysno == 60 || s.saved_sysno == 231
    } else {
        s.saved_sysno == 93 || s.saved_sysno == 94
    };
    if ends {
        s.request() matches TaskRequest::NotifyExit { code } && code as u32 == ((s.saved_a0 as u32)
            << 8)
    } else {
        s.request() == TaskRequest::HandleSyscall
    }
}

/// At the start of a system call, the task stops with `SIGTRAP` exactly if a tracer
/// waits there. If the tracer made it go on and still waits at either end, the
/// task notes that it waits at the end of the call. Then the call comes.
pub proof fn law_call_traced(
    s: TaskState,
    c: UserContext,
    t: SyscallTraceState,
    still: SyscallTraceState,
)
    requires
        s.phase is TakeEntryTrace,
    ensures
        ({
            let a = next(s, c, TaskAnswer::SyscallTrace(t));
            let b = next(a, c, TaskAnswer::Flag(true));
            let d = next(b, c, TaskAnswer::SyscallTrace(still));
            let stop = TaskRequest::SyscallStop { signo: Signo::Trap };
            let note = TaskRequest::SetSyscallTrace { state: SyscallTraceState::Exit };
            &&& s.accepts(TaskAnswer::SyscallTrace(t))
            &&& t == SyscallTraceState::Entry <==> leads_to(
                s,
                c,
                TaskAnswer::SyscallTrace(t),
                stop,
            )
            &&& t != SyscallTraceState::Entry ==> call_comes(a)
            &&& t == SyscallTraceState::Entry ==> {
                &&& leads_to(a, c, TaskAnswer::Flag(true), TaskRequest::TakeSyscallTrace)
                &&& a.accepts(TaskAnswer::Flag(false)) && call_comes(
                    next(a, c, TaskAnswer::Flag(false)),
                )
                &&& b.accepts(TaskAnswer::SyscallTrace(still))
                &&& still != SyscallTraceState::Neither <==> leads_to(
                    b,
                    c,
                    TaskAnswer::SyscallTrace(still),
                    note,
                )
                &&& still == SyscallTraceState::Neither ==> call_comes(d)
                &&& still != SyscallTraceState::Neither ==> d.accepts(TaskAnswer::Done)
                    && call_comes(next(d, c, TaskAnswer::Done))
            }
        }),
{
    law_exit_status(s.arch, s.saved_sysno, s.saved_a0);
}

/// A task whose tracer is told that it is about to end stops with `SIGTRAP`, and
/// its system call is done whatever the stop came to; where no tracer is told, it
/// is done without a stop.
pub proof fn law_exit_told(s: TaskState, c: UserContext, resumed: bool)
    requires
        s.phase is NotifyExit,
    ensures
        leads_to(s, c, TaskAnswer::Flag(false), TaskRequest::HandleSyscall),
        leads_to(s, c, TaskAnswer::Flag(true), TaskRequest::PtraceStop { signo: Signo::Trap }),
        leads_to(
            next(s, c, TaskAnswer::Flag(true)),
            c,
            TaskAnswer::Flag(resumed),
            TaskRequest::HandleSyscall,
        ),
{
}

/// After a system call, the task stops with `SIGTRAP` exactly if a tracer waits at
/// the end of the call. Then, if it runs a new program that its tracer is to see,
/// the tracer is told and the task stops with `SIGTRAP` again; made to go on, it
/// starts its next pass. Otherwise it looks for a completion.
pub proof fn law_call_done(s: TaskState, c: UserContext, t: SyscallTraceState, resumed: bool)
    requires
        s.phase is Syscall,
    ensures
        ({
            let a = next(s, c, TaskAnswer::Done);
            let b = next(a, c, TaskAnswer::SyscallTrace(t));
            let stopped = t == SyscallTraceState::Exit;
            let d = if stopped {
                next(b, c, TaskAnswer::Flag(resumed))
            } else {
                b
            };
            let e = next(d, c, TaskAnswer::Flag(true));
            let f = next(e, c, TaskAnswer::Done);
            &&& s.request() == TaskRequest::HandleSyscall
            &&& leads_to(s, c, TaskAnswer::Done, TaskRequest::TakeSyscallTrace)
            &&& a.accepts(TaskAnswer::SyscallTrace(t))
            &&& stopped <==> b.request() == (TaskRequest::SyscallStop { signo: Signo::Trap })
            &&& stopped ==> leads_to(
                b,
                c,
                TaskAnswer::Flag(resumed),
                TaskRequest::TakeExecStop,
            )
            &&& d.request() == TaskRequest::TakeExecStop
            &&& leads_to(d, c, TaskAnswer::Flag(false), TaskRequest::TakeCompletion)
            &&& leads_to(d, c, TaskAnswer::Flag(true), TaskRequest::NotifyExec)
            &&& leads_to(
                e,
                c,
                TaskAnswer::Done,
                TaskRequest::PtraceStop { signo: Signo::Trap },
            )
            &&& leads_to(f, c, TaskAnswer::Flag(true), TaskRequest::QueryExit)
            &&& leads_to(f, c, TaskAnswer::Flag(false), TaskRequest::TakeCompletion)
        }),
{
}

/// Without a completion, a signal is unblocked if one waits for that. If not, the
/// signals are delivered one after the other, the first of them with the first
/// argument and the number of the system call if user code made one, it returned
/// -4 (`EINTR`), and it may be made again.
pub proof fn law_signals(s: TaskState, c: UserContext, retval: usize, again: bool)
    requires
        s.phase is TakeCompletion,
    ensures
        ({
            let t = next(s, c, TaskAnswer::Completion(None));
            let a = TaskAnswer::Unblocked { unblocked: false, retval };
            let u = next(t, c, a);
            let asked = s.is_syscall && retval as isize == -4;
            let info = SyscallRestartInfo { saved_a0: s.saved_a0, saved_sysno: s.saved_sysno };
            let v = if asked {
                next(u, c, TaskAnswer::Flag(again))
            } else {
                u
            };
            let user = TaskRequest::SetTimer { timer: TimerState::User };
            &&& leads_to(s, c, TaskAnswer::Completion(None), TaskRequest::UnblockNextSignal)
            &&& leads_to(t, c, TaskAnswer::Unblocked { unblocked: true, retval }, user)
            &&& t.accepts(a)
            &&& asked <==> u.request() == (TaskRequest::QueryRestart { sysno: s.saved_sysno })
            &&& asked ==> u.accepts(TaskAnswer::Flag(again))
            &&& v.request() == (TaskRequest::CheckSignals {
                restart: if asked && again {
                    Some(info)
                } else {
                    None
                },
            })
            &&& leads_to(
                v,
                c,
                TaskAnswer::Flag(true),
                TaskRequest::CheckSignals { restart: None },
            )
            &&& leads_to(v, c, TaskAnswer::Flag(false), user)
        }),
{
}

/// Before it runs user code again, a task has its time counted as its own, and the
/// interruption is over; then it looks whether it is to exit.
pub proof fn law_back_to_user(s: TaskState, c: UserContext)
    requires
        s.phase is EnterUser,
    ensures
        s.request() == (TaskRequest::SetTimer { timer: TimerState::User }),
        leads_to(s, c, TaskAnswer::Done, TaskRequest::ClearInterrupt),
        leads_to(
            next(s, c, TaskAnswer::Done),
            c,
            TaskAnswer::Done,
            TaskRequest::QueryExit,
        ),
{
}

/// A completion is delivered with what it brings: what was read, as many bytes as
/// the result counts, is copied to the buffer first, if there is any; on x86_64
/// the return address is then stored, as eight bytes, right below the stack
/// pointer; and the task runs the handler next. If there is no room for the return
/// address, or it cannot be stored, the handler is not called and the registers
/// stay as they are.
pub proof fn law_completion_delivered(
    s: TaskState,
    c: UserContext,
    handler: usize,
    e: Completion,
    stored: bool,
)
    requires
        s.phase is TakeCompletion,
        e.result > 0 ==> e.result as usize <= e.kbuf.len(),
    ensures
        ({
            let a = TaskAnswer::Completion(Some((handler, e)));
            let copies = e.result > 0 && e.buf != 0;
            let (t, d) = s.after(c, a)->Ok_0;
            let (u, f) = if copies {
                t.after(d, TaskAnswer::Done)->Ok_0
            } else {
                (t, d)
            };
            let (v, g) = u.after(f, TaskAnswer::Flag(stored))->Ok_0;
            let x86 = s.arch == Arch::X86_64;
            &&& s.accepts(a) && s.after(c, a) is Ok
            &&& copies ==> leads_to(
                s,
                c,
                a,
                TaskRequest::UserCopy {
                    addr: e.buf,
                    data: e.kbuf.subrange(0, (e.result as usize) as int),
                },
            ) && t.accepts(TaskAnswer::Done)
            &&& !x86 ==> u.phase is EnterUser && f.ip == handler && f.ra == c.ip && f.sp == c.sp
                && f.a0 == e.userdata as usize && f.a1 == e.result as usize
            &&& x86 && c.sp < 8 ==> f == c && u.request() == TaskRequest::QueryExit
            &&& x86 && c.sp >= 8 ==> {
                &&& f == c
                &&& u.request() matches TaskRequest::StoreReturn { addr, data } && addr + 8 == c.sp
                    && data.len() == 8 && le64(data, 0) == c.ip
                &&& u.accepts(TaskAnswer::Flag(stored))
                &&& stored ==> v.phase is EnterUser && g.ip == handler && g.sp + 8 == c.sp && g.ra
                    == c.ra && g.a0 == e.userdata as usize && g.a1 == e.result as usize
                &&& !stored ==> g == c && v.request() == TaskRequest::QueryExit
            }
        }),
{
    law_delivery(s, c, handler, e, stored);
    law_handler_arguments(s.arch, c, handler, e.userdata, e.result);
    law_return_address(s.arch);
    law_written(c.ip as u64);
    law_write_then_read(c.ip as u64);
    if e.result > 0 {
        let n = (e.result as usize) as int;
        assert(e.kbuf.take(n) =~= e.kbuf.subrange(0, n));
    }
}

/// A completion that counts more bytes than it brings along is a fault.
pub proof fn law_short_completion(s: TaskState, c: UserContext, handler: usize, e: Completion)
    requires
        s.phase is TakeCompletion,
    ensures
        e.result > 0 && e.buf != 0 && e.result as usize > e.kbuf.len() <==> s.after(
            c,
            TaskAnswer::Completion(Some((handler, e))),
        ) == Err::<(TaskState, UserContext), Fault>(Fault::ShortBuffer),
{
}

/// A task stays what it is: its processor, its number and the place for it never
/// change; why user code stopped is noted only when it stops; and the registers
/// change only where a handler is called.
pub proof fn law_task_kept(s: TaskState, c: UserContext, a: TaskAnswer)
    requires
        s.accepts(a),
    ensures
        s.after(c, a) matches Ok((t, d)) ==> {
            &&& (t.arch, t.tid, t.set_child_tid) == (s.arch, s.tid, s.set_child_tid)
            &&& !(a is Return) ==> (t.saved_a0, t.saved_sysno, t.is_syscall) == (
                s.saved_a0,
                s.saved_sysno,
                s.is_syscall,
            )
            &&& d != c ==> t.phase is EnterUser && (s.phase is TakeCompletion || s.phase is CopyOut
                || s.phase is PushReturn)
            &&& !(s.phase is EnterKernel) ==> t.kind == s.kind
        },
{
}

/// A new task has what it is created with. It starts with having its number, the
/// lower half of the one it is given, written where its creator asked for it,
/// unless that is zero; then it is asked whether a tracer wants it to stop.
pub proof fn law_new_task(
    arch: Arch,
    name: &str,
    kernel_stack_size: usize,
    set_child_tid: usize,
    new: NewTask,
    id: u64,
    t: UserTask,
)
    requires
        call_ensures(new_user_task, (arch, name, kernel_stack_size, set_child_tid), new),
        call_ensures(NewTask::start, (&new, id), t),
    ensures
        new.name@ == name@,
        new.stack_size == kernel_stack_size,
        t@.arch == arch,
        t@.tid == id as int % 0x1_0000_0000,
        set_child_tid == 0 ==> t@.request() == TaskRequest::QueryStop,
        set_child_tid != 0 ==> t@.request() == (TaskRequest::WriteTid {
            addr: set_child_tid,
            tid: t@.tid,
        }),
{
    assert(id as u32 == id % 0x1_0000_0000) by (bit_vector);
}

/// What a task hands out with its questions is what it holds: the bytes for user
/// memory, the instruction to put back or to keep, and the signals.
pub proof fn law_task_asks(t: &UserTask, a: TaskAction)
    requires
        call_ensures(UserTask::action, (t,), a),
    ensures
        t.phase matches TaskPhase::CopyOut { addr } ==> (a matches TaskAction::UserCopy {
            addr: to,
            data,
        } && to == addr && data@ == t.data@),
        t.phase matches TaskPhase::PushReturn { addr } ==> (a matches TaskAction::StoreReturn {
            addr: to,
            data,
        } && to == addr && data@ == t.data@),
        t.phase matches TaskPhase::RestoreInsn { addr, insn } ==> (
        a matches TaskAction::WriteMemory { addr: to, data } && to == addr && data@.len() == 2
            && data@[0] + 0x100 * data@[1] == insn as int % 0x1_0000),
        t.phase matches TaskPhase::KeepInsn { addr, insn } ==> (a matches TaskAction::SetSavedInsn {
            addr: to,
            insn: kept,
        } && to == addr && kept == insn),
        t.phase matches TaskPhase::Raise { signo } ==> (a matches TaskAction::RaiseFatal {
            signo: s,
        } && s == signo),
        t.phase matches TaskPhase::CheckSignals { restart } ==> (
        a matches TaskAction::CheckSignals { restart: r } && r == restart),
        t.phase is FirstStop ==> (a matches TaskAction::PtraceStop { signo } && signo
            == Signo::Stop),
        t.phase is BreakStop || t.phase is ExitStop || t.phase is ExecStop ==> (
        a matches TaskAction::PtraceStop { signo } && signo == Signo::Trap),
{
    if let TaskPhase::RestoreInsn { insn, .. } = t.phase {
        assert(insn as u16 as u32 == insn % 0x1_0000) by (bit_vector);
    }
}

/// A task at a breakpoint that takes note of how its process is traced goes on to
/// take the saved instruction exactly if the process asked to be traced or a
/// tracer attached to it, and is sent `SIGTRAP` exactly if neither holds; its
/// registers stay as they are.
pub proof fn law_breakpoint_noted(
    t: &mut UserTask,
    uctx: &mut UserContext,
    f: TraceFlags,
    r: Result<(), Fault>,
)
    requires
        call_ensures(UserTask::step, (t, uctx, TaskInput::Trace(f)), r),
        old(t).phase is QueryBreak,
        old(t).kind == ExceptionKind::Breakpoint,
    ensures
        r is Ok,
        *final(uctx) == *old(uctx),
        f.traceme || f.attached <==> final(t).phase is TakeInsn,
        !f.traceme && !f.attached <==> final(t).phase == (TaskPhase::Raise { signo: Signo::Trap }),
{
    law_breakpoint(old(t)@, *old(uctx), f);
}

} // verus!
