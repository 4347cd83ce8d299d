use starry_exec::arch::Arch;
use starry_exec::async_io::CqEntry;
use starry_exec::auxv::{AuxEntry, AuxType};
use starry_exec::boot::{failure, init, init_pid, Boot, BootAction, BootInput, BootStep};
use starry_exec::context::{
    cq_frame, inject_handler_call, pushed, sys_cq_return, Injection, UserContext, FRAME_SIZE,
};
use starry_exec::error::{Fault, KernelError};
use starry_exec::paging::Region;
use starry_exec::task::{new_user_task, TaskAction, TaskInput, TaskPhase, UserTask};
use starry_exec::user::{
    exception_ec_value, exception_esr_value, exception_fault_addr, exception_iss_value,
    ptrace_exit_event_code, ExceptionInfo, ExceptionKind, ReturnReason, Signo, SyscallRestartInfo,
    SyscallTraceState, TimerState, TraceFlags,
};

const ARCHS: [Arch; 4] = [Arch::X86_64, Arch::Aarch64, Arch::Riscv64, Arch::Loongarch64];

fn context() -> UserContext {
    UserContext {
        ip: 0x1_0040,
        ra: 11,
        sp: 0x8000,
        t0: 20,
        t1: 21,
        t2: 22,
        t3: 23,
        t4: 24,
        t5: 25,
        t6: 26,
        a0: 30,
        a1: 31,
        a2: 32,
        a3: 33,
        a4: 34,
        a5: 35,
        a6: 36,
        a7: 37,
    }
}

// ---------- Registers ----------

#[test]
fn a_handler_is_called_with_the_return_address_in_a_register() {
    for arch in [Arch::Aarch64, Arch::Riscv64, Arch::Loongarch64] {
        let mut c = context();
        let r = inject_handler_call(arch, &mut c, 0x9000, 5, -2);
        assert_eq!(r, Injection::Ready);
        let expected =
            UserContext { ip: 0x9000, ra: 0x1_0040, a0: 5, a1: (-2isize) as usize, ..context() };
        assert_eq!(c, expected);
    }
}

#[test]
fn a_handler_is_called_with_the_return_address_on_the_stack() {
    let mut c = context();
    let r = inject_handler_call(Arch::X86_64, &mut c, 0x9000, 5, 6);
    let data = 0x1_0040u64.to_le_bytes().to_vec();
    assert_eq!(r, Injection::Push { addr: 0x7ff8, data });
    assert_eq!(c, context());
    assert!(!pushed(&mut c, 0x9000, 5, 6, false));
    assert_eq!(c, context());
    assert!(pushed(&mut c, 0x9000, 5, 6, true));
    assert_eq!(c, UserContext { ip: 0x9000, sp: 0x7ff8, a0: 5, a1: 6, ..context() });
    let mut low = UserContext { sp: 7, ..context() };
    assert_eq!(inject_handler_call(Arch::X86_64, &mut low, 0x9000, 5, 6), Injection::NoRoom);
    assert_eq!(low, UserContext { sp: 7, ..context() });
    let mut edge = UserContext { sp: 8, ..context() };
    let r = inject_handler_call(Arch::X86_64, &mut edge, 0x9000, 5, 6);
    assert!(matches!(r, Injection::Push { addr: 0, .. }));
    assert!(pushed(&mut edge, 0x9000, 5, 6, true));
    assert_eq!(edge.sp, 0);
}

#[test]
fn returning_from_a_handler_restores_the_registers() {
    let words: Vec<u64> = (100..118).collect();
    let frame: Vec<u8> = words.iter().flat_map(|w| w.to_le_bytes()).collect();
    assert_eq!(frame.len(), FRAME_SIZE);
    let mut c = context();
    assert_eq!(sys_cq_return(Arch::Riscv64, &mut c, Ok(frame)), Ok(0));
    assert_eq!(
        c,
        UserContext {
            ip: 100,
            ra: 101,
            sp: 102,
            t0: 103,
            t1: 104,
            t2: 105,
            a0: 30,
            a1: 106,
            a2: 107,
            a3: 108,
            a4: 109,
            a5: 110,
            a6: 111,
            a7: 112,
            t3: 113,
            t4: 114,
            t5: 115,
            t6: 116,
        }
    );
}

#[test]
fn a_frame_that_cannot_be_read_changes_nothing() {
    let mut c = context();
    let r = sys_cq_return(Arch::Riscv64, &mut c, Err(KernelError::BadAddress));
    assert_eq!(r, Err(KernelError::BadAddress));
    assert_eq!(c, context());
    for arch in [Arch::X86_64, Arch::Aarch64, Arch::Loongarch64] {
        assert_eq!(sys_cq_return(arch, &mut c, Err(KernelError::BadAddress)), Ok(0));
        assert_eq!(c, context());
        assert_eq!(cq_frame(arch, &c), None);
    }
    assert_eq!(cq_frame(Arch::Riscv64, &c), Some(Region { start: 0x8000, size: 144 }));
}

// ---------- System calls and exceptions ----------

#[test]
fn a_tracer_is_told_the_exit_code() {
    for arch in ARCHS {
        let (exit, group) = if arch == Arch::X86_64 { (60, 231) } else { (93, 94) };
        for n in 0..500 {
            let expected = if n == exit || n == group { Some(3 << 8) } else { None };
            assert_eq!(ptrace_exit_event_code(arch, n, 3), expected);
        }
        assert_eq!(ptrace_exit_event_code(arch, exit, usize::MAX), Some(-256));
        assert_eq!(ptrace_exit_event_code(arch, group, 0x1_0000_0001), Some(256));
        assert_eq!(ptrace_exit_event_code(arch, usize::MAX, 0), None);
    }
}

#[test]
fn syndromes_are_those_of_one_processor() {
    let info = ExceptionInfo { fault_addr: 0x123, esr: 7, ec: 8, iss: 9 };
    for arch in ARCHS {
        assert_eq!(exception_fault_addr(&info), 0x123);
        let (esr, ec, iss) = if arch == Arch::Aarch64 { (7, 8, 9) } else { (0, 0, 0) };
        assert_eq!(exception_esr_value(arch, &info), esr);
        assert_eq!(exception_ec_value(arch, &info), ec);
        assert_eq!(exception_iss_value(arch, &info), iss);
    }
}

// ---------- Tasks ----------

fn task(arch: Arch, id: u64, set_child_tid: usize) -> UserTask {
    new_user_task(arch, "sh", 0x4_0000, set_child_tid).start(id)
}

#[test]
fn a_new_task_has_a_name_and_a_stack() {
    let t = new_user_task(Arch::Riscv64, "busybox", 0x4_0000, 0x7000);
    assert_eq!(t.name, "busybox");
    assert_eq!(t.stack_size, 0x4_0000);
    assert_eq!(t.set_child_tid, 0x7000);
}

struct Run {
    task: UserTask,
    uctx: UserContext,
}

impl Run {
    /// A task that is about to learn why user code stopped.
    fn new(arch: Arch) -> Run {
        let mut r = Run { task: task(arch, 7, 0), uctx: context() };
        r.input(TaskInput::Flag(false));
        r.input(TaskInput::Flag(false));
        let off = TraceFlags { singlestep: false, traceme: false, attached: false };
        r.input(TaskInput::Trace(off));
        assert!(matches!(r.task.action(), TaskAction::Run));
        r
    }

    fn stopped(arch: Arch, reason: ReturnReason, arg0: usize, sysno: usize) -> Run {
        let mut r = Run::new(arch);
        r.input(TaskInput::Return { reason, arg0, sysno });
        assert!(matches!(r.task.action(), TaskAction::SetTimer { timer: TimerState::Kernel }));
        r.input(TaskInput::Done);
        r
    }

    fn input(&mut self, i: TaskInput) {
        self.task.step(&mut self.uctx, i).unwrap();
    }

    fn flag(&mut self, b: bool) {
        self.input(TaskInput::Flag(b));
    }

    fn phase(&self) -> TaskPhase {
        self.task.phase
    }

    /// The end of a pass, once the task goes back to user code.
    fn resume(&mut self) {
        assert!(matches!(self.task.action(), TaskAction::SetTimer { timer: TimerState::User }));
        self.input(TaskInput::Done);
        assert!(matches!(self.task.action(), TaskAction::ClearInterrupt));
        self.input(TaskInput::Done);
        assert!(matches!(self.task.action(), TaskAction::QueryExit));
    }

    fn expect_raise(&mut self, signo: Signo) {
        match self.task.action() {
            TaskAction::RaiseFatal { signo: s } => assert_eq!(s, signo),
            _ => panic!("no signal"),
        }
        self.input(TaskInput::Sent(Ok(())));
        assert_eq!(self.phase(), TaskPhase::TakeCompletion);
    }
}

#[test]
fn the_number_of_a_new_task_is_written() {
    let mut uctx = context();
    let mut t = task(Arch::Riscv64, 0x1_0000_0005, 0x7000);
    assert!(matches!(t.action(), TaskAction::WriteTid { addr: 0x7000, tid: 5 }));
    t.step(&mut uctx, TaskInput::Done).unwrap();
    assert!(matches!(t.action(), TaskAction::QueryStop));
    let t = task(Arch::Riscv64, 5, 0);
    assert!(matches!(t.action(), TaskAction::QueryStop));
}

#[test]
fn a_task_can_be_stopped_before_it_runs() {
    let mut r = Run { task: task(Arch::Riscv64, 7, 0), uctx: context() };
    r.flag(true);
    assert!(matches!(r.task.action(), TaskAction::PtraceStop { signo: Signo::Stop }));
    r.flag(false);
    assert!(matches!(r.task.action(), TaskAction::QueryExit));
}

#[test]
fn a_task_exits_before_it_runs_again() {
    let mut r = Run { task: task(Arch::Riscv64, 7, 0), uctx: context() };
    r.flag(false);
    r.flag(true);
    assert!(matches!(r.task.action(), TaskAction::Exit));
}

#[test]
fn single_steps_are_set_up_for_a_tracer() {
    for (arch, singlestep, traceme, attached, setup) in [
        (Arch::Riscv64, true, true, false, true),
        (Arch::Riscv64, true, false, true, true),
        (Arch::Riscv64, true, false, false, false),
        (Arch::Riscv64, false, true, true, false),
        (Arch::X86_64, true, true, true, false),
    ] {
        let mut r = Run { task: task(arch, 7, 0), uctx: context() };
        r.flag(false);
        r.flag(false);
        r.input(TaskInput::Trace(TraceFlags { singlestep, traceme, attached }));
        if setup {
            assert!(matches!(r.task.action(), TaskAction::SetupSinglestep));
            r.input(TaskInput::Done);
        }
        assert!(matches!(r.task.action(), TaskAction::Run));
    }
}

#[test]
fn a_system_call_is_handled() {
    let mut r = Run::stopped(Arch::Riscv64, ReturnReason::Syscall, 1, 64);
    assert!(matches!(r.task.action(), TaskAction::TakeSyscallTrace));
    r.input(TaskInput::SyscallTrace(SyscallTraceState::Neither));
    assert!(matches!(r.task.action(), TaskAction::HandleSyscall));
    r.input(TaskInput::Done);
    assert!(matches!(r.task.action(), TaskAction::TakeSyscallTrace));
    r.input(TaskInput::SyscallTrace(SyscallTraceState::Entry));
    assert!(matches!(r.task.action(), TaskAction::TakeExecStop));
    r.flag(false);
    assert!(matches!(r.task.action(), TaskAction::TakeCompletion));
    r.input(TaskInput::Completion(None));
    assert!(matches!(r.task.action(), TaskAction::UnblockNextSignal));
    r.input(TaskInput::Unblocked { unblocked: true, retval: 0 });
    r.resume();
}

#[test]
fn a_traced_system_call_stops_at_both_ends() {
    let mut r = Run::stopped(Arch::Riscv64, ReturnReason::Syscall, 1, 64);
    r.input(TaskInput::SyscallTrace(SyscallTraceState::Entry));
    assert!(matches!(r.task.action(), TaskAction::SyscallStop { signo: Signo::Trap }));
    r.flag(true);
    assert!(matches!(r.task.action(), TaskAction::TakeSyscallTrace));
    r.input(TaskInput::SyscallTrace(SyscallTraceState::Entry));
    assert!(matches!(
        r.task.action(),
        TaskAction::SetSyscallTrace { state: SyscallTraceState::Exit }
    ));
    r.input(TaskInput::Done);
    assert!(matches!(r.task.action(), TaskAction::HandleSyscall));
    r.input(TaskInput::Done);
    r.input(TaskInput::SyscallTrace(SyscallTraceState::Exit));
    assert!(matches!(r.task.action(), TaskAction::SyscallStop { signo: Signo::Trap }));
    r.flag(false);
    assert!(matches!(r.task.action(), TaskAction::TakeExecStop));
}

#[test]
fn a_tracer_that_is_gone_does_not_stop_the_end() {
    let mut r = Run::stopped(Arch::Riscv64, ReturnReason::Syscall, 1, 64);
    r.input(TaskInput::SyscallTrace(SyscallTraceState::Entry));
    r.flag(true);
    r.input(TaskInput::SyscallTrace(SyscallTraceState::Neither));
    assert_eq!(r.phase(), TaskPhase::Syscall);
    let mut r = Run::stopped(Arch::Riscv64, ReturnReason::Syscall, 1, 64);
    r.input(TaskInput::SyscallTrace(SyscallTraceState::Entry));
    r.flag(false);
    assert_eq!(r.phase(), TaskPhase::Syscall);
}

#[test]
fn a_tracer_is_told_before_the_task_ends() {
    let mut r = Run::stopped(Arch::X86_64, ReturnReason::Syscall, 2, 60);
    r.input(TaskInput::SyscallTrace(SyscallTraceState::Neither));
    assert!(matches!(r.task.action(), TaskAction::NotifyExit { code: 512 }));
    r.flag(true);
    assert!(matches!(r.task.action(), TaskAction::PtraceStop { signo: Signo::Trap }));
    r.flag(false);
    assert_eq!(r.phase(), TaskPhase::Syscall);
    let mut r = Run::stopped(Arch::X86_64, ReturnReason::Syscall, 2, 231);
    r.input(TaskInput::SyscallTrace(SyscallTraceState::Exit));
    r.flag(false);
    assert_eq!(r.phase(), TaskPhase::Syscall);
}

#[test]
fn a_new_program_stops_for_its_tracer() {
    for resumed in [true, false] {
        let mut r = Run::stopped(Arch::Riscv64, ReturnReason::Syscall, 1, 221);
        r.input(TaskInput::SyscallTrace(SyscallTraceState::Neither));
        r.input(TaskInput::Done);
        r.input(TaskInput::SyscallTrace(SyscallTraceState::Neither));
        r.flag(true);
        assert!(matches!(r.task.action(), TaskAction::NotifyExec));
        r.input(TaskInput::Done);
        assert!(matches!(r.task.action(), TaskAction::PtraceStop { signo: Signo::Trap }));
        r.flag(resumed);
        let next = if resumed { TaskPhase::CheckExit } else { TaskPhase::TakeCompletion };
        assert_eq!(r.phase(), next);
    }
}

#[test]
fn page_faults_are_handled_or_fatal() {
    let fault = ReturnReason::PageFault { addr: 0x123, flags: 6 };
    let mut r = Run::stopped(Arch::Riscv64, fault, 0, 0);
    assert!(matches!(r.task.action(), TaskAction::HandlePageFault { addr: 0x123, flags: 6 }));
    r.flag(true);
    assert_eq!(r.phase(), TaskPhase::TakeCompletion);
    let mut r = Run::stopped(Arch::Riscv64, fault, 0, 0);
    r.flag(false);
    r.expect_raise(Signo::Segv);
}

#[test]
fn interrupts_let_others_run() {
    let mut r = Run::stopped(Arch::Riscv64, ReturnReason::Interrupt, 0, 0);
    assert!(matches!(r.task.action(), TaskAction::Yield));
    r.input(TaskInput::Done);
    assert_eq!(r.phase(), TaskPhase::TakeCompletion);
}

#[test]
fn exceptions_become_signals() {
    for (kind, signo) in [
        (ExceptionKind::IllegalInstruction, Signo::Ill),
        (ExceptionKind::Misaligned, Signo::Bus),
        (ExceptionKind::Other, Signo::Trap),
    ] {
        let mut r = Run::stopped(Arch::Riscv64, ReturnReason::Exception(kind), 0, 0);
        r.expect_raise(signo);
    }
    Run::stopped(Arch::Riscv64, ReturnReason::Other, 0, 0).expect_raise(Signo::Segv);
}

#[test]
fn misaligned_accesses_are_done_in_place_on_loongarch() {
    let reason = ReturnReason::Exception(ExceptionKind::Misaligned);
    let mut r = Run::stopped(Arch::Loongarch64, reason, 0, 0);
    assert!(matches!(r.task.action(), TaskAction::EmulateUnaligned));
    r.flag(true);
    assert_eq!(r.phase(), TaskPhase::TakeCompletion);
    let mut r = Run::stopped(Arch::Loongarch64, reason, 0, 0);
    r.flag(false);
    r.expect_raise(Signo::Bus);
}

#[test]
fn a_signal_that_cannot_be_sent_is_a_fault() {
    let mut r = Run::stopped(Arch::Riscv64, ReturnReason::Other, 0, 0);
    let e = r.task.step(&mut r.uctx, TaskInput::Sent(Err(KernelError::Other(3))));
    assert_eq!(e, Err(Fault::Signal));
}

fn breakpoint(arch: Arch) -> Run {
    let reason = ReturnReason::Exception(ExceptionKind::Breakpoint);
    let mut r = Run::stopped(arch, reason, 0, 0);
    assert!(matches!(r.task.action(), TaskAction::QueryTrace));
    r.input(TaskInput::Trace(TraceFlags { singlestep: false, traceme: true, attached: false }));
    assert!(matches!(r.task.action(), TaskAction::TakeSavedInsn));
    r
}

#[test]
fn a_breakpoint_without_a_tracer_is_a_signal() {
    let reason = ReturnReason::Exception(ExceptionKind::Breakpoint);
    let mut r = Run::stopped(Arch::Riscv64, reason, 0, 0);
    r.input(TaskInput::Trace(TraceFlags { singlestep: true, traceme: false, attached: false }));
    r.expect_raise(Signo::Trap);
}

#[test]
fn a_breakpoint_puts_the_instruction_back() {
    for arch in [Arch::Riscv64, Arch::Aarch64] {
        let mut r = breakpoint(arch);
        r.input(TaskInput::SavedInsn(Some((0x1_0040, 0xabcd_9002))));
        match r.task.action() {
            TaskAction::WriteMemory { addr, data } => {
                assert_eq!(addr, 0x1_0040);
                assert_eq!(data, 0x9002u16.to_le_bytes().to_vec());
            }
            _ => panic!("no write"),
        }
        r.input(TaskInput::Done);
        if arch == Arch::Riscv64 {
            assert!(matches!(r.task.action(), TaskAction::FlushIcache));
            r.input(TaskInput::Done);
        }
        assert!(matches!(r.task.action(), TaskAction::PtraceStop { signo: Signo::Trap }));
        r.flag(true);
        assert_eq!(r.phase(), TaskPhase::TakeCompletion);
    }
}

#[test]
fn a_breakpoint_elsewhere_keeps_the_instruction() {
    let mut r = breakpoint(Arch::Riscv64);
    r.input(TaskInput::SavedInsn(Some((0x1_0044, 0x9002))));
    assert!(matches!(r.task.action(), TaskAction::SetSavedInsn { addr: 0x1_0044, insn: 0x9002 }));
    r.input(TaskInput::Done);
    r.flag(false);
    r.expect_raise(Signo::Trap);
    let mut r = breakpoint(Arch::Riscv64);
    r.input(TaskInput::SavedInsn(None));
    assert_eq!(r.phase(), TaskPhase::BreakStop);
}

fn idle(arch: Arch) -> Run {
    let mut r = Run::stopped(arch, ReturnReason::Interrupt, 0, 0);
    r.input(TaskInput::Done);
    r
}

#[test]
fn a_completion_is_copied_and_its_handler_called() {
    let mut r = idle(Arch::Riscv64);
    let e = CqEntry { userdata: 5, result: 3, buf: 0x6000, count: 8, kbuf: vec![1, 2, 3, 0, 0, 0, 0, 0] };
    r.input(TaskInput::Completion(Some((0x9000, e))));
    match r.task.action() {
        TaskAction::UserCopy { addr, data } => {
            assert_eq!(addr, 0x6000);
            assert_eq!(data, vec![1, 2, 3]);
        }
        _ => panic!("no copy"),
    }
    assert_eq!(r.uctx, context());
    r.input(TaskInput::Done);
    assert_eq!(r.uctx, UserContext { ip: 0x9000, ra: 0x1_0040, a0: 5, a1: 3, ..context() });
    r.resume();
}

/// A task with a completion whose return address is to be stored.
fn storing(result: i64, buf: usize) -> Run {
    let mut r = idle(Arch::X86_64);
    let e = CqEntry { userdata: 5, result, buf, count: 0, kbuf: vec![] };
    r.input(TaskInput::Completion(Some((0x9000, e))));
    match r.task.action() {
        TaskAction::StoreReturn { addr, data } => {
            assert_eq!(addr, 0x7ff8);
            assert_eq!(data, 0x1_0040u64.to_le_bytes().to_vec());
        }
        _ => panic!("no return address"),
    }
    assert_eq!(r.uctx, context());
    r
}

#[test]
fn a_completion_without_data_is_not_copied() {
    for (result, buf) in [(0, 0x6000), (-11, 0x6000), (5, 0)] {
        let mut r = storing(result, buf);
        r.flag(true);
        let a1 = result as isize as usize;
        assert_eq!(r.uctx, UserContext { ip: 0x9000, sp: 0x7ff8, a0: 5, a1, ..context() });
        r.resume();
    }
}

#[test]
fn a_return_address_that_cannot_be_stored_calls_no_handler() {
    let mut r = storing(0, 0);
    r.flag(false);
    assert_eq!(r.phase(), TaskPhase::CheckExit);
    assert_eq!(r.uctx, context());
}

#[test]
fn a_task_without_stack_does_not_call_the_handler() {
    let mut r = idle(Arch::X86_64);
    r.uctx.sp = 4;
    let e = CqEntry { userdata: 5, result: 0, buf: 0, count: 0, kbuf: vec![] };
    r.input(TaskInput::Completion(Some((0x9000, e))));
    assert_eq!(r.phase(), TaskPhase::CheckExit);
    assert_eq!(r.uctx, UserContext { sp: 4, ..context() });
}

#[test]
fn a_completion_with_too_little_data_is_a_fault() {
    let mut r = idle(Arch::Riscv64);
    let e = CqEntry { userdata: 5, result: 3, buf: 1, count: 8, kbuf: vec![1, 2] };
    let i = TaskInput::Completion(Some((0x9000, e)));
    assert_eq!(r.task.step(&mut r.uctx, i), Err(Fault::ShortBuffer));
}

fn returned(retval: isize, reason: ReturnReason) -> Run {
    let mut r = Run::stopped(Arch::Riscv64, reason, 8, 63);
    match reason {
        ReturnReason::Syscall => {
            r.input(TaskInput::SyscallTrace(SyscallTraceState::Neither));
            r.input(TaskInput::Done);
            r.input(TaskInput::SyscallTrace(SyscallTraceState::Neither));
            r.flag(false);
        }
        _ => r.input(TaskInput::Done),
    }
    r.input(TaskInput::Completion(None));
    r.input(TaskInput::Unblocked { unblocked: false, retval: retval as usize });
    r
}

#[test]
fn an_interrupted_system_call_is_restarted_once() {
    let mut r = returned(-4, ReturnReason::Syscall);
    assert!(matches!(r.task.action(), TaskAction::QueryRestart { sysno: 63 }));
    r.flag(true);
    let info = SyscallRestartInfo { saved_a0: 8, saved_sysno: 63 };
    assert_eq!(r.phase(), TaskPhase::CheckSignals { restart: Some(info) });
    for _ in 0..3 {
        r.flag(true);
        assert_eq!(r.phase(), TaskPhase::CheckSignals { restart: None });
    }
    r.flag(false);
    r.resume();
}

#[test]
fn other_system_calls_are_not_restarted() {
    let none = TaskPhase::CheckSignals { restart: None };
    let mut r = returned(-4, ReturnReason::Syscall);
    r.flag(false);
    assert_eq!(r.phase(), none);
    assert_eq!(returned(-3, ReturnReason::Syscall).phase(), none);
    assert_eq!(returned(4, ReturnReason::Syscall).phase(), none);
    assert_eq!(returned(-4, ReturnReason::Interrupt).phase(), none);
}

// ---------- Boot ----------

fn strings(v: &[&str]) -> Vec<String> {
    v.iter().map(|s| s.to_string()).collect()
}

fn boot(arch: Arch) -> Boot {
    init(arch, strings(&["/sbin/init", "-v"]), strings(&["A=1"])).unwrap_or_else(|_| panic!())
}

/// The outcome of a step that succeeds.
fn success(step: BootStep) -> BootInput {
    match step {
        BootStep::ResolveInit => BootInput::Located(Ok((44, "busybox".to_string()))),
        BootStep::AbsolutePath => BootInput::Path(Ok("/bin/busybox".to_string())),
        BootStep::LoadInit => BootInput::Program(Ok((0x1_0040, 0x7fe0, vector()))),
        BootStep::CreateTask => BootInput::Created(0x1_0000_0002),
        _ => BootInput::Done(Ok(())),
    }
}

fn failed(step: BootStep) -> BootInput {
    let e = KernelError::Other(5);
    match step {
        BootStep::ResolveInit => BootInput::Located(Err(e)),
        BootStep::AbsolutePath => BootInput::Path(Err(e)),
        BootStep::LoadInit => BootInput::Program(Err(e)),
        _ => BootInput::Done(Err(e)),
    }
}

fn vector() -> Vec<AuxEntry> {
    vec![AuxEntry { kind: AuxType::Pagesz, value: 4096 }]
}

#[test]
fn boot_goes_through_all_steps() {
    for arch in ARCHS {
        let mut b = boot(arch);
        let mut steps = Vec::new();
        while b.step != BootStep::Finished {
            steps.push(b.step);
            assert_eq!(b.advance(success(b.step)), Ok(()));
        }
        assert!(matches!(b.action(), BootAction::Nothing));
        let mut expected = vec![
            BootStep::StaticKeys,
            BootStep::Tracepoints,
            BootStep::Ebpf,
            BootStep::PerfEvents,
            BootStep::Kmod,
            BootStep::KprobeSelftest,
            BootStep::MountPseudofs,
            BootStep::SpawnAlarm,
            BootStep::SpawnIoWorker,
            BootStep::RegisterReclaim,
            BootStep::ResolveInit,
            BootStep::AbsolutePath,
            BootStep::CreateSpace,
            BootStep::LoadInit,
            BootStep::CreateTask,
            BootStep::CreateProcess,
            BootStep::BindTty,
            BootStep::AddStdio,
            BootStep::SpawnTask,
            BootStep::JoinTask,
            BootStep::UnmountAll,
            BootStep::FlushRoot,
        ];
        if arch == Arch::Loongarch64 {
            expected.remove(5);
        }
        assert_eq!(steps, expected);
    }
}

#[test]
fn boot_runs_the_program_at_the_first_argument() {
    let mut b = boot(Arch::Riscv64);
    let mut seen = 0;
    while b.step != BootStep::Finished {
        match b.action() {
            BootAction::Resolve { path } => assert_eq!(path, "/sbin/init"),
            BootAction::AbsolutePath { location } => assert_eq!(location, 44),
            BootAction::Load { path, args, envs } => {
                assert_eq!(path, None);
                assert_eq!(args, strings(&["/sbin/init", "-v"]));
                assert_eq!(envs, strings(&["A=1"]));
            }
            BootAction::CreateTask { name, location, entry, sp, arg0, set_child_tid } => {
                assert_eq!((name.as_str(), location), ("busybox", 44));
                assert_eq!((entry, sp, arg0, set_child_tid), (0x1_0040, 0x7fe0, 0, 0));
            }
            BootAction::CreateProcess { pid } => assert_eq!(pid, 2),
            BootAction::BindTty { pid } => assert_eq!(pid, 2),
            BootAction::AddStdio { pid } => assert_eq!(pid, 2),
            BootAction::SpawnTask { pid, path, args, auxv } => {
                assert_eq!((pid, path.as_str()), (2, "/bin/busybox"));
                assert_eq!(args, strings(&["/sbin/init", "-v"]));
                assert_eq!(auxv, vector());
            }
            BootAction::Service { step } => {
                assert_eq!(step, b.step);
                seen += 1;
            }
            BootAction::Nothing => panic!("not finished"),
        }
        b.advance(success(b.step)).unwrap();
    }
    assert_eq!(seen, 14);
}

#[test]
fn boot_needs_a_program() {
    assert!(matches!(init(Arch::Riscv64, vec![], vec![]), Err(Fault::NoProgram)));
}

#[test]
fn a_failed_step_stops_the_boot() {
    for (step, text) in [
        (BootStep::Tracepoints, "Failed to initialize tracepoints"),
        (BootStep::MountPseudofs, "Failed to mount pseudofs"),
        (BootStep::ResolveInit, "Failed to resolve executable path"),
        (BootStep::AbsolutePath, "Failed to get executable absolute path"),
        (BootStep::CreateSpace, "Failed to create user address space"),
        (BootStep::LoadInit, "Failed to load user app"),
        (BootStep::BindTty, "Failed to bind ntty"),
        (BootStep::AddStdio, "Failed to add stdio"),
        (BootStep::UnmountAll, "Failed to unmount all filesystems"),
        (BootStep::FlushRoot, "Failed to flush rootfs"),
    ] {
        assert_eq!(failure(step), Some(text));
        let mut b = boot(Arch::Riscv64);
        while b.step != step {
            b.advance(success(b.step)).unwrap();
        }
        assert_eq!(b.advance(failed(step)), Err(text));
        assert_eq!(b.step, step);
    }
    assert_eq!(failure(BootStep::Kmod), None);
}

#[test]
fn first_process_has_the_number_of_its_task() {
    assert_eq!(init_pid(2), 2);
    assert_eq!(init_pid(0x1_0000_0003), 3);
}
