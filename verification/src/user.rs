//! What stops user code, what the kernel learns of it, and which system calls
//! end a task.

use vstd::prelude::*;
use crate::arch::Arch;

verus! {

/// The signals that the kernel raises or reports.
#[derive(Clone, Copy, PartialEq, Eq, Structural, Debug)]
pub enum Signo {
    Stop,
    Trap,
    Segv,
    Bus,
    Ill,
}

/// What an exception is about.
#[derive(Clone, Copy, PartialEq, Eq, Structural, Debug)]
pub enum ExceptionKind {
    Breakpoint,
    Misaligned,
    IllegalInstruction,
    Other,
}

/// Why user code stopped.
#[derive(Clone, Copy, PartialEq, Eq, Structural, Debug)]
pub enum ReturnReason {
    Syscall,
    PageFault { addr: usize, flags: u32 },
    Interrupt,
    Exception(ExceptionKind),
    Other,
}

/// At which end of a system call a tracer waits for the task.
#[derive(Clone, Copy, PartialEq, Eq, Structural, Debug)]
pub enum SyscallTraceState {
    Neither,
    Entry,
    Exit,
}

/// Whose time is counted.
#[derive(Clone, Copy, PartialEq, Eq, Structural, Debug)]
pub enum TimerState {
    User,
    Kernel,
}

/// How the process is traced.
#[derive(Clone, Copy, PartialEq, Eq, Structural, Debug)]
pub struct TraceFlags {
    pub singlestep: bool,
    pub traceme: bool,
    pub attached: bool,
}

/// The registers with which a system call is made again.
#[derive(Clone, Copy, PartialEq, Eq, Structural, Debug)]
pub struct SyscallRestartInfo {
    pub saved_a0: usize,
    pub saved_sysno: usize,
}

// ---------- System calls that end a task ----------

/// A system call that ends a task.
#[derive(Clone, Copy, PartialEq, Eq, Structural, Debug)]
pub enum ExitCall {
    Exit,
    ExitGroup,
}

/// The number of a system call that ends a task.
pub open spec fn exit_number(arch: Arch, c: ExitCall) -> usize {
    match (arch, c) {
        (Arch::X86_64, ExitCall::Exit) => 60,
        (Arch::X86_64, ExitCall::ExitGroup) => 231,
        (_, ExitCall::Exit) => 93,
        (_, ExitCall::ExitGroup) => 94,
    }
}

/// Whether `r` is the call with the number `sysno`, if that ends a task.
pub open spec fn is_exit_call(arch: Arch, sysno: usize, r: Option<ExitCall>) -> bool {
    match r {
        Some(c) => sysno == exit_number(arch, c),
        None => forall|c: ExitCall| sysno != #[trigger] exit_number(arch, c),
    }
}

/// `syscalls::x86_64::Sysno::new`. Trusted: which numbers are those of `exit`
/// and `exit_group`.
#[verifier::external_body]
fn exit_call_x86_64(sysno: usize) -> (r: Option<ExitCall>)
    ensures
        is_exit_call(Arch::X86_64, sysno, r),
{
    match syscalls::x86_64::Sysno::new(sysno) {
        Some(syscalls::x86_64::Sysno::exit) => Some(ExitCall::Exit),
        Some(syscalls::x86_64::Sysno::exit_group) => Some(ExitCall::ExitGroup),
        _ => None,
    }
}

/// `syscalls::aarch64::Sysno::new`. Trusted: which numbers are those of `exit`
/// and `exit_group`.
#[verifier::external_body]
fn exit_call_aarch64(sysno: usize) -> (r: Option<ExitCall>)
    ensures
        is_exit_call(Arch::Aarch64, sysno, r),
{
    match syscalls::aarch64::Sysno::new(sysno) {
        Some(syscalls::aarch64::Sysno::exit) => Some(ExitCall::Exit),
        Some(syscalls::aarch64::Sysno::exit_group) => Some(ExitCall::ExitGroup),
        _ => None,
    }
}

/// `syscalls::riscv64::Sysno::new`. Trusted: which numbers are those of `exit`
/// and `exit_group`.
#[verifier::external_body]
fn exit_call_riscv64(sysno: usize) -> (r: Option<ExitCall>)
    ensures
        is_exit_call(Arch::Riscv64, sysno, r),
{
    match syscalls::riscv64::Sysno::new(sysno) {
        Some(syscalls::riscv64::Sysno::exit) => Some(ExitCall::Exit),
        Some(syscalls::riscv64::Sysno::exit_group) => Some(ExitCall::ExitGroup),
        _ => None,
    }
}

/// `syscalls::loongarch64::Sysno::new`. Trusted: which numbers are those of
/// `exit` and `exit_group`.
#[verifier::external_body]
fn exit_call_loongarch64(sysno: usize) -> (r: Option<ExitCall>)
    ensures
        is_exit_call(Arch::Loongarch64, sysno, r),
{
    match syscalls::loongarch64::Sysno::new(sysno) {
        Some(syscalls::loongarch64::Sysno::exit) => Some(ExitCall::Exit),
        Some(syscalls::loongarch64::Sysno::exit_group) => Some(ExitCall::ExitGroup),
        _ => None,
    }
}

/// The status that a tracer is told when a task is about to end: the exit code,
/// in the second byte. `None` if the system call does not end the task.
pub open spec fn exit_status(arch: Arch, sysno: usize, arg0: usize) -> Option<i32> {
    if sysno == exit_number(arch, ExitCall::Exit) || sysno == exit_number(
        arch,
        ExitCall::ExitGroup,
    ) {
        Some((arg0 as i32) << 8)
    } else {
        None
    }
}

/// The status that a tracer is told when a task is about to end.
pub fn ptrace_exit_event_code(arch: Arch, sysno: usize, arg0: usize) -> (r: Option<i32>)
    ensures
        r == exit_status(arch, sysno, arg0),
{
    let call = match arch {
        Arch::X86_64 => exit_call_x86_64(sysno),
        Arch::Aarch64 => exit_call_aarch64(sysno),
        Arch::Riscv64 => exit_call_riscv64(sysno),
        Arch::Loongarch64 => exit_call_loongarch64(sysno),
    };
    match call {
        Some(_) => Some((arg0 as i32) << 8),
        None => None,
    }
}

/// The number of the error that an interrupted system call returns.
pub const EINTR: i32 = 4;

/// `ax_errno::LinuxError::EINTR`. Trusted: its number.
#[verifier::external_body]
pub(crate) fn interrupted() -> (r: i32)
    ensures
        r == EINTR,
{
    ax_errno::LinuxError::EINTR.code()
}

// ---------- Exceptions ----------

/// What the processor tells of an exception.
#[derive(Clone, Copy, PartialEq, Eq, Structural, Debug)]
pub struct ExceptionInfo {
    /// The register that holds the address of a fault: `far`, `stval`, `badv`
    /// or `cr2`.
    pub fault_addr: usize,
    /// The syndrome, its class and its details, on a processor that has them.
    pub esr: u64,
    pub ec: u64,
    pub iss: u64,
}

/// The address that a fault is about.
pub fn exception_fault_addr(info: &ExceptionInfo) -> (r: usize)
    ensures
        r == info.fault_addr,
{
    info.fault_addr
}

/// The syndrome of an exception; zero where there is none.
pub fn exception_esr_value(arch: Arch, info: &ExceptionInfo) -> (r: u64)
    ensures
        r == (if arch == Arch::Aarch64 { info.esr } else { 0 }),
{
    match arch {
        Arch::Aarch64 => info.esr,
        _ => 0,
    }
}

/// The class of an exception; zero where there is none.
pub fn exception_ec_value(arch: Arch, info: &ExceptionInfo) -> (r: u64)
    ensures
        r == (if arch == Arch::Aarch64 { info.ec } else { 0 }),
{
    match arch {
        Arch::Aarch64 => info.ec,
        _ => 0,
    }
}

/// The details of an exception; zero where there are none.
pub fn exception_iss_value(arch: Arch, info: &ExceptionInfo) -> (r: u64)
    ensures
        r == (if arch == Arch::Aarch64 { info.iss } else { 0 }),
{
    match arch {
        Arch::Aarch64 => info.iss,
        _ => 0,
    }
}

// ---------- Laws ----------

/// A tracer is told of the end of a task for `exit` and `exit_group` alone: the
/// calls 60 and 231 on x86_64, and 93 and 94 elsewhere. What it is told has the
/// exit code in the second byte and nothing below.
pub proof fn law_exit_status(arch: Arch, sysno: usize, arg0: usize)
    ensures
        exit_status(arch, sysno, arg0) is Some <==> if arch == Arch::X86_64 {
            sysno == 60 || sysno == 231
        } else {
            sysno == 93 || sysno == 94
        },
        exit_status(arch, sysno, arg0) matches Some(code) ==> {
            &&& code as u8 == 0
            &&& (code >> 8) as u8 == arg0 as u8
            &&& code as u32 == ((arg0 as u32) << 8)
        },
{
    assert((((arg0 as i32) << 8) as u8) == 0) by (bit_vector);
    assert(((((arg0 as i32) << 8) >> 8) as u8) == arg0 as u8) by (bit_vector);
    assert((((arg0 as i32) << 8) as u32) == ((arg0 as u32) << 8)) by (bit_vector);
}

/// The address of a fault is told on every processor, and the syndrome with its
/// class and its details on AArch64 alone.
pub proof fn law_exception_values(
    arch: Arch,
    info: &ExceptionInfo,
    addr: usize,
    esr: u64,
    ec: u64,
    iss: u64,
)
    requires
        call_ensures(exception_fault_addr, (info,), addr),
        call_ensures(exception_esr_value, (arch, info), esr),
        call_ensures(exception_ec_value, (arch, info), ec),
        call_ensures(exception_iss_value, (arch, info), iss),
    ensures
        addr == info.fault_addr,
        arch == Arch::Aarch64 ==> (esr, ec, iss) == (info.esr, info.ec, info.iss),
        arch != Arch::Aarch64 ==> (esr, ec, iss) == (0u64, 0u64, 0u64),
{
}

} // verus!
