//! Bringing the kernel up and running the first program.

use vstd::prelude::*;
use vstd::slice::slice_to_vec;
use crate::arch::Arch;
use crate::auxv::AuxEntry;
use crate::error::{Fault, KernelError};
use crate::stack::texts;
use crate::user_app::append;

verus! {

/// A step of bringing the kernel up.
#[derive(Clone, Copy, PartialEq, Eq, Structural, Debug)]
pub enum BootStep {
    StaticKeys,
    Tracepoints,
    Ebpf,
    PerfEvents,
    Kmod,
    KprobeSelftest,
    MountPseudofs,
    SpawnAlarm,
    SpawnIoWorker,
    RegisterReclaim,
    /// Find the first program, whose path is the first argument.
    ResolveInit,
    AbsolutePath,
    /// Create a user address space, with the kernel's part where it needs one.
    CreateSpace,
    LoadInit,
    /// Create the first task, which runs the program.
    CreateTask,
    /// Create a process with the number of the task, and the task as its thread.
    CreateProcess,
    BindTty,
    AddStdio,
    SpawnTask,
    /// Wait until the first task is over.
    JoinTask,
    UnmountAll,
    FlushRoot,
    /// Nothing: the system can be halted.
    Finished,
}

/// The step that follows `s`. The test of kernel probes is left out on
/// LoongArch.
pub open spec fn next_step(arch: Arch, s: BootStep) -> BootStep {
    match s {
        BootStep::StaticKeys => BootStep::Tracepoints,
        BootStep::Tracepoints => BootStep::Ebpf,
        BootStep::Ebpf => BootStep::PerfEvents,
        BootStep::PerfEvents => BootStep::Kmod,
        BootStep::Kmod => if arch == Arch::Loongarch64 {
            BootStep::MountPseudofs
        } else {
            BootStep::KprobeSelftest
        },
        BootStep::KprobeSelftest => BootStep::MountPseudofs,
        BootStep::MountPseudofs => BootStep::SpawnAlarm,
        BootStep::SpawnAlarm => BootStep::SpawnIoWorker,
        BootStep::SpawnIoWorker => BootStep::RegisterReclaim,
        BootStep::RegisterReclaim => BootStep::ResolveInit,
        BootStep::ResolveInit => BootStep::AbsolutePath,
        BootStep::AbsolutePath => BootStep::CreateSpace,
        BootStep::CreateSpace => BootStep::LoadInit,
        BootStep::LoadInit => BootStep::CreateTask,
        BootStep::CreateTask => BootStep::CreateProcess,
        BootStep::CreateProcess => BootStep::BindTty,
        BootStep::BindTty => BootStep::AddStdio,
        BootStep::AddStdio => BootStep::SpawnTask,
        BootStep::SpawnTask => BootStep::JoinTask,
        BootStep::JoinTask => BootStep::UnmountAll,
        BootStep::UnmountAll => BootStep::FlushRoot,
        BootStep::FlushRoot | BootStep::Finished => BootStep::Finished,
    }
}

/// What the kernel says when it stops because a step failed. `None` for a step
/// that cannot fail.
pub open spec fn failure_text(s: BootStep) -> Option<&'static str> {
    match s {
        BootStep::Tracepoints => Some("Failed to initialize tracepoints"),
        BootStep::MountPseudofs => Some("Failed to mount pseudofs"),
        BootStep::ResolveInit => Some("Failed to resolve executable path"),
        BootStep::AbsolutePath => Some("Failed to get executable absolute path"),
        BootStep::CreateSpace => Some("Failed to create user address space"),
        BootStep::LoadInit => Some("Failed to load user app"),
        BootStep::BindTty => Some("Failed to bind ntty"),
        BootStep::AddStdio => Some("Failed to add stdio"),
        BootStep::UnmountAll => Some("Failed to unmount all filesystems"),
        BootStep::FlushRoot => Some("Failed to flush rootfs"),
        _ => None,
    }
}

/// What the kernel says when it stops because a step failed.
pub fn failure(s: BootStep) -> (r: Option<&'static str>)
    ensures
        r == failure_text(s),
{
    match s {
        BootStep::Tracepoints => Some("Failed to initialize tracepoints"),
        BootStep::MountPseudofs => Some("Failed to mount pseudofs"),
        BootStep::ResolveInit => Some("Failed to resolve executable path"),
        BootStep::AbsolutePath => Some("Failed to get executable absolute path"),
        BootStep::CreateSpace => Some("Failed to create user address space"),
        BootStep::LoadInit => Some("Failed to load user app"),
        BootStep::BindTty => Some("Failed to bind ntty"),
        BootStep::AddStdio => Some("Failed to add stdio"),
        BootStep::UnmountAll => Some("Failed to unmount all filesystems"),
        BootStep::FlushRoot => Some("Failed to flush rootfs"),
        _ => None,
    }
}

/// The step that follows `s`.
fn following(arch: Arch, s: BootStep) -> (r: BootStep)
    ensures
        r == next_step(arch, s),
{
    match s {
            BootStep::StaticKeys => BootStep::Tracepoints,
            BootStep::Tracepoints => BootStep::Ebpf,
            BootStep::Ebpf => BootStep::PerfEvents,
            BootStep::PerfEvents => BootStep::Kmod,
            BootStep::Kmod => match arch {
                Arch::Loongarch64 => BootStep::MountPseudofs,
                _ => BootStep::KprobeSelftest,
            },
            BootStep::KprobeSelftest => BootStep::MountPseudofs,
            BootStep::MountPseudofs => BootStep::SpawnAlarm,
            BootStep::SpawnAlarm => BootStep::SpawnIoWorker,
            BootStep::SpawnIoWorker => BootStep::RegisterReclaim,
            BootStep::RegisterReclaim => BootStep::ResolveInit,
            BootStep::ResolveInit => BootStep::AbsolutePath,
            BootStep::AbsolutePath => BootStep::CreateSpace,
            BootStep::CreateSpace => BootStep::LoadInit,
            BootStep::LoadInit => BootStep::CreateTask,
            BootStep::CreateTask => BootStep::CreateProcess,
        BootStep::CreateProcess => BootStep::BindTty,
            BootStep::BindTty => BootStep::AddStdio,
            BootStep::AddStdio => BootStep::SpawnTask,
            BootStep::SpawnTask => BootStep::JoinTask,
            BootStep::JoinTask => BootStep::UnmountAll,
            BootStep::UnmountAll => BootStep::FlushRoot,
            BootStep::FlushRoot | BootStep::Finished => BootStep::Finished,
    }
}

/// The number of the process that the first task belongs to: the lower half of
/// the task's number.
pub fn init_pid(task_id: u64) -> (r: u32)
    ensures
        r == task_id as u32,
        r as int == task_id as int % 0x1_0000_0000,
{
    assert(task_id as u32 == task_id % 0x1_0000_0000) by (bit_vector);
    task_id as u32
}

/// What is to be done next.
pub enum BootAction {
    /// Perform a step that takes nothing from the steps before.
    Service { step: BootStep },
    /// Find the file at `path`.
    Resolve { path: String },
    /// Find the absolute path of a file.
    AbsolutePath { location: u64 },
    /// Load a program into the user address space.
    Load { path: Option<String>, args: Vec<String>, envs: Vec<String> },
    /// Create a task that runs the program in the file at `location`, from
    /// `entry` on, with the stack pointer `sp` and the first argument `arg0`.
    CreateTask {
        name: String,
        location: u64,
        entry: usize,
        sp: usize,
        arg0: usize,
        set_child_tid: usize,
    },
    /// Create the first process, with the task as its thread.
    CreateProcess { pid: u32 },
    /// Give the process the terminal.
    BindTty { pid: u32 },
    /// Give the process its standard files.
    AddStdio { pid: u32 },
    /// Let the task run as a thread of the process, whose image has the given
    /// path, arguments and auxiliary vector.
    SpawnTask { pid: u32, path: String, args: Vec<String>, auxv: Vec<AuxEntry> },
    /// Nothing: the system can be halted.
    Nothing,
}

/// What is to be done next, as a value of the specification.
pub ghost enum BootRequest {
    Service { step: BootStep },
    Resolve { path: Seq<char> },
    AbsolutePath { location: u64 },
    Load { path: Option<Seq<char>>, args: Seq<Seq<char>>, envs: Seq<Seq<char>> },
    CreateTask {
        name: Seq<char>,
        location: u64,
        entry: usize,
        sp: usize,
        arg0: usize,
        set_child_tid: usize,
    },
    CreateProcess { pid: u32 },
    BindTty { pid: u32 },
    AddStdio { pid: u32 },
    SpawnTask { pid: u32, path: Seq<char>, args: Seq<Seq<char>>, auxv: Seq<AuxEntry> },
    Nothing,
}

impl View for BootAction {
    type V = BootRequest;

    open spec fn view(&self) -> BootRequest {
        match *self {
            BootAction::Service { step } => BootRequest::Service { step },
            BootAction::Resolve { path } => BootRequest::Resolve { path: path@ },
            BootAction::AbsolutePath { location } => BootRequest::AbsolutePath { location },
            BootAction::Load { path, args, envs } => BootRequest::Load {
                path: match path {
                    Some(p) => Some(p@),
                    None => None,
                },
                args: texts(args@),
                envs: texts(envs@),
            },
            BootAction::CreateTask { name, location, entry, sp, arg0, set_child_tid } => {
                BootRequest::CreateTask { name: name@, location, entry, sp, arg0, set_child_tid }
            },
            BootAction::CreateProcess { pid } => BootRequest::CreateProcess { pid },
            BootAction::BindTty { pid } => BootRequest::BindTty { pid },
            BootAction::AddStdio { pid } => BootRequest::AddStdio { pid },
            BootAction::SpawnTask { pid, path, args, auxv } => BootRequest::SpawnTask {
                pid,
                path: path@,
                args: texts(args@),
                auxv: auxv@,
            },
            BootAction::Nothing => BootRequest::Nothing,
        }
    }
}

/// The outcome of a step.
pub enum BootInput {
    /// Whether the step succeeded.
    Done(Result<(), KernelError>),
    /// The number and the name of a file.
    Located(Result<(u64, String), KernelError>),
    /// An absolute path.
    Path(Result<String, KernelError>),
    /// The entry point of a program, its stack pointer and its auxiliary vector.
    Program(Result<(usize, usize, Vec<AuxEntry>), KernelError>),
    /// The number of a task.
    Created(u64),
}

/// The outcome of a step, as a value of the specification.
pub ghost enum BootAnswer {
    Done(Result<(), KernelError>),
    Located(Result<(u64, Seq<char>), KernelError>),
    Path(Result<Seq<char>, KernelError>),
    Program(Result<(usize, usize, Seq<AuxEntry>), KernelError>),
    Created(u64),
}

impl View for BootInput {
    type V = BootAnswer;

    open spec fn view(&self) -> BootAnswer {
        match *self {
            BootInput::Done(r) => BootAnswer::Done(r),
            BootInput::Located(Ok((location, name))) => BootAnswer::Located(Ok((location, name@))),
            BootInput::Located(Err(e)) => BootAnswer::Located(Err(e)),
            BootInput::Path(Ok(path)) => BootAnswer::Path(Ok(path@)),
            BootInput::Path(Err(e)) => BootAnswer::Path(Err(e)),
            BootInput::Program(Ok((entry, sp, auxv))) => BootAnswer::Program(
                Ok((entry, sp, auxv@)),
            ),
            BootInput::Program(Err(e)) => BootAnswer::Program(Err(e)),
            BootInput::Created(id) => BootAnswer::Created(id),
        }
    }
}

/// The state of the bringing up of the kernel, as a value of the specification.
#[verifier::ext_equal]
pub ghost struct BootState {
    pub arch: Arch,
    pub args: Seq<Seq<char>>,
    pub envs: Seq<Seq<char>>,
    /// The file that the first program is in, and its name and absolute path.
    pub location: u64,
    pub name: Seq<char>,
    pub path: Seq<char>,
    /// Where the program starts, its stack pointer and its auxiliary vector.
    pub entry: usize,
    pub sp: usize,
    pub auxv: Seq<AuxEntry>,
    /// The number of the first process.
    pub pid: u32,
    pub step: BootStep,
}

impl BootState {
    /// What is to be done in the current step. The first argument is the path of
    /// the first program, which is loaded with all the arguments and the
    /// environment. The task starts where the load says; its process has the
    /// path, the arguments and the auxiliary vector of the program.
    pub open spec fn request(self) -> BootRequest {
        match self.step {
            BootStep::ResolveInit => BootRequest::Resolve { path: self.args[0] },
            BootStep::AbsolutePath => BootRequest::AbsolutePath { location: self.location },
            BootStep::LoadInit => BootRequest::Load {
                path: None,
                args: self.args,
                envs: self.envs,
            },
            BootStep::CreateTask => BootRequest::CreateTask {
                name: self.name,
                location: self.location,
                entry: self.entry,
                sp: self.sp,
                arg0: 0,
                set_child_tid: 0,
            },
            BootStep::CreateProcess => BootRequest::CreateProcess { pid: self.pid },
            BootStep::BindTty => BootRequest::BindTty { pid: self.pid },
            BootStep::AddStdio => BootRequest::AddStdio { pid: self.pid },
            BootStep::SpawnTask => BootRequest::SpawnTask {
                pid: self.pid,
                path: self.path,
                args: self.args,
                auxv: self.auxv,
            },
            BootStep::Finished => BootRequest::Nothing,
            step => BootRequest::Service { step },
        }
    }

    /// Whether `a` is an outcome of the current step. Only a step with a text for
    /// its failure can fail.
    pub open spec fn accepts(self, a: BootAnswer) -> bool {
        match self.step {
            BootStep::ResolveInit => a is Located,
            BootStep::AbsolutePath => a is Path,
            BootStep::LoadInit => a is Program,
            BootStep::CreateTask => a is Created,
            BootStep::Finished => false,
            _ => a matches BootAnswer::Done(r) && (r is Err ==> failure_text(self.step) is Some),
        }
    }

    /// The state after the outcome `a`, which keeps what the step came to; or the
    /// text with which the kernel stops.
    pub open spec fn after(self, a: BootAnswer) -> Result<BootState, &'static str> {
        let step = next_step(self.arch, self.step);
        match a {
            BootAnswer::Done(Ok(_)) => Ok(BootState { step, ..self }),
            BootAnswer::Located(Ok((location, name))) => Ok(
                BootState { location, name, step, ..self },
            ),
            BootAnswer::Path(Ok(path)) => Ok(BootState { path, step, ..self }),
            BootAnswer::Program(Ok((entry, sp, auxv))) => Ok(
                BootState { entry, sp, auxv, step, ..self },
            ),
            BootAnswer::Created(id) => Ok(BootState { pid: id as u32, step, ..self }),
            _ => Err(failure_text(self.step)->0),
        }
    }
}

/// The bringing up of the kernel.
pub struct Boot {
    pub arch: Arch,
    pub args: Vec<String>,
    pub envs: Vec<String>,
    pub location: u64,
    pub name: String,
    pub path: String,
    pub entry: usize,
    pub sp: usize,
    pub auxv: Vec<AuxEntry>,
    pub pid: u32,
    pub step: BootStep,
}

impl View for Boot {
    type V = BootState;

    open spec fn view(&self) -> BootState {
        BootState {
            arch: self.arch,
            args: texts(self.args@),
            envs: texts(self.envs@),
            location: self.location,
            name: self.name@,
            path: self.path@,
            entry: self.entry,
            sp: self.sp,
            auxv: self.auxv@,
            pid: self.pid,
            step: self.step,
        }
    }
}

/// Begins to bring the kernel up and to run the program at the first argument.
pub fn init(arch: Arch, args: Vec<String>, envs: Vec<String>) -> (r: Result<Boot, Fault>)
    ensures
        if args@.len() == 0 {
            r == Err::<Boot, Fault>(Fault::NoProgram)
        } else {
            r matches Ok(b) && b@ == (BootState {
                arch,
                args: texts(args@),
                envs: texts(envs@),
                location: 0,
                name: Seq::empty(),
                path: Seq::empty(),
                entry: 0,
                sp: 0,
                auxv: Seq::empty(),
                pid: 0,
                step: BootStep::StaticKeys,
            })
        },
{
    if args.len() == 0 {
        return Err(Fault::NoProgram);
    }
    proof {
        reveal_strlit("");
        assert(""@ =~= Seq::<char>::empty());
    }
    Ok(
        Boot {
            arch,
            args,
            envs,
            location: 0,
            name: "".to_owned(),
            path: "".to_owned(),
            entry: 0,
            sp: 0,
            auxv: Vec::new(),
            pid: 0,
            step: BootStep::StaticKeys,
        },
    )
}

/// A copy of a list of strings.
fn copy(v: &Vec<String>) -> (r: Vec<String>)
    ensures
        texts(r@) == texts(v@),
{
    let mut r: Vec<String> = Vec::new();
    append(&mut r, v, 0);
    assert(texts(r@) =~= texts(v@));
    r
}

impl Boot {
    /// What is to be done in the current step.
    pub fn action(&self) -> (r: BootAction)
        requires
            self@.args.len() > 0,
        ensures
            r@ == self@.request(),
    {
        match self.step {
            BootStep::ResolveInit => BootAction::Resolve { path: self.args[0].clone() },
            BootStep::AbsolutePath => BootAction::AbsolutePath { location: self.location },
            BootStep::LoadInit => BootAction::Load {
                path: None,
                args: copy(&self.args),
                envs: copy(&self.envs),
            },
            BootStep::CreateTask => BootAction::CreateTask {
                name: self.name.clone(),
                location: self.location,
                entry: self.entry,
                sp: self.sp,
                arg0: 0,
                set_child_tid: 0,
            },
            BootStep::CreateProcess => BootAction::CreateProcess { pid: self.pid },
            BootStep::BindTty => BootAction::BindTty { pid: self.pid },
            BootStep::AddStdio => BootAction::AddStdio { pid: self.pid },
            BootStep::SpawnTask => BootAction::SpawnTask {
                pid: self.pid,
                path: self.path.clone(),
                args: copy(&self.args),
                auxv: slice_to_vec(self.auxv.as_slice()),
            },
            BootStep::Finished => BootAction::Nothing,
            step => BootAction::Service { step },
        }
    }

    /// Takes note of the outcome of the current step. If it failed, the kernel
    /// stops, with the text that is returned.
    pub fn advance(&mut self, input: BootInput) -> (r: Result<(), &'static str>)
        requires
            old(self)@.accepts(input@),
        ensures
            match old(self)@.after(input@) {
                Ok(s) => r is Ok && final(self)@ == s,
                Err(text) => r == Err::<(), &'static str>(text) && final(self)@ == old(self)@,
            },
    {
        match input {
            BootInput::Done(Ok(_)) => {},
            BootInput::Located(Ok((location, name))) => {
                self.location = location;
                self.name = name;
            },
            BootInput::Path(Ok(path)) => {
                self.path = path;
            },
            BootInput::Program(Ok((entry, sp, auxv))) => {
                self.entry = entry;
                self.sp = sp;
                self.auxv = auxv;
            },
            BootInput::Created(id) => {
                self.pid = init_pid(id);
            },
            _ => {
                return match failure(self.step) {
                    Some(text) => Err(text),
                    None => Ok(()),
                };
            },
        }
        self.step = following(self.arch, self.step);
        Ok(())
    }
}

/// The step after `n` successes.
pub open spec fn step_after(arch: Arch, n: nat) -> BootStep
    decreases n,
{
    if n == 0 {
        BootStep::StaticKeys
    } else {
        next_step(arch, step_after(arch, (n - 1) as nat))
    }
}

/// The steps, in order: the kernel's services come up, the first program runs,
/// and the file systems are put in order again.
pub open spec fn position(s: BootStep) -> int {
    match s {
        BootStep::StaticKeys => 0,
        BootStep::Tracepoints => 1,
        BootStep::Ebpf => 2,
        BootStep::PerfEvents => 3,
        BootStep::Kmod => 4,
        BootStep::KprobeSelftest => 5,
        BootStep::MountPseudofs => 6,
        BootStep::SpawnAlarm => 7,
        BootStep::SpawnIoWorker => 8,
        BootStep::RegisterReclaim => 9,
        BootStep::ResolveInit => 10,
        BootStep::AbsolutePath => 11,
        BootStep::CreateSpace => 12,
        BootStep::LoadInit => 13,
        BootStep::CreateTask => 14,
        BootStep::CreateProcess => 15,
        BootStep::BindTty => 16,
        BootStep::AddStdio => 17,
        BootStep::SpawnTask => 18,
        BootStep::JoinTask => 19,
        BootStep::UnmountAll => 20,
        BootStep::FlushRoot => 21,
        BootStep::Finished => 22,
    }
}

/// Where every step succeeds, the kernel goes through all of them, each once
/// and in order, and is then finished. On LoongArch the test of kernel probes
/// is the one step that is left out.
pub proof fn law_boot_order(arch: Arch, n: nat)
    ensures
        ({
            let skipped: int = if arch == Arch::Loongarch64 && n > 4 { 1 } else { 0 };
            position(step_after(arch, n)) == if n + skipped < 22 {
                n + skipped
            } else {
                22
            }
        }),
    decreases n,
{
    if n > 0 {
        law_boot_order(arch, (n - 1) as nat);
    }
}

/// What the steps come to where all of them succeed.
pub ghost struct BootWorld {
    pub location: u64,
    pub name: Seq<char>,
    pub path: Seq<char>,
    pub entry: usize,
    pub sp: usize,
    pub auxv: Seq<AuxEntry>,
    pub task_id: u64,
}

impl BootWorld {
    /// The outcome of a step.
    pub open spec fn answer(self, s: BootStep) -> BootAnswer {
        match s {
            BootStep::ResolveInit => BootAnswer::Located(Ok((self.location, self.name))),
            BootStep::AbsolutePath => BootAnswer::Path(Ok(self.path)),
            BootStep::LoadInit => BootAnswer::Program(Ok((self.entry, self.sp, self.auxv))),
            BootStep::CreateTask => BootAnswer::Created(self.task_id),
            _ => BootAnswer::Done(Ok(())),
        }
    }

    /// What is done in a step, with these arguments and this environment, given
    /// what the steps before have come to.
    pub open spec fn request(self, s: BootStep, args: Seq<Seq<char>>, envs: Seq<Seq<char>>) -> BootRequest {
        let pid = self.task_id as u32;
        match s {
            BootStep::ResolveInit => BootRequest::Resolve { path: args[0] },
            BootStep::AbsolutePath => BootRequest::AbsolutePath { location: self.location },
            BootStep::LoadInit => BootRequest::Load { path: None, args, envs },
            BootStep::CreateTask => BootRequest::CreateTask {
                name: self.name,
                location: self.location,
                entry: self.entry,
                sp: self.sp,
                arg0: 0,
                set_child_tid: 0,
            },
            BootStep::CreateProcess => BootRequest::CreateProcess { pid },
            BootStep::BindTty => BootRequest::BindTty { pid },
            BootStep::AddStdio => BootRequest::AddStdio { pid },
            BootStep::SpawnTask => BootRequest::SpawnTask {
                pid,
                path: self.path,
                args,
                auxv: self.auxv,
            },
            BootStep::Finished => BootRequest::Nothing,
            step => BootRequest::Service { step },
        }
    }
}

/// The state after `n` steps that succeed.
pub open spec fn state_after(s: BootState, w: BootWorld, n: nat) -> BootState
    decreases n,
{
    if n == 0 {
        s
    } else {
        let t = state_after(s, w, (n - 1) as nat);
        t.after(w.answer(t.step))->Ok_0
    }
}

/// Whether `t` has kept what the steps before its own have come to.
pub open spec fn has_kept(t: BootState, w: BootWorld) -> bool {
    let p = position(t.step);
    &&& p > position(BootStep::ResolveInit) ==> t.location == w.location && t.name == w.name
    &&& p > position(BootStep::AbsolutePath) ==> t.path == w.path
    &&& p > position(BootStep::LoadInit) ==> t.entry == w.entry && t.sp == w.sp && t.auxv == w.auxv
    &&& p > position(BootStep::CreateTask) ==> t.pid == w.task_id as u32
}

/// The first program is the file at the first argument, and it is loaded with
/// the given arguments and environment. One task runs it, under the name of the
/// file, from the entry point and with the stack pointer that the load gave; its
/// process has the number of the task, and the absolute path of the file, the
/// arguments and the auxiliary vector for its image. The kernel waits for the
/// task before it unmounts the file systems, and flushes the root file system
/// after that. This is so where every step succeeds.
pub proof fn law_init(s: BootState, w: BootWorld, n: nat)
    requires
        s.step == BootStep::StaticKeys,
    ensures
        ({
            let t = state_after(s, w, n);
            &&& t.step == step_after(s.arch, n)
            &&& t.request() == w.request(t.step, s.args, s.envs)
            &&& (t.arch, t.args, t.envs) == (s.arch, s.args, s.envs)
            &&& has_kept(t, w)
        }),
    decreases n,
{
    if n > 0 {
        law_init(s, w, (n - 1) as nat);
    }
}

/// The steps of bringing the kernel up, one after the other. On LoongArch there is
/// no test of kernel probes. The file systems are unmounted only when the first
/// task is over, and the root file system is flushed last.
pub proof fn law_boot_steps(arch: Arch, n: nat)
    ensures
        ({
            let services = seq![
                BootStep::StaticKeys,
                BootStep::Tracepoints,
                BootStep::Ebpf,
                BootStep::PerfEvents,
                BootStep::Kmod,
            ];
            let test = if arch == Arch::Loongarch64 {
                Seq::empty()
            } else {
                seq![BootStep::KprobeSelftest]
            };
            let more = seq![
                BootStep::MountPseudofs,
                BootStep::SpawnAlarm,
                BootStep::SpawnIoWorker,
                BootStep::RegisterReclaim,
            ];
            let program = seq![
                BootStep::ResolveInit,
                BootStep::AbsolutePath,
                BootStep::CreateSpace,
                BootStep::LoadInit,
                BootStep::CreateTask,
                BootStep::CreateProcess,
                BootStep::BindTty,
                BootStep::AddStdio,
                BootStep::SpawnTask,
                BootStep::JoinTask,
            ];
            let end = seq![BootStep::UnmountAll, BootStep::FlushRoot];
            let all = services + test + more + program + end;
            step_after(arch, n) == if n < all.len() {
                all[n as int]
            } else {
                BootStep::Finished
            }
        }),
    decreases n,
{
    if n > 0 {
        law_boot_steps(arch, (n - 1) as nat);
    }
}

/// What is done in each step where every step succeeds. The first program is the
/// file that the first argument names, loaded with all the arguments and the
/// environment and without a path of its own. Its task has the name of the file,
/// starts at the entry point with the stack pointer of the load and with zero for
/// its argument, and has no place to write its number to. The process has the
/// number of the task, and its image the absolute path, the arguments and the
/// auxiliary vector.
pub proof fn law_boot_requests(s: BootState, w: BootWorld, n: nat)
    requires
        s.step == BootStep::StaticKeys,
    ensures
        ({
            let t = state_after(s, w, n);
            t.step != BootStep::Finished ==> t.accepts(w.answer(t.step))
        }),
        ({
            let t = state_after(s, w, n);
            let pid = w.task_id as u32;
            match t.step {
                BootStep::ResolveInit => t.request() == (BootRequest::Resolve { path: s.args[0] }),
                BootStep::AbsolutePath => t.request() == (BootRequest::AbsolutePath {
                    location: w.location,
                }),
                BootStep::LoadInit => t.request() == (BootRequest::Load {
                    path: None,
                    args: s.args,
                    envs: s.envs,
                }),
                BootStep::CreateTask => t.request() == (BootRequest::CreateTask {
                    name: w.name,
                    location: w.location,
                    entry: w.entry,
                    sp: w.sp,
                    arg0: 0,
                    set_child_tid: 0,
                }),
                BootStep::CreateProcess => t.request() == (BootRequest::CreateProcess { pid }),
                BootStep::BindTty => t.request() == (BootRequest::BindTty { pid }),
                BootStep::AddStdio => t.request() == (BootRequest::AddStdio { pid }),
                BootStep::SpawnTask => t.request() == (BootRequest::SpawnTask {
                    pid,
                    path: w.path,
                    args: s.args,
                    auxv: w.auxv,
                }),
                BootStep::Finished => t.request() == BootRequest::Nothing,
                step => t.request() == (BootRequest::Service { step }),
            }
        }),
{
    law_init(s, w, n);
}

/// A step that can fail stops the kernel when it does, with the text that belongs
/// to it, and the other steps are not taken.
pub proof fn law_boot_fails(s: BootState, e: KernelError)
    ensures
        ({
            let a = match s.step {
                BootStep::ResolveInit => BootAnswer::Located(Err(e)),
                BootStep::AbsolutePath => BootAnswer::Path(Err(e)),
                BootStep::LoadInit => BootAnswer::Program(Err(e)),
                _ => BootAnswer::Done(Err(e)),
            };
            let r = s.after(a);
            match s.step {
                BootStep::Tracepoints => s.accepts(a) && (r matches Err(t) && t
                    == "Failed to initialize tracepoints"),
                BootStep::MountPseudofs => s.accepts(a) && (r matches Err(t) && t
                    == "Failed to mount pseudofs"),
                BootStep::ResolveInit => s.accepts(a) && (r matches Err(t) && t
                    == "Failed to resolve executable path"),
                BootStep::AbsolutePath => s.accepts(a) && (r matches Err(t) && t
                    == "Failed to get executable absolute path"),
                BootStep::CreateSpace => s.accepts(a) && (r matches Err(t) && t
                    == "Failed to create user address space"),
                BootStep::LoadInit => s.accepts(a) && (r matches Err(t) && t
                    == "Failed to load user app"),
                BootStep::BindTty => s.accepts(a) && (r matches Err(t) && t
                    == "Failed to bind ntty"),
                BootStep::AddStdio => s.accepts(a) && (r matches Err(t) && t
                    == "Failed to add stdio"),
                BootStep::UnmountAll => s.accepts(a) && (r matches Err(t) && t
                    == "Failed to unmount all filesystems"),
                BootStep::FlushRoot => s.accepts(a) && (r matches Err(t) && t
                    == "Failed to flush rootfs"),
                _ => !s.accepts(a),
            }
        }),
{
}

/// The kernel comes up with the arguments and the environment that it is given,
/// and without an argument there is no program to run.
pub proof fn law_boot_starts(
    arch: Arch,
    args: Vec<String>,
    envs: Vec<String>,
    r: Result<Boot, Fault>,
)
    requires
        call_ensures(init, (arch, args, envs), r),
    ensures
        args@.len() == 0 <==> r == Err::<Boot, Fault>(Fault::NoProgram),
        args@.len() > 0 ==> (r matches Ok(b) && b@.step == BootStep::StaticKeys && b@.arch == arch
            && b@.args == texts(args@) && b@.envs == texts(envs@)),
{
}

/// The first process has the lower 32 bits of the task's number.
pub proof fn law_first_pid(task_id: u64, pid: u32, s: BootState)
    requires
        call_ensures(init_pid, (task_id,), pid),
    ensures
        pid == task_id as int % 0x1_0000_0000,
        s.after(BootAnswer::Created(task_id)) matches Ok(t) && t.pid == pid,
{
}

/// What the bringing up of the kernel hands out is what it holds: the task starts
/// at the entry point with the stack pointer, under the name of the file, and the
/// process has its number, its path and its arguments.
pub proof fn law_boot_asks(b: &Boot, a: BootAction)
    requires
        call_ensures(Boot::action, (b,), a),
    ensures
        b.step == BootStep::ResolveInit && b.args@.len() > 0 ==> (a matches BootAction::Resolve {
            path,
        } && path@ == b.args@[0]@),
        b.step == BootStep::LoadInit ==> (a matches BootAction::Load { path, args, envs }
            && path is None && texts(args@) == texts(b.args@) && texts(envs@) == texts(b.envs@)),
        b.step == BootStep::CreateTask ==> (a matches BootAction::CreateTask {
            name,
            location,
            entry,
            sp,
            arg0,
            set_child_tid,
        } && name@ == b.name@ && location == b.location && entry == b.entry && sp == b.sp && arg0
            == 0 && set_child_tid == 0),
        b.step == BootStep::CreateProcess ==> (a matches BootAction::CreateProcess { pid } && pid
            == b.pid),
        b.step == BootStep::SpawnTask ==> (a matches BootAction::SpawnTask {
            pid,
            path,
            args,
            auxv,
        } && pid == b.pid && path@ == b.path@ && texts(args@) == texts(b.args@) && auxv@
            == b.auxv@),
{
}

} // verus!
