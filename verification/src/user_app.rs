//! Starting a user program: its file, or the interpreter of a script, is
//! loaded, and its stack and heap are set up.

use vstd::prelude::*;
use vstd::slice::slice_to_vec;
use vstd::utf8::{decode_utf8, valid_utf8};
use crate::auxv::AuxEntry;
use crate::error::{Fault, KernelError};
use crate::loader::{LoadProgress, LoadReport};
use crate::paging::{round_up, Layout, MappingFlags, Region, PAGE_SIZE};
use crate::stack::{
    app_stack,
    aux_pairs,
    law_stack_aligned,
    stack_fits,
    stack_region,
    texts,
};
use crate::text::{
    is_script,
    is_shell_path,
    is_shell_script,
    law_shell_path,
    line_words,
    script_line,
    script_words,
    starts_like_script,
};

verus! {

/// What a mapping of fresh memory is for.
#[derive(Clone, Copy, PartialEq, Eq, Structural, Debug)]
pub enum AreaKind {
    Stack,
    Heap,
}

/// What the start of a program waits for.
#[derive(Clone, Copy, PartialEq, Eq, Structural, Debug)]
pub enum AppPhase {
    /// That the program is loaded.
    Load,
    /// That the stack is mapped.
    MapStack { stack: Region },
    /// That the stack's upper pages are there to be written.
    Populate { pages: Region },
    /// That the stack's initial contents are written.
    WriteStack,
    /// That the heap is mapped.
    MapHeap,
    /// Nothing: the program can start, or it cannot be started.
    Finished,
}

/// What is to be done next.
pub enum AppAction {
    /// Load the program at `path`.
    Load { path: String },
    /// Map fresh memory, and make it present if `populate` says so.
    MapArea { kind: AreaKind, area: Region, flags: MappingFlags, populate: bool },
    /// Make pages present.
    Populate { pages: Region, flags: MappingFlags },
    /// Write into the program's memory.
    Write { start: usize, data: Vec<u8> },
    /// Nothing: the start is over.
    Nothing,
}

/// What is to be done next, as a value of the specification.
pub ghost enum AppRequest {
    Load { path: Seq<char> },
    MapArea { kind: AreaKind, area: Region, flags: MappingFlags, populate: bool },
    Populate { pages: Region, flags: MappingFlags },
    Write { start: usize, data: Seq<u8> },
    Nothing,
}

impl View for AppAction {
    type V = AppRequest;

    open spec fn view(&self) -> AppRequest {
        match *self {
            AppAction::Load { path } => AppRequest::Load { path: path@ },
            AppAction::MapArea { kind, area, flags, populate } => AppRequest::MapArea {
                kind,
                area,
                flags,
                populate,
            },
            AppAction::Populate { pages, flags } => AppRequest::Populate { pages, flags },
            AppAction::Write { start, data } => AppRequest::Write { start, data: data@ },
            AppAction::Nothing => AppRequest::Nothing,
        }
    }
}

/// How far the start of a program got.
#[derive(Clone, Copy, PartialEq, Eq, Structural, Debug)]
pub enum AppProgress {
    /// There is more to do.
    Continue,
    /// The program cannot be started.
    Failed(KernelError),
    /// The program can start at `entry` with the stack pointer `sp`.
    Ready { entry: usize, sp: usize },
}

/// The outcome of what the start of a program waited for.
pub enum AppInput {
    /// How the load ended.
    Load(LoadProgress),
    /// Whether another action succeeded.
    Done(Result<(), KernelError>),
}

/// The outcome of what the start of a program waited for, as a value of the
/// specification.
pub ghost enum AppAnswer {
    Load(LoadReport),
    Done(Result<(), KernelError>),
}

impl View for AppInput {
    type V = AppAnswer;

    open spec fn view(&self) -> AppAnswer {
        match *self {
            AppInput::Load(p) => AppAnswer::Load(p@),
            AppInput::Done(r) => AppAnswer::Done(r),
        }
    }
}

/// What may be done with the stack and the heap.
pub open spec fn data_flags() -> MappingFlags {
    MappingFlags { read: true, write: true, execute: false, user: true }
}

/// The path of the shell.
pub open spec fn shell() -> Seq<char> {
    seq!['/', 'b', 'i', 'n', '/', 's', 'h']
}

/// Which program is loaded, and its arguments. Without a path, the first
/// argument is the path. A path that ends with `.sh` is not loaded: the shell
/// is, with all the arguments behind its own name. `None` if there is neither a
/// path nor an argument.
pub open spec fn program_of(path: Option<Seq<char>>, args: Seq<Seq<char>>) -> Option<
    (Seq<char>, Seq<Seq<char>>),
> {
    let p = match path {
        Some(p) => Some(p),
        None => if args.len() > 0 {
            Some(args[0])
        } else {
            None
        },
    };
    match p {
        None => None,
        Some(p) => if is_shell_path(p) {
            Some((shell(), seq![shell()] + args))
        } else {
            Some((p, args))
        },
    }
}

/// The arguments that a script is run with: the words of its interpreter line,
/// the path of the script, and the arguments but the first.
pub open spec fn script_args(data: Seq<u8>, path: Seq<char>, args: Seq<Seq<char>>) -> Seq<Seq<char>> {
    let rest = if args.len() > 0 {
        args.skip(1)
    } else {
        args
    };
    line_words(decode_utf8(script_line(data))) + seq![path] + rest
}

/// Where `len` bytes lie that end at `top`, and the pages that they lie in.
/// `None` if they do not fit in an address space.
pub open spec fn stack_place(top: usize, len: nat) -> Option<(usize, Region)> {
    let sp = top - len;
    let start = sp - sp % PAGE_SIZE as int;
    let size = top - start;
    if sp < 0 || size + PAGE_SIZE > usize::MAX {
        None
    } else {
        Some(
            (
                sp as usize,
                Region {
                    start: start as usize,
                    size: round_up(size, PAGE_SIZE as int) as usize,
                },
            ),
        )
    }
}

/// The state of the start of a program, as a value of the specification.
#[verifier::ext_equal]
pub ghost struct AppState {
    pub layout: Layout,
    /// The program that is loaded.
    pub path: Seq<char>,
    pub args: Seq<Seq<char>>,
    pub envs: Seq<Seq<char>>,
    /// Where the program starts.
    pub entry: usize,
    pub auxv: Seq<AuxEntry>,
    /// The initial stack pointer.
    pub sp: usize,
    /// The initial contents of the stack.
    pub data: Seq<u8>,
    pub phase: AppPhase,
}

impl AppState {
    /// The state in another phase.
    pub open spec fn at(self, phase: AppPhase) -> Result<(AppState, AppProgress), Fault> {
        Ok((AppState { phase, ..self }, AppProgress::Continue))
    }

    /// The end, with an error.
    pub open spec fn fail(self, e: KernelError) -> Result<(AppState, AppProgress), Fault> {
        Ok((AppState { phase: AppPhase::Finished, ..self }, AppProgress::Failed(e)))
    }

    /// What follows when the file turns out to be no ELF file: its interpreter
    /// is loaded if it is a script.
    pub open spec fn interpret(self, data: Seq<u8>) -> Result<(AppState, AppProgress), Fault> {
        if !is_script(data) {
            self.fail(KernelError::InvalidExecutable)
        } else if !valid_utf8(script_line(data)) {
            self.fail(KernelError::InvalidInput)
        } else {
            match program_of(None, script_args(data, self.path, self.args)) {
                Some((path, args)) => AppState { path, args, ..self }.at(AppPhase::Load),
                None => self.fail(KernelError::InvalidInput),
            }
        }
    }

    /// What follows when the program is loaded: the stack is mapped.
    pub open spec fn loaded(self, entry: usize, auxv: Seq<AuxEntry>) -> Result<
        (AppState, AppProgress),
        Fault,
    > {
        let top = self.layout.user_stack_top;
        let size = self.layout.user_stack_size;
        if size > top {
            Err(Fault::Overflow)
        } else {
            let stack = Region { start: (top - size) as usize, size };
            AppState { entry, auxv, ..self }.at(AppPhase::MapStack { stack })
        }
    }

    /// What follows when the stack has the contents `data`.
    pub open spec fn filled(self, data: Seq<u8>) -> Result<(AppState, AppProgress), Fault> {
        match stack_place(self.layout.user_stack_top, data.len()) {
            Some((sp, pages)) => AppState { sp, data, ..self }.at(AppPhase::Populate { pages }),
            None => Err(Fault::Overflow),
        }
    }

    /// What follows when the stack is mapped: its contents are laid out.
    pub open spec fn fill(self) -> Result<(AppState, AppProgress), Fault> {
        let top = self.layout.user_stack_top;
        if usize::BITS != 64 || self.args.len() == 0 || !stack_fits(
            self.args,
            self.envs,
            self.auxv.len(),
            top,
        ) {
            Err(Fault::StackRegion)
        } else {
            self.filled(stack_region(self.args, self.envs, aux_pairs(self.auxv), top))
        }
    }

    /// Whether `a` is an outcome of what the state waits for.
    pub open spec fn accepts(self, a: AppAnswer) -> bool {
        match self.phase {
            AppPhase::Load => a matches AppAnswer::Load(r) && !(r is Continue),
            AppPhase::Finished => false,
            _ => a is Done,
        }
    }

    /// The state after the outcome `a`, and how far the start got.
    pub open spec fn after(self, a: AppAnswer) -> Result<(AppState, AppProgress), Fault> {
        match a {
            AppAnswer::Load(LoadReport::Continue) => self.at(self.phase),
            AppAnswer::Load(LoadReport::Failed(e)) => self.fail(e),
            AppAnswer::Load(LoadReport::NotElf(data)) => self.interpret(data),
            AppAnswer::Load(LoadReport::Loaded { entry, auxv }) => self.loaded(entry, auxv),
            AppAnswer::Done(Err(e)) => self.fail(e),
            AppAnswer::Done(Ok(_)) => match self.phase {
                AppPhase::MapStack { .. } => self.fill(),
                AppPhase::Populate { .. } => self.at(AppPhase::WriteStack),
                AppPhase::WriteStack => self.at(AppPhase::MapHeap),
                AppPhase::MapHeap => Ok(
                    (
                        AppState { phase: AppPhase::Finished, ..self },
                        AppProgress::Ready { entry: self.entry, sp: self.sp },
                    ),
                ),
                _ => self.at(self.phase),
            },
        }
    }

    /// The action that the state asks for.
    pub open spec fn request(self) -> AppRequest {
        match self.phase {
            AppPhase::Load => AppRequest::Load { path: self.path },
            AppPhase::MapStack { stack } => AppRequest::MapArea {
                kind: AreaKind::Stack,
                area: stack,
                flags: data_flags(),
                populate: false,
            },
            AppPhase::Populate { pages } => AppRequest::Populate {
                pages,
                flags: MappingFlags { read: true, write: true, execute: false, user: false },
            },
            AppPhase::WriteStack => AppRequest::Write { start: self.sp, data: self.data },
            AppPhase::MapHeap => AppRequest::MapArea {
                kind: AreaKind::Heap,
                area: Region {
                    start: self.layout.user_heap_base,
                    size: self.layout.user_heap_size,
                },
                flags: data_flags(),
                populate: true,
            },
            AppPhase::Finished => AppRequest::Nothing,
        }
    }
}

/// The start of a program.
pub struct UserApp {
    pub layout: Layout,
    pub path: String,
    pub args: Vec<String>,
    pub envs: Vec<String>,
    pub entry: usize,
    pub auxv: Vec<AuxEntry>,
    pub sp: usize,
    pub data: Vec<u8>,
    pub phase: AppPhase,
}

impl View for UserApp {
    type V = AppState;

    open spec fn view(&self) -> AppState {
        AppState {
            layout: self.layout,
            path: self.path@,
            args: texts(self.args@),
            envs: texts(self.envs@),
            entry: self.entry,
            auxv: self.auxv@,
            sp: self.sp,
            data: self.data@,
            phase: self.phase,
        }
    }
}

/// Whether a step from `s` with the outcome `a` leads to `t`, with the result
/// `r`.
pub open spec fn stepped(
    s: AppState,
    a: AppAnswer,
    t: AppState,
    r: Result<AppProgress, Fault>,
) -> bool {
    match s.after(a) {
        Ok((next, progress)) => t == next && r == Ok::<AppProgress, Fault>(progress),
        Err(f) => r == Err::<AppProgress, Fault>(f),
    }
}

/// Copies of the strings from `from` on, behind those in `v`.
pub(crate) fn append(v: &mut Vec<String>, other: &Vec<String>, from: usize)
    requires
        from <= other@.len(),
    ensures
        texts(final(v)@) == texts(old(v)@) + texts(other@).skip(from as int),
{
    let mut i: usize = from;
    let ghost before = texts(v@);
    assert(texts(v@) =~= before + texts(other@).subrange(from as int, from as int));
    while i < other.len()
        invariant
            from <= i <= other@.len(),
            texts(v@) == before + texts(other@).subrange(from as int, i as int),
        decreases other@.len() - i,
    {
        let s = other[i].clone();
        let ghost part = texts(v@);
        v.push(s);
        assert(texts(v@) =~= part.push(s@));
        assert(texts(other@)[i as int] == s@);
        assert(texts(v@) =~= before + texts(other@).subrange(from as int, i + 1));
        i = i + 1;
    }
    assert(texts(other@).subrange(from as int, i as int) =~= texts(other@).skip(from as int));
}

/// Finds which program is loaded, and its arguments.
fn find_program(path: Option<String>, args: Vec<String>) -> (r: Option<(String, Vec<String>)>)
    ensures
        match program_of(
            match path {
                Some(p) => Some(p@),
                None => None,
            },
            texts(args@),
        ) {
            Some((p, a)) => r matches Some((q, b)) && q@ == p && texts(b@) == a,
            None => r is None,
        },
{
    let p = match path {
        Some(p) => p,
        None => if args.len() > 0 {
            args[0].clone()
        } else {
            return None;
        },
    };
    if is_shell_script(p.as_str()) {
        proof {
            reveal_strlit("/bin/sh");
            assert("/bin/sh"@ =~= shell());
        }
        let mut shell_args: Vec<String> = Vec::new();
        shell_args.push("/bin/sh".to_owned());
        assert(texts(shell_args@) =~= seq![shell()]);
        append(&mut shell_args, &args, 0);
        assert(texts(args@).skip(0) =~= texts(args@));
        Some(("/bin/sh".to_owned(), shell_args))
    } else {
        Some((p, args))
    }
}

/// Places the initial contents of a stack that ends at `top`.
pub fn place_stack(top: usize, data: &Vec<u8>) -> (r: Option<(usize, Region)>)
    ensures
        r == stack_place(top, data@.len()),
{
    if data.len() > top {
        return None;
    }
    let sp = top - data.len();
    let start = ax_memory_addr::align_down_4k(sp);
    let size = top - start;
    if size > usize::MAX - PAGE_SIZE {
        return None;
    }
    Some((sp, Region { start, size: ax_memory_addr::align_up_4k(size) }))
}

/// Begins to start a program with the given arguments and environment. Without
/// a path, the first argument is the path.
pub fn load_user_app(
    layout: Layout,
    path: Option<String>,
    args: Vec<String>,
    envs: Vec<String>,
) -> (r: Result<UserApp, KernelError>)
    ensures
        match program_of(
            match path {
                Some(p) => Some(p@),
                None => None,
            },
            texts(args@),
        ) {
            Some((p, a)) => r matches Ok(app) && app@ == (AppState {
                layout,
                path: p,
                args: a,
                envs: texts(envs@),
                entry: 0,
                auxv: Seq::empty(),
                sp: 0,
                data: Seq::empty(),
                phase: AppPhase::Load,
            }),
            None => r == Err::<UserApp, KernelError>(KernelError::InvalidInput),
        },
{
    match find_program(path, args) {
        None => Err(KernelError::InvalidInput),
        Some((path, args)) => Ok(
            UserApp {
                layout,
                path,
                args,
                envs,
                entry: 0,
                auxv: Vec::new(),
                sp: 0,
                data: Vec::new(),
                phase: AppPhase::Load,
            },
        ),
    }
}

impl UserApp {
    /// What is to be done next.
    pub fn action(&self) -> (r: AppAction)
        ensures
            r@ == self@.request(),
    {
        let flags = MappingFlags { read: true, write: true, execute: false, user: true };
        match self.phase {
            AppPhase::Load => AppAction::Load { path: self.path.clone() },
            AppPhase::MapStack { stack } => AppAction::MapArea {
                kind: AreaKind::Stack,
                area: stack,
                flags,
                populate: false,
            },
            AppPhase::Populate { pages } => AppAction::Populate {
                pages,
                flags: MappingFlags { read: true, write: true, execute: false, user: false },
            },
            AppPhase::WriteStack => AppAction::Write {
                start: self.sp,
                data: slice_to_vec(self.data.as_slice()),
            },
            AppPhase::MapHeap => AppAction::MapArea {
                kind: AreaKind::Heap,
                area: Region {
                    start: self.layout.user_heap_base,
                    size: self.layout.user_heap_size,
                },
                flags,
                populate: true,
            },
            AppPhase::Finished => AppAction::Nothing,
        }
    }

    /// Goes on with the interpreter of a script.
    fn interpret(&mut self, data: &Vec<u8>) -> (r: AppProgress)
        ensures
            old(self)@.interpret(data@) == Ok::<(AppState, AppProgress), Fault>((final(self)@, r)),
    {
        if !starts_like_script(data) {
            self.phase = AppPhase::Finished;
            return AppProgress::Failed(KernelError::InvalidExecutable);
        }
        let mut args = match script_words(data) {
            Some(words) => words,
            None => {
                self.phase = AppPhase::Finished;
                return AppProgress::Failed(KernelError::InvalidInput);
            },
        };
        let ghost words = texts(args@);
        args.push(self.path.clone());
        assert(texts(args@) =~= words + seq![self.path@]);
        let from: usize = if self.args.len() > 0 { 1 } else { 0 };
        append(&mut args, &self.args, from);
        assert(texts(args@) =~= script_args(data@, self.path@, texts(self.args@)));
        match find_program(None, args) {
            Some((path, args)) => {
                self.path = path;
                self.args = args;
                self.phase = AppPhase::Load;
                AppProgress::Continue
            },
            None => {
                self.phase = AppPhase::Finished;
                AppProgress::Failed(KernelError::InvalidInput)
            },
        }
    }

    /// Goes on with a stack that has the contents `data`.
    pub fn filled(&mut self, data: Vec<u8>) -> (r: Result<AppProgress, Fault>)
        ensures
            match old(self)@.filled(data@) {
                Ok((s, p)) => final(self)@ == s && r == Ok::<AppProgress, Fault>(p),
                Err(f) => final(self)@ == old(self)@ && r == Err::<AppProgress, Fault>(f),
            },
    {
        match place_stack(self.layout.user_stack_top, &data) {
            Some((sp, pages)) => {
                self.sp = sp;
                self.data = data;
                self.phase = AppPhase::Populate { pages };
                Ok(AppProgress::Continue)
            },
            None => Err(Fault::Overflow),
        }
    }

    /// Goes on with a loaded program.
    fn loaded(&mut self, entry: usize, auxv: Vec<AuxEntry>) -> (r: Result<AppProgress, Fault>)
        ensures
            stepped(
                old(self)@,
                AppAnswer::Load(LoadReport::Loaded { entry, auxv: auxv@ }),
                final(self)@,
                r,
            ),
    {
        let top = self.layout.user_stack_top;
        let size = self.layout.user_stack_size;
        if size > top {
            return Err(Fault::Overflow);
        }
        self.entry = entry;
        self.auxv = auxv;
        self.phase = AppPhase::MapStack { stack: Region { start: top - size, size } };
        Ok(AppProgress::Continue)
    }

    /// Goes on with an action that succeeded.
    fn done(&mut self) -> (r: Result<AppProgress, Fault>)
        ensures
            stepped(old(self)@, AppAnswer::Done(Ok(())), final(self)@, r),
            old(self)@.phase is MapStack && r is Ok ==> final(self)@.sp as int % 16 == 0,
    {
        match self.phase {
            AppPhase::MapStack { .. } => {
                let top = self.layout.user_stack_top;
                proof {
                    law_stack_aligned(self@.args, self@.envs, self@.auxv.len(), top);
                }
                match app_stack(&self.args, &self.envs, &self.auxv, top) {
                    Some((_, data)) => self.filled(data),
                    None => Err(Fault::StackRegion),
                }
            },
            AppPhase::Populate { .. } => {
                self.phase = AppPhase::WriteStack;
                Ok(AppProgress::Continue)
            },
            AppPhase::WriteStack => {
                self.phase = AppPhase::MapHeap;
                Ok(AppProgress::Continue)
            },
            AppPhase::MapHeap => {
                self.phase = AppPhase::Finished;
                Ok(AppProgress::Ready { entry: self.entry, sp: self.sp })
            },
            AppPhase::Load | AppPhase::Finished => Ok(AppProgress::Continue),
        }
    }

    /// Takes note of the outcome of the action that was asked for. The initial
    /// stack pointer is a multiple of sixteen.
    pub fn step(&mut self, input: AppInput) -> (r: Result<AppProgress, Fault>)
        requires
            old(self)@.accepts(input@),
        ensures
            stepped(old(self)@, input@, final(self)@, r),
            old(self)@.phase is MapStack && r == Ok::<AppProgress, Fault>(AppProgress::Continue)
                ==> final(self)@.sp as int % 16 == 0,
    {
        match input {
            AppInput::Load(LoadProgress::Continue) => Ok(AppProgress::Continue),
            AppInput::Load(LoadProgress::Failed(e)) | AppInput::Done(Err(e)) => {
                self.phase = AppPhase::Finished;
                Ok(AppProgress::Failed(e))
            },
            AppInput::Load(LoadProgress::NotElf(data)) => Ok(self.interpret(&data)),
            AppInput::Load(LoadProgress::Loaded { entry, auxv }) => self.loaded(entry, auxv),
            AppInput::Done(Ok(_)) => self.done(),
        }
    }
}

// ---------- What the start of a program does as a whole ----------

/// A file whose name ends with `.sh` is never loaded itself.
pub proof fn law_shell_scripts(path: Option<Seq<char>>, args: Seq<Seq<char>>)
    ensures
        program_of(path, args) matches Some((p, _)) ==> !is_shell_path(p),
{
}

/// A script's interpreter gets, behind the words of the interpreter line, the
/// script's path and then the arguments of the script: its own name is replaced
/// by its path, and nothing else is lost.
pub proof fn law_script_args(data: Seq<u8>, path: Seq<char>, args: Seq<Seq<char>>)
    requires
        args.len() > 0,
    ensures
        ({
            let n = line_words(decode_utf8(script_line(data))).len();
            let r = script_args(data, path, args);
            &&& 1 <= n <= 2
            &&& r.len() == n + args.len()
            &&& r[n as int] == path
            &&& forall|i: int| 1 <= i < args.len() ==> r[n + i] == #[trigger] args[i]
        }),
{
    let words = line_words(decode_utf8(script_line(data)));
    let r = script_args(data, path, args);
    assert forall|i: int| 1 <= i < args.len() implies r[words.len() + i] == #[trigger] args[i] by {
        assert(args.skip(1)[i - 1] == args[i]);
    }
}

/// The pages that are made present are those that the initial contents of the
/// stack lie in.
pub proof fn law_stack_pages(top: usize, len: nat)
    requires
        stack_place(top, len) is Some,
    ensures
        ({
            let (sp, pages) = stack_place(top, len)->0;
            &&& sp + len == top
            &&& pages.start as int % PAGE_SIZE as int == 0
            &&& pages.size as int % PAGE_SIZE as int == 0
            &&& pages.start <= sp < pages.start + PAGE_SIZE
            &&& top <= pages.start + pages.size < top + PAGE_SIZE
        }),
{
    let sp = top - len;
    let size = top - (sp - sp % PAGE_SIZE as int);
    assert(round_up(size, 4096) == (size + 4095) / 4096 * 4096);
}

/// What the start of a program does within `fuel` steps where every action
/// succeeds and `load` is how a load ends: the actions that it asks for and its
/// last report.
pub open spec fn run(s: AppState, load: spec_fn(Seq<char>) -> LoadReport, fuel: nat) -> (
    Seq<AppRequest>,
    AppProgress,
)
    decreases fuel,
{
    if fuel == 0 || s.phase is Finished {
        (Seq::empty(), AppProgress::Continue)
    } else {
        let a = match s.phase {
            AppPhase::Load => AppAnswer::Load(load(s.path)),
            _ => AppAnswer::Done(Ok(())),
        };
        match s.after(a) {
            Err(_) => (Seq::empty(), AppProgress::Continue),
            Ok((t, AppProgress::Continue)) => {
                let (q, p) = run(t, load, (fuel - 1) as nat);
                (seq![s.request()] + q, p)
            },
            Ok((_, p)) => (seq![s.request()], p),
        }
    }
}

/// A program starts where the loader says, with the stack pointer right below
/// the stack's initial contents. Before that the stack is mapped, the pages of
/// the contents are made present, the contents are written up to the top of the
/// stack, and the heap is mapped. This is so where no action fails and there is
/// room on the stack.
pub proof fn law_start(
    s: AppState,
    load: spec_fn(Seq<char>) -> LoadReport,
    entry: usize,
    auxv: Seq<AuxEntry>,
)
    requires
        s.phase is Load,
        load(s.path) == (LoadReport::Loaded { entry, auxv }),
        usize::BITS == 64,
        s.args.len() > 0,
        s.layout.user_stack_size <= s.layout.user_stack_top,
        stack_fits(s.args, s.envs, auxv.len(), s.layout.user_stack_top),
    ensures
        ({
            let top = s.layout.user_stack_top;
            let size = s.layout.user_stack_size;
            let data = stack_region(s.args, s.envs, aux_pairs(auxv), top);
            stack_place(top, data.len()) matches Some((sp, pages)) ==> {
                &&& sp + data.len() == top
                &&& run(s, load, 5) == (
                    seq![
                        AppRequest::Load { path: s.path },
                        AppRequest::MapArea {
                            kind: AreaKind::Stack,
                            area: Region { start: (top - size) as usize, size },
                            flags: data_flags(),
                            populate: false,
                        },
                        AppRequest::Populate {
                            pages,
                            flags: MappingFlags {
                                read: true,
                                write: true,
                                execute: false,
                                user: false,
                            },
                        },
                        AppRequest::Write { start: sp, data },
                        AppRequest::MapArea {
                            kind: AreaKind::Heap,
                            area: Region {
                                start: s.layout.user_heap_base,
                                size: s.layout.user_heap_size,
                            },
                            flags: data_flags(),
                            populate: true,
                        },
                    ],
                    AppProgress::Ready { entry, sp },
                )
            }
        }),
{
    let top = s.layout.user_stack_top;
    let size = s.layout.user_stack_size;
    let data = stack_region(s.args, s.envs, aux_pairs(auxv), top);
    if let Some((sp, pages)) = stack_place(top, data.len()) {
        let stack = Region { start: (top - size) as usize, size };
        let s1 = AppState { entry, auxv, phase: AppPhase::MapStack { stack }, ..s };
        let s2 = AppState { sp, data, phase: AppPhase::Populate { pages }, ..s1 };
        let s3 = AppState { phase: AppPhase::WriteStack, ..s2 };
        let s4 = AppState { phase: AppPhase::MapHeap, ..s3 };
        let (q1, q2, q3, q4) = (s1.request(), s2.request(), s3.request(), s4.request());
        assert(run(s4, load, 1) == (seq![q4], AppProgress::Ready { entry, sp }));
        assert(run(s3, load, 2).0 =~= seq![q3, q4]);
        assert(run(s2, load, 3).0 =~= seq![q2, q3, q4]);
        assert(run(s1, load, 4).0 =~= seq![q1, q2, q3, q4]);
        assert(run(s, load, 5).0 =~= seq![s.request(), q1, q2, q3, q4]);
    }
}

/// Whether a path ends with `.sh`.
pub open spec fn names_shell_script(p: Seq<char>) -> bool {
    p.len() >= 3 && p.subrange(p.len() - 3, p.len() as int) == ".sh"@
}

/// The program is the one at the path, or else the one that the first argument
/// names, with the arguments as they are. If its path ends with `.sh`, it is the
/// shell, `/bin/sh`, which gets its own path and all the arguments behind it.
/// There is none exactly if there is neither a path nor an argument.
pub proof fn law_program(path: Option<Seq<char>>, args: Seq<Seq<char>>)
    ensures
        path is None && args.len() == 0 <==> program_of(path, args) is None,
        program_of(path, args) matches Some((p, a)) ==> {
            let named = if path is Some {
                path->0
            } else {
                args[0]
            };
            if names_shell_script(named) {
                p == "/bin/sh"@ && a == seq!["/bin/sh"@] + args
            } else {
                p == named && a == args
            }
        },
{
    reveal_strlit("/bin/sh");
    assert("/bin/sh"@ =~= shell());
    if path is Some {
        law_shell_path(path->0);
    } else if args.len() > 0 {
        law_shell_path(args[0]);
    }
}

/// A file that is no ELF file is run by the interpreter that its first line names,
/// with the words of the line, the path of the file, and the arguments but the
/// first. A file without such a line is refused with `ENOEXEC`, and one whose line
/// is no text with `EINVAL`.
pub proof fn law_interpreted(s: AppState, data: Seq<u8>)
    requires
        s.phase is Load,
    ensures
        ({
            let a = AppAnswer::Load(LoadReport::NotElf(data));
            let script = data.len() >= 2 && data[0] == '#' as u8 && data[1] == '!' as u8;
            let words = line_words(decode_utf8(script_line(data)));
            let rest = if s.args.len() > 0 {
                s.args.subrange(1, s.args.len() as int)
            } else {
                Seq::empty()
            };
            let args = words + seq![s.path] + rest;
            &&& s.accepts(a)
            &&& s.after(a) is Ok
            &&& ({
                let (t, p) = s.after(a)->Ok_0;
                if !script {
                    t.phase is Finished && p == AppProgress::Failed(KernelError::InvalidExecutable)
                } else if !valid_utf8(script_line(data)) {
                    t.phase is Finished && p == AppProgress::Failed(KernelError::InvalidInput)
                } else {
                    &&& p == AppProgress::Continue
                    &&& t.phase is Load
                    &&& t.layout == s.layout && t.envs == s.envs
                    &&& t.request() == (AppRequest::Load { path: t.path })
                    &&& if names_shell_script(words[0]) {
                        t.path == "/bin/sh"@ && t.args == seq!["/bin/sh"@] + args
                    } else {
                        t.path == words[0] && t.args == args
                    }
                }
            })
        }),
{
    let words = line_words(decode_utf8(script_line(data)));
    let all = script_args(data, s.path, s.args);
    law_program(None, all);
    assert(all[0] == words[0]);
    let rest = if s.args.len() > 0 {
        s.args.subrange(1, s.args.len() as int)
    } else {
        Seq::empty()
    };
    assert(all =~= words + seq![s.path] + rest);
}

/// What fails ends the start of a program with its error.
pub proof fn law_start_fails(s: AppState, e: KernelError)
    requires
        !(s.phase is Finished),
    ensures
        ({
            let a = if s.phase is Load {
                AppAnswer::Load(LoadReport::Failed(e))
            } else {
                AppAnswer::Done(Err(e))
            };
            &&& s.accepts(a)
            &&& s.after(a) matches Ok((t, p)) && t.phase is Finished && p == AppProgress::Failed(e)
        }),
{
}

/// The stack and the heap can be read and written, and not run; the heap is made
/// present at once, and of the stack only the pages of its initial contents are.
pub proof fn law_memory(s: AppState)
    ensures
        s.request() matches AppRequest::MapArea { kind, area, flags, populate } ==> {
            &&& flags.read && flags.write && flags.user && !flags.execute
            &&& populate <==> kind == AreaKind::Heap
            &&& kind == AreaKind::Heap ==> area.start == s.layout.user_heap_base && area.size
                == s.layout.user_heap_size
            &&& kind == AreaKind::Stack ==> s.phase == (AppPhase::MapStack { stack: area })
        },
        s.request() matches AppRequest::Populate { pages, flags } ==> flags.read && flags.write
            && !flags.execute && s.phase == (AppPhase::Populate { pages }),
        s.request() matches AppRequest::Write { start, data } ==> start == s.sp && data == s.data,
{
}

/// The stack of a loaded program ends at the top that the layout gives and has
/// the size that it gives; that it has no room below the top is a fault.
pub proof fn law_stack_mapped(s: AppState, entry: usize, auxv: Seq<AuxEntry>)
    requires
        s.phase is Load,
    ensures
        ({
            let a = AppAnswer::Load(LoadReport::Loaded { entry, auxv });
            let (top, size) = (s.layout.user_stack_top, s.layout.user_stack_size);
            &&& s.accepts(a)
            &&& size > top ==> s.after(a) == Err::<(AppState, AppProgress), Fault>(Fault::Overflow)
            &&& size <= top ==> (s.after(a) matches Ok((t, p)) && {
                &&& p == AppProgress::Continue
                &&& t.phase matches AppPhase::MapStack { stack } && stack.start + stack.size == top
                    && stack.size == size
                &&& (t.entry, t.auxv, t.args, t.envs) == (entry, auxv, s.args, s.envs)
            })
        }),
{
}

/// The initial contents of a stack end at its top. They do not fit exactly if they
/// are longer than the top is high, or their pages with one more leave the word.
pub proof fn law_stack_placed(top: usize, len: nat)
    ensures
        stack_place(top, len) is None <==> len > top || {
            let sp = top - len;
            sp % 4096 + len + 4096 > usize::MAX
        },
        stack_place(top, len) matches Some((sp, pages)) ==> sp == top - len && pages.start == sp - sp
            % 4096,
{
}

/// The start of a program begins with the load of the program that the path or the
/// first argument names, for the arguments that go with it; without either it is
/// refused with `EINVAL`.
pub proof fn law_start_begins(
    layout: Layout,
    path: Option<String>,
    args: Vec<String>,
    envs: Vec<String>,
    r: Result<UserApp, KernelError>,
)
    requires
        call_ensures(load_user_app, (layout, path, args, envs), r),
    ensures
        path is None && args@.len() == 0 <==> r == Err::<UserApp, KernelError>(
            KernelError::InvalidInput,
        ),
        r is Err ==> r == Err::<UserApp, KernelError>(KernelError::InvalidInput),
        r matches Ok(app) ==> {
            let named = if path is Some {
                path->0@
            } else {
                args@[0]@
            };
            let (p, a) = if names_shell_script(named) {
                ("/bin/sh"@, seq!["/bin/sh"@] + texts(args@))
            } else {
                (named, texts(args@))
            };
            &&& app@.request() == (AppRequest::Load { path: p })
            &&& app@.args == a
            &&& app@.envs == texts(envs@)
            &&& app@.layout == layout
        },
{
    let p = match path {
        Some(p) => Some(p@),
        None => None,
    };
    law_program(p, texts(args@));
}

/// The start of a program takes that an action succeeded.
pub proof fn law_start_takes(s: AppState)
    ensures
        !(s.request() is Load) && !(s.request() is Nothing) ==> s.accepts(AppAnswer::Done(Ok(()))),
        s.request() is Nothing <==> s.phase is Finished,
{
}

/// What the start of a program hands out with its questions is what it holds: the
/// path of the program, and the contents of the stack with their place.
pub proof fn law_start_asks(app: &UserApp, a: AppAction)
    requires
        call_ensures(UserApp::action, (app,), a),
    ensures
        app.phase is Load ==> (a matches AppAction::Load { path } && path@ == app.path@),
        app.phase is WriteStack ==> (a matches AppAction::Write { start, data } && start == app.sp
            && data@ == app.data@),
        app.phase matches AppPhase::Populate { pages } ==> (a matches AppAction::Populate {
            pages: p,
            ..
        } && p == pages),
{
}

} // verus!
