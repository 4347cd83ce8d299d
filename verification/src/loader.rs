//! Loading a program and its interpreter into a user address space.
//!
//! `ProgramLoad` decides what happens when a program file is loaded. It keeps
//! to the cache of program headers, so that the headers of a file are read
//! only once, and asks its driver for everything else.

use vstd::prelude::*;
use vstd::utf8::encode_utf8;
use crate::arch::Arch;
use crate::auxv::{auxv_of, find_start, law_start_address, make_auxv, start_address, AuxEntry};
use crate::cache::{after_insert, after_touch, cached, place, ElfLoader};
use crate::elf::{image_base, load_base, ProgramHeader, SegmentType};
use crate::error::{Fault, KernelError};
use crate::image::{ElfCacheEntry, ElfImage};
use crate::paging::{
    interp_base,
    interp_floor,
    law_interp_floor,
    law_round_up,
    round_up,
    Layout,
    INTERP_ALIGN,
};
use crate::text::{c_string, law_c_string, read_c_string};

verus! {

/// What a load waits for.
#[derive(Clone, Copy, PartialEq, Eq, Structural, Debug)]
pub enum LoadPhase {
    /// The number of the program file, found by its path.
    Resolve,
    /// The headers of the program file.
    ReadProgram { location: u64 },
    /// That the address space is emptied.
    Clear,
    /// That the trampolines are mapped.
    Trampoline,
    /// The interpreter's path, which the program file holds.
    ReadPath { location: u64, offset: u64, len: usize },
    /// The number of the interpreter file, found by its path.
    ResolveInterp,
    /// The headers of the interpreter file.
    ReadInterp { location: u64 },
    /// That the program is mapped: the one at `index` in the cache.
    MapProgram { index: usize, bias: usize },
    /// The ends of the areas of the address space.
    Areas,
    /// That the interpreter is mapped: the first in the cache.
    MapInterp { bias: usize },
    /// Nothing: the load is over.
    Finished,
}

/// The outcome of what a load waited for.
pub enum LoadInput {
    /// The number of a file.
    Location(Result<u64, KernelError>),
    /// The headers of a file, or how it starts if it is no ELF file.
    Entry(Result<Result<ElfCacheEntry, Vec<u8>>, KernelError>),
    /// Whether an action succeeded.
    Done(Result<(), KernelError>),
    /// A buffer that was to be filled from a file, and how many bytes were
    /// read.
    Data(Result<(Vec<u8>, usize), KernelError>),
    /// The ends of the areas of the address space.
    Ends(Vec<usize>),
}

/// What is to be done next.
pub enum LoadAction {
    /// Find the number of the file at `path`.
    Resolve { path: String },
    /// Read the headers of a file.
    ReadHeaders { location: u64 },
    /// Empty the address space.
    Clear,
    /// Map the trampolines.
    MapTrampoline,
    /// Read `len` bytes of a file from `offset` on.
    ReadAt { location: u64, offset: u64, len: usize },
    /// Map the program at `index` in the cache with the given bias.
    MapElf { index: usize, bias: usize },
    /// List the ends of the areas of the address space.
    ListAreas,
    /// Nothing: the load is over.
    Nothing,
}

/// How far a load got.
pub enum LoadProgress {
    /// There is more to do.
    Continue,
    /// The load failed.
    Failed(KernelError),
    /// The file is not an ELF file; this is how it starts.
    NotElf(Vec<u8>),
    /// The program is loaded: where it starts, and its auxiliary vector.
    Loaded { entry: usize, auxv: Vec<AuxEntry> },
}

/// The outcome of what a load waited for, as a value of the specification.
pub ghost enum LoadAnswer {
    Location(Result<u64, KernelError>),
    Entry(Result<Result<ElfImage, Seq<u8>>, KernelError>),
    Done(Result<(), KernelError>),
    Data(Result<(Seq<u8>, usize), KernelError>),
    Ends(Seq<usize>),
}

impl View for LoadInput {
    type V = LoadAnswer;

    open spec fn view(&self) -> LoadAnswer {
        match *self {
            LoadInput::Location(r) => LoadAnswer::Location(r),
            LoadInput::Entry(Ok(Ok(e))) => LoadAnswer::Entry(Ok(Ok(e@))),
            LoadInput::Entry(Ok(Err(d))) => LoadAnswer::Entry(Ok(Err(d@))),
            LoadInput::Entry(Err(e)) => LoadAnswer::Entry(Err(e)),
            LoadInput::Done(r) => LoadAnswer::Done(r),
            LoadInput::Data(Ok((d, n))) => LoadAnswer::Data(Ok((d@, n))),
            LoadInput::Data(Err(e)) => LoadAnswer::Data(Err(e)),
            LoadInput::Ends(v) => LoadAnswer::Ends(v@),
        }
    }
}

/// What is to be done next, as a value of the specification.
pub ghost enum LoadRequest {
    Resolve { path: Seq<char> },
    ReadHeaders { location: u64 },
    Clear,
    MapTrampoline,
    ReadAt { location: u64, offset: u64, len: usize },
    MapElf { index: usize, bias: usize },
    ListAreas,
    Nothing,
}

impl View for LoadAction {
    type V = LoadRequest;

    open spec fn view(&self) -> LoadRequest {
        match *self {
            LoadAction::Resolve { path } => LoadRequest::Resolve { path: path@ },
            LoadAction::ReadHeaders { location } => LoadRequest::ReadHeaders { location },
            LoadAction::Clear => LoadRequest::Clear,
            LoadAction::MapTrampoline => LoadRequest::MapTrampoline,
            LoadAction::ReadAt { location, offset, len } => LoadRequest::ReadAt {
                location,
                offset,
                len,
            },
            LoadAction::MapElf { index, bias } => LoadRequest::MapElf { index, bias },
            LoadAction::ListAreas => LoadRequest::ListAreas,
            LoadAction::Nothing => LoadRequest::Nothing,
        }
    }
}

/// How far a load got, as a value of the specification.
pub ghost enum LoadReport {
    Continue,
    Failed(KernelError),
    NotElf(Seq<u8>),
    Loaded { entry: usize, auxv: Seq<AuxEntry> },
}

impl View for LoadProgress {
    type V = LoadReport;

    open spec fn view(&self) -> LoadReport {
        match *self {
            LoadProgress::Continue => LoadReport::Continue,
            LoadProgress::Failed(e) => LoadReport::Failed(e),
            LoadProgress::NotElf(d) => LoadReport::NotElf(d@),
            LoadProgress::Loaded { entry, auxv } => LoadReport::Loaded { entry, auxv: auxv@ },
        }
    }
}

/// The state of a load, together with the cache, as a value of the
/// specification.
#[verifier::ext_equal]
pub ghost struct LoadState {
    pub arch: Arch,
    pub layout: Layout,
    /// The path of the program.
    pub path: Seq<char>,
    /// The path of the interpreter, once it is known.
    pub interp: Option<Seq<char>>,
    pub phase: LoadPhase,
    /// The headers in the cache, most recently used first.
    pub cache: Seq<ElfImage>,
}

/// The index of the first segment that names an interpreter, from `i` on; the
/// number of segments if there is none.
pub open spec fn first_interp(ph: Seq<ProgramHeader>, i: int) -> int
    decreases ph.len() - i,
{
    if i >= ph.len() || ph[i].kind == SegmentType::Interp {
        i
    } else {
        first_interp(ph, i + 1)
    }
}

/// Where the interpreter is loaded behind areas with the given ends. `None` if
/// that does not fit in a word.
pub open spec fn interp_bias(layout: Layout, ends: Seq<usize>) -> Option<usize> {
    let floor = interp_floor(layout, ends);
    if floor + INTERP_ALIGN <= usize::MAX {
        Some(round_up(floor as int, INTERP_ALIGN as int) as usize)
    } else {
        None
    }
}

impl LoadState {
    /// The state in another phase.
    pub open spec fn at(self, phase: LoadPhase) -> Result<(LoadState, LoadReport), Fault> {
        Ok((LoadState { phase, ..self }, LoadReport::Continue))
    }

    /// The end of the load, with an error.
    pub open spec fn fail(self, e: KernelError) -> Result<(LoadState, LoadReport), Fault> {
        Ok((LoadState { phase: LoadPhase::Finished, ..self }, LoadReport::Failed(e)))
    }

    /// The state with another cache.
    pub open spec fn with(self, cache: Seq<ElfImage>) -> LoadState {
        LoadState { cache, ..self }
    }

    /// What follows the mapping of the trampolines: the path of the
    /// interpreter is read if the program names one, or else the program is
    /// mapped.
    pub open spec fn look_for_interp(self) -> Result<(LoadState, LoadReport), Fault> {
        let e = self.cache[0];
        let k = first_interp(e.ph(), 0);
        if k < e.ph().len() {
            self.at(
                LoadPhase::ReadPath {
                    location: e.location,
                    offset: e.ph()[k].offset,
                    len: e.ph()[k].file_size as usize,
                },
            )
        } else {
            self.at(LoadPhase::MapProgram { index: 0, bias: self.layout.user_space_base })
        }
    }

    /// What follows when the headers of the interpreter are in the cache: the
    /// program is mapped, whose headers are the second in the cache.
    pub open spec fn map_both(self) -> Result<(LoadState, LoadReport), Fault> {
        if self.cache.len() < 2 {
            Err(Fault::MissingEntry)
        } else {
            self.at(LoadPhase::MapProgram { index: 1, bias: self.layout.user_space_base })
        }
    }

    /// The end of the load of the program at `index` in the cache, whose
    /// interpreter, if it has one, is the first in the cache and has the given
    /// bias: execution starts in the interpreter, or else in the program.
    pub open spec fn finish(self, index: int, interp: Option<usize>) -> Result<
        (LoadState, LoadReport),
        Fault,
    > {
        let program = self.cache[index];
        let bias = self.layout.user_space_base;
        let (start, base) = match interp {
            Some(b) => (
                start_address(self.cache[0], b),
                Some(load_base(self.cache[0].header(), b)),
            ),
            None => (start_address(program, bias), None),
        };
        match (start, auxv_of(self.arch, program, bias, base)) {
            (Ok(entry), Ok(auxv)) => Ok(
                (
                    LoadState { phase: LoadPhase::Finished, ..self },
                    LoadReport::Loaded { entry, auxv },
                ),
            ),
            (Err(f), _) => Err(f),
            (_, Err(f)) => Err(f),
        }
    }

    /// The action that the state asks for.
    pub open spec fn request(self) -> LoadRequest {
        match self.phase {
            LoadPhase::Resolve => LoadRequest::Resolve { path: self.path },
            LoadPhase::ReadProgram { location } | LoadPhase::ReadInterp {
                location,
            } => LoadRequest::ReadHeaders { location },
            LoadPhase::Clear => LoadRequest::Clear,
            LoadPhase::Trampoline => LoadRequest::MapTrampoline,
            LoadPhase::ReadPath { location, offset, len } => LoadRequest::ReadAt {
                location,
                offset,
                len,
            },
            LoadPhase::ResolveInterp => match self.interp {
                Some(path) => LoadRequest::Resolve { path },
                None => LoadRequest::Nothing,
            },
            LoadPhase::MapProgram { index, bias } => LoadRequest::MapElf { index, bias },
            LoadPhase::Areas => LoadRequest::ListAreas,
            LoadPhase::MapInterp { bias } => LoadRequest::MapElf { index: 0, bias },
            LoadPhase::Finished => LoadRequest::Nothing,
        }
    }

    /// Whether `a` is an outcome of what the state waits for.
    pub open spec fn accepts(self, a: LoadAnswer) -> bool {
        match self.phase {
            LoadPhase::Resolve | LoadPhase::ResolveInterp => a is Location,
            LoadPhase::ReadProgram { location } | LoadPhase::ReadInterp { location } => match a {
                LoadAnswer::Entry(Ok(Ok(e))) => e.location == location && e.valid(),
                LoadAnswer::Entry(_) => true,
                _ => false,
            },
            LoadPhase::ReadPath { len, .. } => match a {
                LoadAnswer::Data(Ok((d, _))) => d.len() == len,
                LoadAnswer::Data(Err(_)) => true,
                _ => false,
            },
            LoadPhase::Clear | LoadPhase::Trampoline | LoadPhase::MapProgram { .. }
            | LoadPhase::MapInterp { .. } => a is Done,
            LoadPhase::Areas => a is Ends,
            LoadPhase::Finished => false,
        }
    }

    /// The state after the outcome `a`, and how far the load got.
    pub open spec fn after(self, a: LoadAnswer) -> Result<(LoadState, LoadReport), Fault> {
        match (self.phase, a) {
            (LoadPhase::Resolve, LoadAnswer::Location(Ok(l))) => if cached(self.cache, l) {
                self.with(after_touch(self.cache, l)).at(LoadPhase::Clear)
            } else {
                self.at(LoadPhase::ReadProgram { location: l })
            },
            (LoadPhase::ReadProgram { .. }, LoadAnswer::Entry(Ok(Ok(e)))) => self.with(
                after_insert(self.cache, e),
            ).at(LoadPhase::Clear),
            (LoadPhase::ReadProgram { .. }, LoadAnswer::Entry(Ok(Err(d)))) => Ok(
                (LoadState { phase: LoadPhase::Finished, ..self }, LoadReport::NotElf(d)),
            ),
            (LoadPhase::Clear, LoadAnswer::Done(Ok(_))) => self.at(LoadPhase::Trampoline),
            (LoadPhase::Trampoline, LoadAnswer::Done(Ok(_))) => self.look_for_interp(),
            (LoadPhase::ReadPath { .. }, LoadAnswer::Data(Ok((d, n)))) => if d.len() != n {
                Err(Fault::ShortInterpreter)
            } else {
                match c_string(d) {
                    Some(path) => LoadState { interp: Some(path), ..self }.at(
                        LoadPhase::ResolveInterp,
                    ),
                    None => self.fail(KernelError::InvalidInput),
                }
            },
            (LoadPhase::ResolveInterp, LoadAnswer::Location(Ok(l))) => if cached(self.cache, l) {
                self.with(after_touch(self.cache, l)).map_both()
            } else {
                self.at(LoadPhase::ReadInterp { location: l })
            },
            (LoadPhase::ReadInterp { .. }, LoadAnswer::Entry(Ok(Ok(e)))) => self.with(
                after_insert(self.cache, e),
            ).map_both(),
            (LoadPhase::ReadInterp { .. }, LoadAnswer::Entry(Ok(Err(_)))) => self.fail(
                KernelError::InvalidInput,
            ),
            (LoadPhase::MapProgram { index, .. }, LoadAnswer::Done(Ok(_))) => if index == 0 {
                self.finish(0, None)
            } else {
                self.at(LoadPhase::Areas)
            },
            (LoadPhase::Areas, LoadAnswer::Ends(ends)) => match interp_bias(self.layout, ends) {
                Some(bias) => self.at(LoadPhase::MapInterp { bias }),
                None => Err(Fault::Overflow),
            },
            (LoadPhase::MapInterp { bias }, LoadAnswer::Done(Ok(_))) => self.finish(1, Some(bias)),
            (_, LoadAnswer::Location(Err(e))) => self.fail(e),
            (_, LoadAnswer::Entry(Err(e))) => self.fail(e),
            (_, LoadAnswer::Done(Err(e))) => self.fail(e),
            (_, LoadAnswer::Data(Err(e))) => self.fail(e),
            _ => self.at(self.phase),
        }
    }

    /// Whether the cache holds what the phase counts on.
    pub open spec fn wf(self) -> bool {
        match self.phase {
            LoadPhase::ReadProgram { location } => !cached(self.cache, location),
            LoadPhase::ReadInterp { location } => !cached(self.cache, location),
            LoadPhase::Clear | LoadPhase::Trampoline => self.cache.len() >= 1,
            LoadPhase::MapProgram { index, .. } => index < self.cache.len() && index <= 1,
            LoadPhase::Areas | LoadPhase::MapInterp { .. } => self.cache.len() >= 2,
            LoadPhase::ResolveInterp => self.interp is Some,
            _ => true,
        }
    }
}

/// The load of a program.
pub struct ProgramLoad {
    pub arch: Arch,
    pub layout: Layout,
    /// The path of the program.
    pub path: String,
    /// The path of the interpreter, once it is known.
    pub interp: Option<String>,
    /// What the load waits for.
    pub phase: LoadPhase,
}

impl ProgramLoad {
    /// The state of the load with the given cache.
    pub open spec fn state(self, cache: Seq<ElfImage>) -> LoadState {
        LoadState {
            arch: self.arch,
            layout: self.layout,
            path: self.path@,
            interp: match self.interp {
                Some(p) => Some(p@),
                None => None,
            },
            phase: self.phase,
            cache,
        }
    }

    /// What follows the mapping of the trampolines.
    fn look_for_interp(&self, loader: &ElfLoader) -> (r: LoadPhase)
        requires
            loader.wf(),
            loader@.len() >= 1,
        ensures
            self.state(loader@).look_for_interp() == self.state(loader@).at(r),
            r matches LoadPhase::MapProgram { index, .. } ==> index == 0,
            r is MapProgram || r is ReadPath,
    {
        let e = match loader.first() {
            Some(e) => e,
            None => return LoadPhase::Finished,
        };
        let mut i: usize = 0;
        while i < e.ph.len() && e.ph[i].kind != SegmentType::Interp
            invariant
                i <= e.ph.len(),
                first_interp(e.ph@, 0) == first_interp(e.ph@, i as int),
            decreases e.ph.len() - i,
        {
            i = i + 1;
        }
        if i < e.ph.len() {
            LoadPhase::ReadPath {
                location: e.location,
                offset: e.ph[i].offset,
                len: e.ph[i].file_size as usize,
            }
        } else {
            LoadPhase::MapProgram { index: 0, bias: self.layout.user_space_base }
        }
    }

    /// What follows when the headers of the interpreter are in the cache.
    fn map_both(&self, loader: &ElfLoader) -> (r: Result<LoadPhase, Fault>)
        requires
            loader.wf(),
        ensures
            match r {
                Ok(p) => self.state(loader@).map_both() == self.state(loader@).at(p)
                    && loader@.len() >= 2 && (p matches LoadPhase::MapProgram { index, .. } && index
                    == 1),
                Err(f) => self.state(loader@).map_both() == Err::<(LoadState, LoadReport), Fault>(f),
            },
    {
        if loader.nth(1).is_none() {
            return Err(Fault::MissingEntry);
        }
        Ok(LoadPhase::MapProgram { index: 1, bias: self.layout.user_space_base })
    }

    /// The end of the load: where execution starts, and the auxiliary vector.
    fn finish(&self, loader: &ElfLoader, index: usize, interp: Option<usize>) -> (r: Result<
        LoadProgress,
        Fault,
    >)
        requires
            loader.wf(),
            index < loader@.len(),
        ensures
            match self.state(loader@).finish(index as int, interp) {
                Ok((s, report)) => s == (LoadState {
                    phase: LoadPhase::Finished,
                    ..self.state(loader@)
                }) && (r matches Ok(p) && p@ == report),
                Err(f) => r == Err::<LoadProgress, Fault>(f),
            },
    {
        let program = match loader.nth(index) {
            Some(e) => e,
            None => return Err(Fault::MissingEntry),
        };
        let bias = self.layout.user_space_base;
        let (start, base) = match interp {
            Some(b) => match loader.first() {
                Some(e) => (
                    find_start(e, b),
                    image_base(e.data.as_slice(), e.table.as_slice(), b),
                ),
                None => return Err(Fault::MissingEntry),
            },
            None => (find_start(program, bias), None),
        };
        let entry = start?;
        let auxv = make_auxv(self.arch, program, bias, base)?;
        Ok(LoadProgress::Loaded { entry, auxv })
    }

    /// What is to be done next.
    pub fn action(&self) -> (r: LoadAction)
        ensures
            forall|c: Seq<ElfImage>| r@ == (#[trigger] self.state(c)).request(),
    {
        match self.phase {
            LoadPhase::Resolve => LoadAction::Resolve { path: self.path.clone() },
            LoadPhase::ReadProgram { location } => LoadAction::ReadHeaders { location },
            LoadPhase::ReadInterp { location } => LoadAction::ReadHeaders { location },
            LoadPhase::Clear => LoadAction::Clear,
            LoadPhase::Trampoline => LoadAction::MapTrampoline,
            LoadPhase::ReadPath { location, offset, len } => LoadAction::ReadAt {
                location,
                offset,
                len,
            },
            LoadPhase::ResolveInterp => match &self.interp {
                Some(path) => LoadAction::Resolve { path: path.clone() },
                None => LoadAction::Nothing,
            },
            LoadPhase::MapProgram { index, bias } => LoadAction::MapElf { index, bias },
            LoadPhase::Areas => LoadAction::ListAreas,
            LoadPhase::MapInterp { bias } => LoadAction::MapElf { index: 0, bias },
            LoadPhase::Finished => LoadAction::Nothing,
        }
    }

    /// Ends the load with an error.
    fn fail(&mut self, e: KernelError) -> (r: LoadProgress)
        ensures
            final(self).arch == old(self).arch,
            final(self).layout == old(self).layout,
            final(self).path == old(self).path,
            final(self).interp == old(self).interp,
            final(self).phase == LoadPhase::Finished,
            r@ == LoadReport::Failed(e),
    {
        self.phase = LoadPhase::Finished;
        LoadProgress::Failed(e)
    }

    /// Takes note of the number of a file. Its headers are looked for in the
    /// cache.
    fn located(&mut self, loader: &mut ElfLoader, location: u64) -> (r: Result<LoadProgress, Fault>)
        requires
            old(loader).wf(),
            old(self).phase is Resolve || old(self).phase is ResolveInterp,
        ensures
            final(loader).wf(),
            stepped(
                old(self).state(old(loader)@),
                LoadAnswer::Location(Ok(location)),
                final(self).state(final(loader)@),
                r,
            ),
            r is Ok ==> final(self).state(final(loader)@).wf(),
    {
        let hit = loader.touch(location);
        match self.phase {
            LoadPhase::Resolve => {
                self.phase = if hit {
                    LoadPhase::Clear
                } else {
                    LoadPhase::ReadProgram { location }
                };
            },
            _ => {
                self.phase = if hit {
                    self.map_both(loader)?
                } else {
                    LoadPhase::ReadInterp { location }
                };
            },
        }
        Ok(LoadProgress::Continue)
    }

    /// Takes note of the headers of a file, or of how it starts if it is no ELF
    /// file. Headers go into the cache.
    fn parsed(&mut self, loader: &mut ElfLoader, entry: Result<ElfCacheEntry, Vec<u8>>) -> (r: Result<
        LoadProgress,
        Fault,
    >)
        requires
            old(loader).wf(),
            old(self).state(old(loader)@).wf(),
            entry matches Ok(e) ==> e.wf(),
            old(self).phase is ReadProgram || old(self).phase is ReadInterp,
            old(self).state(old(loader)@).accepts(LoadInput::Entry(Ok(entry))@),
        ensures
            final(loader).wf(),
            stepped(
                old(self).state(old(loader)@),
                LoadInput::Entry(Ok(entry))@,
                final(self).state(final(loader)@),
                r,
            ),
            r is Ok ==> final(self).state(final(loader)@).wf(),
    {
        let program = match self.phase {
            LoadPhase::ReadProgram { .. } => true,
            _ => false,
        };
        match entry {
            Ok(e) => {
                loader.insert(e);
                self.phase = if program {
                    LoadPhase::Clear
                } else {
                    self.map_both(loader)?
                };
                Ok(LoadProgress::Continue)
            },
            Err(data) => {
                if program {
                    self.phase = LoadPhase::Finished;
                    Ok(LoadProgress::NotElf(data))
                } else {
                    Ok(self.fail(KernelError::InvalidInput))
                }
            },
        }
    }

    /// Takes note that an action succeeded.
    fn done(&mut self, loader: &ElfLoader) -> (r: Result<LoadProgress, Fault>)
        requires
            loader.wf(),
            old(self).state(loader@).wf(),
            old(self).state(loader@).accepts(LoadAnswer::Done(Ok(()))),
        ensures
            stepped(
                old(self).state(loader@),
                LoadAnswer::Done(Ok(())),
                final(self).state(loader@),
                r,
            ),
            r is Ok ==> final(self).state(loader@).wf(),
    {
        match self.phase {
            LoadPhase::Clear => {
                self.phase = LoadPhase::Trampoline;
            },
            LoadPhase::Trampoline => {
                self.phase = self.look_for_interp(loader);
            },
            LoadPhase::MapProgram { index, .. } => {
                if index == 0 {
                    let r = self.finish(loader, 0, None)?;
                    self.phase = LoadPhase::Finished;
                    return Ok(r);
                }
                self.phase = LoadPhase::Areas;
            },
            LoadPhase::MapInterp { bias } => {
                let r = self.finish(loader, 1, Some(bias))?;
                self.phase = LoadPhase::Finished;
                return Ok(r);
            },
            _ => {},
        }
        Ok(LoadProgress::Continue)
    }

    /// Takes note of what the program file holds as the interpreter's path.
    fn named(&mut self, data: Vec<u8>, read: usize, cache: Ghost<Seq<ElfImage>>) -> (r: Result<
        LoadProgress,
        Fault,
    >)
        requires
            old(self).phase is ReadPath,
        ensures
            stepped(
                old(self).state(cache@),
                LoadAnswer::Data(Ok((data@, read))),
                final(self).state(cache@),
                r,
            ),
            r is Ok ==> final(self).state(cache@).wf(),
    {
        if data.len() != read {
            return Err(Fault::ShortInterpreter);
        }
        match read_c_string(&data) {
            Some(path) => {
                self.interp = Some(path);
                self.phase = LoadPhase::ResolveInterp;
                Ok(LoadProgress::Continue)
            },
            None => Ok(self.fail(KernelError::InvalidInput)),
        }
    }

    /// Takes note of the outcome of the action that was asked for.
    pub fn step(&mut self, loader: &mut ElfLoader, input: LoadInput) -> (r: Result<
        LoadProgress,
        Fault,
    >)
        requires
            old(loader).wf(),
            old(self).state(old(loader)@).wf(),
            input matches LoadInput::Entry(Ok(Ok(e))) ==> e.wf(),
            old(self).state(old(loader)@).accepts(input@),
        ensures
            final(loader).wf(),
            stepped(
                old(self).state(old(loader)@),
                input@,
                final(self).state(final(loader)@),
                r,
            ),
            r is Ok ==> final(self).state(final(loader)@).wf(),
    {
        match input {
            LoadInput::Location(Ok(location)) => self.located(loader, location),
            LoadInput::Location(Err(e)) => Ok(self.fail(e)),
            LoadInput::Entry(Ok(entry)) => self.parsed(loader, entry),
            LoadInput::Entry(Err(e)) => Ok(self.fail(e)),
            LoadInput::Done(Ok(_)) => self.done(loader),
            LoadInput::Done(Err(e)) => Ok(self.fail(e)),
            LoadInput::Data(Ok((data, read))) => self.named(data, read, Ghost(loader@)),
            LoadInput::Data(Err(e)) => Ok(self.fail(e)),
            LoadInput::Ends(ends) => match interp_base(&self.layout, &ends) {
                Some(bias) => {
                    self.phase = LoadPhase::MapInterp { bias };
                    Ok(LoadProgress::Continue)
                },
                None => Err(Fault::Overflow),
            },
        }
    }
}

/// Whether a step from `s` with the outcome `a` leads to `t`, with the result
/// `r`. After a fault only the cache counts.
pub open spec fn stepped(
    s: LoadState,
    a: LoadAnswer,
    t: LoadState,
    r: Result<LoadProgress, Fault>,
) -> bool {
    match s.after(a) {
        Ok((next, report)) => t == next && (r matches Ok(p) && p@ == report),
        Err(f) => r == Err::<LoadProgress, Fault>(f),
    }
}

impl ElfLoader {
    /// Starts the load of the program at `path`.
    pub fn load(&self, arch: Arch, layout: Layout, path: &str) -> (r: ProgramLoad)
        ensures
            r.state(self@) == (LoadState {
                arch,
                layout,
                path: path@,
                interp: None,
                phase: LoadPhase::Resolve,
                cache: self@,
            }),
            r.state(self@).wf(),
    {
        ProgramLoad {
            arch,
            layout,
            path: path.to_owned(),
            interp: None,
            phase: LoadPhase::Resolve,
        }
    }
}

// ---------- What the load of a whole program does ----------

/// What a load meets with: the numbers of the files, their headers and
/// contents, and the ends of the areas that are mapped.
pub ghost struct World {
    pub find: spec_fn(Seq<char>) -> Result<u64, KernelError>,
    pub headers: spec_fn(u64) -> Result<Result<ElfImage, Seq<u8>>, KernelError>,
    pub contents: spec_fn(u64, u64, usize) -> Result<(Seq<u8>, usize), KernelError>,
    pub done: spec_fn(LoadRequest) -> Result<(), KernelError>,
    pub ends: Seq<usize>,
}

impl World {
    /// The outcome of an action.
    pub open spec fn answer(self, q: LoadRequest) -> LoadAnswer {
        match q {
            LoadRequest::Resolve { path } => LoadAnswer::Location((self.find)(path)),
            LoadRequest::ReadHeaders { location } => LoadAnswer::Entry((self.headers)(location)),
            LoadRequest::ReadAt { location, offset, len } => LoadAnswer::Data(
                (self.contents)(location, offset, len),
            ),
            LoadRequest::ListAreas => LoadAnswer::Ends(self.ends),
            _ => LoadAnswer::Done((self.done)(q)),
        }
    }

    /// Whether the headers in the cache are those of the files.
    pub open spec fn agrees(self, cache: Seq<ElfImage>) -> bool {
        forall|i: int| 0 <= i < cache.len() ==> (self.headers)((#[trigger] cache[i]).location) == Ok::<
            Result<ElfImage, Seq<u8>>,
            KernelError,
        >(Ok(cache[i]))
    }
}

/// What a load does within `fuel` steps: the actions that it asks for, the
/// state that it ends in, and its last report.
#[verifier::opaque]
pub open spec fn run(s: LoadState, w: World, fuel: nat) -> (Seq<LoadRequest>, LoadState, LoadReport)
    decreases fuel,
{
    if fuel == 0 || s.phase is Finished {
        (Seq::empty(), s, LoadReport::Continue)
    } else {
        match s.after(w.answer(s.request())) {
            Err(_) => (Seq::empty(), s, LoadReport::Continue),
            Ok((t, LoadReport::Continue)) => {
                let (q, e, r) = run(t, w, (fuel - 1) as nat);
                (seq![s.request()] + q, e, r)
            },
            Ok((t, r)) => (seq![s.request()], t, r),
        }
    }
}

/// The cache once the headers `e` are in front.
pub open spec fn with_front(cache: Seq<ElfImage>, e: ElfImage) -> Seq<ElfImage> {
    if cached(cache, e.location) {
        after_touch(cache, e.location)
    } else {
        after_insert(cache, e)
    }
}

/// The actions that find a file's headers: they are read only where the cache
/// does not hold them.
pub open spec fn find_headers(cache: Seq<ElfImage>, path: Seq<char>, location: u64) -> Seq<
    LoadRequest,
> {
    if cached(cache, location) {
        seq![LoadRequest::Resolve { path }]
    } else {
        seq![LoadRequest::Resolve { path }, LoadRequest::ReadHeaders { location }]
    }
}

/// The actions that make an address space ready for a program.
pub open spec fn prepare() -> Seq<LoadRequest> {
    seq![LoadRequest::Clear, LoadRequest::MapTrampoline]
}

/// Whether the file at `path` is the one with the headers `e`.
pub open spec fn holds_program(w: World, path: Seq<char>, e: ElfImage) -> bool {
    &&& (w.find)(path) == Ok::<u64, KernelError>(e.location)
    &&& (w.headers)(e.location) == Ok::<Result<ElfImage, Seq<u8>>, KernelError>(Ok(e))
}

proof fn lemma_run_step(s: LoadState, w: World, t: LoadState, fuel: nat)
    requires
        !(s.phase is Finished),
        s.after(w.answer(s.request())) == Ok::<(LoadState, LoadReport), Fault>(
            (t, LoadReport::Continue),
        ),
    ensures
        run(s, w, fuel + 1).0 == seq![s.request()] + run(t, w, fuel).0,
        run(s, w, fuel + 1).1 == run(t, w, fuel).1,
        run(s, w, fuel + 1).2 == run(t, w, fuel).2,
{
    reveal_with_fuel(run, 1);
}

proof fn lemma_run_last(s: LoadState, w: World, t: LoadState, r: LoadReport, fuel: nat)
    requires
        !(s.phase is Finished),
        !(r is Continue),
        s.after(w.answer(s.request())) == Ok::<(LoadState, LoadReport), Fault>((t, r)),
    ensures
        run(s, w, fuel + 1) == (seq![s.request()], t, r),
{
    reveal_with_fuel(run, 1);
}

/// Headers that the cache holds come to the front; others come in there.
proof fn lemma_with_front(w: World, cache: Seq<ElfImage>, e: ElfImage)
    requires
        w.agrees(cache),
        (w.headers)(e.location) == Ok::<Result<ElfImage, Seq<u8>>, KernelError>(Ok(e)),
    ensures
        with_front(cache, e).len() >= 1,
        with_front(cache, e)[0] == e,
        w.agrees(with_front(cache, e)),
        cache.len() >= 1 && cache[0].location != e.location ==> with_front(cache, e).len() >= 2
            && with_front(cache, e)[1] == cache[0],
{
    let c = with_front(cache, e);
    if cached(cache, e.location) {
        let k = place(cache, e.location);
        assert(cache[k].location == e.location);
        assert forall|i: int| 0 <= i < c.len() implies (w.headers)((#[trigger] c[i]).location)
            == Ok::<Result<ElfImage, Seq<u8>>, KernelError>(Ok(c[i])) by {
            let j = if i == 0 {
                k
            } else if i - 1 < k {
                i - 1
            } else {
                i
            };
            assert(c[i] == cache[j]);
        }
    } else {
        assert forall|i: int| 0 <= i < c.len() implies (w.headers)((#[trigger] c[i]).location)
            == Ok::<Result<ElfImage, Seq<u8>>, KernelError>(Ok(c[i])) by {
            if i > 0 {
                assert(c[i] == cache[i - 1]);
            }
        }
    }
}

/// From a state that looks for the headers `e` to one that has them in front.
#[verifier::rlimit(30)]
proof fn lemma_run_find(s: LoadState, w: World, path: Seq<char>, e: ElfImage, t: LoadState, fuel: nat)
    requires
        s.phase is Resolve || s.phase is ResolveInterp,
        s.request() == (LoadRequest::Resolve { path }),
        w.agrees(s.cache),
        holds_program(w, path, e),
        ({
            let u = s.with(with_front(s.cache, e));
            if s.phase is Resolve {
                u.at(LoadPhase::Clear) == Ok::<(LoadState, LoadReport), Fault>(
                    (t, LoadReport::Continue),
                )
            } else {
                u.map_both() == Ok::<(LoadState, LoadReport), Fault>((t, LoadReport::Continue))
            }
        }),
    ensures
        ({
            let steps: nat = if cached(s.cache, e.location) { 1 } else { 2 };
            let (q, end, r) = run(t, w, fuel);
            &&& run(s, w, fuel + steps).0 == find_headers(s.cache, path, e.location) + q
            &&& run(s, w, fuel + steps).1 == end
            &&& run(s, w, fuel + steps).2 == r
        }),
{
    let q = run(t, w, fuel).0;
    if cached(s.cache, e.location) {
        lemma_run_step(s, w, t, fuel);
    } else {
        let phase = if s.phase is Resolve {
            LoadPhase::ReadProgram { location: e.location }
        } else {
            LoadPhase::ReadInterp { location: e.location }
        };
        let m = LoadState { phase, ..s };
        lemma_run_step(m, w, t, fuel);
        lemma_run_step(s, w, m, fuel + 1);
        assert(seq![LoadRequest::Resolve { path }] + (seq![
            LoadRequest::ReadHeaders { location: e.location },
        ] + q) =~= find_headers(s.cache, path, e.location) + q);
    }
}

/// A program without an interpreter is loaded at the start of the user address
/// space, which is emptied and given the trampolines first; it starts at its
/// own entry point. Its headers are read from the file only if the cache does
/// not hold them, and are in front of the cache afterwards. This is so where no
/// action fails and the addresses fit in a word.
#[verifier::rlimit(30)]
pub proof fn law_load_static(s: LoadState, w: World, e: ElfImage, entry: usize, auxv: Seq<AuxEntry>)
    requires
        s.phase is Resolve,
        w.agrees(s.cache),
        holds_program(w, s.path, e),
        first_interp(e.ph(), 0) >= e.ph().len(),
        forall|q: LoadRequest| #[trigger] (w.done)(q) == Ok::<(), KernelError>(()),
        start_address(e, s.layout.user_space_base) == Ok::<usize, Fault>(entry),
        auxv_of(s.arch, e, s.layout.user_space_base, None) == Ok::<Seq<AuxEntry>, Fault>(auxv),
    ensures
        ({
            let (q, end, r) = run(s, w, 5);
            &&& q == find_headers(s.cache, s.path, e.location) + prepare() + seq![
                LoadRequest::MapElf { index: 0, bias: s.layout.user_space_base },
            ]
            &&& end.cache == with_front(s.cache, e)
            &&& end.phase is Finished
            &&& r == LoadReport::Loaded { entry, auxv }
        }),
{
    lemma_with_front(w, s.cache, e);
    let c = with_front(s.cache, e);
    let s1 = LoadState { phase: LoadPhase::Clear, cache: c, ..s };
    let s2 = LoadState { phase: LoadPhase::Trampoline, ..s1 };
    let map = LoadPhase::MapProgram { index: 0, bias: s.layout.user_space_base };
    let s3 = LoadState { phase: map, ..s2 };
    let steps: nat = if cached(s.cache, e.location) { 1 } else { 2 };
    let n = (5 - steps) as nat;
    assert(s3.cache[0] == e);
    let end = LoadState { phase: LoadPhase::Finished, ..s3 };
    lemma_run_last(s3, w, end, LoadReport::Loaded { entry, auxv }, (n - 3) as nat);
    lemma_run_step(s2, w, s3, (n - 2) as nat);
    lemma_run_step(s1, w, s2, (n - 1) as nat);
    lemma_run_find(s, w, s.path, e, s1, n);
    assert(find_headers(s.cache, s.path, e.location) + (seq![LoadRequest::Clear] + (seq![
        LoadRequest::MapTrampoline,
    ] + seq![s3.request()])) =~= find_headers(s.cache, s.path, e.location) + prepare() + seq![
        s3.request(),
    ]);
}

/// The segment that names the interpreter.
pub open spec fn interp_segment(e: ElfImage) -> ProgramHeader {
    e.ph()[first_interp(e.ph(), 0)]
}

/// The action that reads the interpreter's path from the program file.
pub open spec fn read_path(e: ElfImage) -> LoadRequest {
    LoadRequest::ReadAt {
        location: e.location,
        offset: interp_segment(e).offset,
        len: interp_segment(e).file_size as usize,
    }
}

/// From the headers of the program and its interpreter to the end of the load.
proof fn lemma_run_maps(
    s: LoadState,
    w: World,
    e: ElfImage,
    interp: ElfImage,
    bias: usize,
    entry: usize,
    auxv: Seq<AuxEntry>,
    fuel: nat,
)
    requires
        s.phase == (LoadPhase::MapProgram { index: 1, bias: s.layout.user_space_base }),
        s.cache.len() >= 2,
        s.cache[0] == interp,
        s.cache[1] == e,
        forall|q: LoadRequest| #[trigger] (w.done)(q) == Ok::<(), KernelError>(()),
        interp_bias(s.layout, w.ends) == Some(bias),
        start_address(interp, bias) == Ok::<usize, Fault>(entry),
        auxv_of(
            s.arch,
            e,
            s.layout.user_space_base,
            Some(load_base(interp.header(), bias)),
        ) == Ok::<Seq<AuxEntry>, Fault>(auxv),
    ensures
        run(s, w, fuel + 3).0 == seq![
            LoadRequest::MapElf { index: 1, bias: s.layout.user_space_base },
            LoadRequest::ListAreas,
            LoadRequest::MapElf { index: 0, bias },
        ],
        run(s, w, fuel + 3).1 == (LoadState { phase: LoadPhase::Finished, ..s }),
        run(s, w, fuel + 3).2 == (LoadReport::Loaded { entry, auxv }),
{
    let s6 = LoadState { phase: LoadPhase::Areas, ..s };
    let s7 = LoadState { phase: LoadPhase::MapInterp { bias }, ..s };
    let q7 = seq![s7.request()];
    let end = LoadState { phase: LoadPhase::Finished, ..s };
    lemma_run_last(s7, w, end, LoadReport::Loaded { entry, auxv }, fuel);
    lemma_run_step(s6, w, s7, fuel + 1);
    lemma_run_step(s, w, s6, fuel + 2);
    assert(seq![s.request()] + (seq![s6.request()] + q7) =~= seq![
        LoadRequest::MapElf { index: 1, bias: s.layout.user_space_base },
        LoadRequest::ListAreas,
        LoadRequest::MapElf { index: 0, bias },
    ]);
}

/// From the headers of the program to the path of its interpreter.
proof fn lemma_run_path(s: LoadState, w: World, e: ElfImage, data: Seq<u8>, fuel: nat)
    requires
        s.phase is Clear,
        s.cache.len() >= 1,
        s.cache[0] == e,
        forall|q: LoadRequest| #[trigger] (w.done)(q) == Ok::<(), KernelError>(()),
        first_interp(e.ph(), 0) < e.ph().len(),
        (w.contents)(
            e.location,
            interp_segment(e).offset,
            interp_segment(e).file_size as usize,
        ) == Ok::<(Seq<u8>, usize), KernelError>((data, data.len() as usize)),
        data.len() <= usize::MAX,
        c_string(data) is Some,
    ensures
        ({
            let t = LoadState { phase: LoadPhase::ResolveInterp, interp: c_string(data), ..s };
            let (q, end, r) = run(t, w, fuel);
            &&& run(s, w, fuel + 3).0 == prepare() + seq![read_path(e)] + q
            &&& run(s, w, fuel + 3).1 == end
            &&& run(s, w, fuel + 3).2 == r
        }),
{
    let seg = interp_segment(e);
    let read = LoadPhase::ReadPath {
        location: e.location,
        offset: seg.offset,
        len: seg.file_size as usize,
    };
    let s2 = LoadState { phase: LoadPhase::Trampoline, ..s };
    let s3 = LoadState { phase: read, ..s };
    let s4 = LoadState { phase: LoadPhase::ResolveInterp, interp: c_string(data), ..s };
    let q = run(s4, w, fuel).0;
    lemma_run_step(s3, w, s4, fuel);
    lemma_run_step(s2, w, s3, fuel + 1);
    lemma_run_step(s, w, s2, fuel + 2);
    assert(seq![LoadRequest::Clear] + (seq![LoadRequest::MapTrampoline] + (seq![read_path(e)] + q))
        =~= prepare() + seq![read_path(e)] + q);
}

/// A program with an interpreter is loaded at the start of the user address
/// space, and its interpreter behind all that is mapped by then. The
/// interpreter is the one that starts, and the auxiliary vector tells it of the
/// program and of its own load address. This is so where no action fails, the
/// addresses fit in a word, and the program is not its own interpreter.
pub proof fn law_load_dynamic(
    s: LoadState,
    w: World,
    e: ElfImage,
    interp: ElfImage,
    data: Seq<u8>,
    bias: usize,
    entry: usize,
    auxv: Seq<AuxEntry>,
)
    requires
        s.phase is Resolve,
        w.agrees(s.cache),
        holds_program(w, s.path, e),
        first_interp(e.ph(), 0) < e.ph().len(),
        (w.contents)(
            e.location,
            interp_segment(e).offset,
            interp_segment(e).file_size as usize,
        ) == Ok::<(Seq<u8>, usize), KernelError>((data, data.len() as usize)),
        data.len() <= usize::MAX,
        c_string(data) is Some,
        holds_program(w, c_string(data)->0, interp),
        interp.location != e.location,
        forall|q: LoadRequest| #[trigger] (w.done)(q) == Ok::<(), KernelError>(()),
        interp_bias(s.layout, w.ends) == Some(bias),
        start_address(interp, bias) == Ok::<usize, Fault>(entry),
        auxv_of(
            s.arch,
            e,
            s.layout.user_space_base,
            Some(load_base(interp.header(), bias)),
        ) == Ok::<Seq<AuxEntry>, Fault>(auxv),
    ensures
        ({
            let path = c_string(data)->0;
            let cache = with_front(s.cache, e);
            let (q, end, r) = run(s, w, 10);
            &&& q == find_headers(s.cache, s.path, e.location) + prepare() + seq![read_path(e)]
                + find_headers(cache, path, interp.location) + seq![
                LoadRequest::MapElf { index: 1, bias: s.layout.user_space_base },
                LoadRequest::ListAreas,
                LoadRequest::MapElf { index: 0, bias },
            ]
            &&& end.cache == with_front(cache, interp)
            &&& end.cache[0] == interp
            &&& end.cache[1] == e
            &&& end.phase is Finished
            &&& r == LoadReport::Loaded { entry, auxv }
        }),
{
    let path = c_string(data)->0;
    lemma_with_front(w, s.cache, e);
    let c = with_front(s.cache, e);
    lemma_with_front(w, c, interp);
    let s1 = LoadState { phase: LoadPhase::Clear, cache: c, ..s };
    let s4 = LoadState { phase: LoadPhase::ResolveInterp, interp: Some(path), ..s1 };
    let map = LoadPhase::MapProgram { index: 1, bias: s.layout.user_space_base };
    let s5 = LoadState { phase: map, cache: with_front(c, interp), ..s4 };
    let a: nat = if cached(s.cache, e.location) { 1 } else { 2 };
    let b: nat = if cached(c, interp.location) { 1 } else { 2 };
    let fuel = (4 - a - b) as nat;
    lemma_run_maps(s5, w, e, interp, bias, entry, auxv, fuel);
    lemma_run_find(s4, w, path, interp, s5, fuel + 3);
    lemma_run_path(s1, w, e, data, fuel + 3 + b);
    lemma_run_find(s, w, s.path, e, s1, fuel + 6 + b);
    let q = find_headers(s.cache, s.path, e.location);
    let q4 = run(s4, w, fuel + 3 + b).0;
    assert(q + (prepare() + seq![read_path(e)] + q4) =~= q + prepare() + seq![read_path(e)]
        + find_headers(c, path, interp.location) + seq![
        LoadRequest::MapElf { index: 1, bias: s.layout.user_space_base },
        LoadRequest::ListAreas,
        LoadRequest::MapElf { index: 0, bias },
    ]);
}

/// A file that is not found or is no ELF file leaves the address space and the
/// cache as they are: only its headers are looked for.
pub proof fn law_load_refused(s: LoadState, w: World, fuel: nat)
    requires
        s.phase is Resolve,
        match (w.find)(s.path) {
            Ok(l) => !cached(s.cache, l) && !((w.headers)(l) matches Ok(Ok(_))),
            Err(_) => true,
        },
    ensures
        ({
            let (q, end, r) = run(s, w, fuel + 2);
            match (w.find)(s.path) {
                Err(e) => q == seq![LoadRequest::Resolve { path: s.path }] && r
                    == LoadReport::Failed(e),
                Ok(l) => {
                    &&& q == seq![
                        LoadRequest::Resolve { path: s.path },
                        LoadRequest::ReadHeaders { location: l },
                    ]
                    &&& match (w.headers)(l) {
                        Ok(Ok(_)) => true,
                        Ok(Err(d)) => r == LoadReport::NotElf(d),
                        Err(e) => r == LoadReport::Failed(e),
                    }
                },
            }
        }),
        run(s, w, fuel + 2).1.cache == s.cache,
{
    let end = LoadState { phase: LoadPhase::Finished, ..s };
    match (w.find)(s.path) {
        Err(e) => {
            lemma_run_last(s, w, end, LoadReport::Failed(e), fuel + 1);
        },
        Ok(l) => {
            let t = LoadState { phase: LoadPhase::ReadProgram { location: l }, ..s };
            let r = match (w.headers)(l) {
                Ok(Err(d)) => LoadReport::NotElf(d),
                Ok(Ok(_)) => LoadReport::Continue,
                Err(e) => LoadReport::Failed(e),
            };
            lemma_run_last(t, w, end, r, fuel);
            lemma_run_step(s, w, t, fuel + 1);
            assert(seq![LoadRequest::Resolve { path: s.path }] + seq![
                LoadRequest::ReadHeaders { location: l },
            ] =~= seq![
                LoadRequest::Resolve { path: s.path },
                LoadRequest::ReadHeaders { location: l },
            ]);
        },
    }
}

// ---------- Laws ----------

/// The interpreter is loaded at the first multiple of 1 MiB behind the area that
/// ends last, or behind the start of the user address space if there is no area.
/// That this leaves the word is the one reason why it cannot be placed.
pub proof fn law_interp_bias(layout: Layout, ends: Seq<usize>)
    ensures
        interp_bias(layout, ends) matches Some(b) ==> {
            &&& b as int % 0x10_0000 == 0
            &&& forall|i: int| 0 <= i < ends.len() ==> #[trigger] ends[i] <= b
            &&& ends.len() > 0 ==> exists|i: int|
                0 <= i < ends.len() && b < #[trigger] ends[i] + 0x10_0000
            &&& ends.len() == 0 ==> layout.user_space_base <= b < layout.user_space_base + 0x10_0000
        },
        ends.len() == 0 ==> (interp_bias(layout, ends) is None <==> layout.user_space_base
            + 0x10_0000 > usize::MAX),
        ends.len() > 0 ==> (interp_bias(layout, ends) is None <==> exists|i: int|
            0 <= i < ends.len() && #[trigger] ends[i] + 0x10_0000 > usize::MAX),
{
    law_interp_floor(layout, ends);
    let floor = interp_floor(layout, ends);
    law_round_up(floor as int, 0x10_0000);
    if ends.len() > 0 {
        let k = choose|k: int| 0 <= k < ends.len() && ends[k] == floor;
        assert(ends[k] == floor);
        if let Some(b) = interp_bias(layout, ends) {
            assert(b < ends[k] + 0x10_0000);
        }
    }
}

/// Whether segment `k` names an interpreter, and none before it does.
pub open spec fn names_interp(ph: Seq<ProgramHeader>, k: int) -> bool {
    &&& 0 <= k < ph.len()
    &&& ph[k].kind == SegmentType::Interp
    &&& forall|i: int| 0 <= i < k ==> (#[trigger] ph[i]).kind != SegmentType::Interp
}

proof fn lemma_first_interp(ph: Seq<ProgramHeader>, i: int)
    requires
        0 <= i <= ph.len(),
    ensures
        i <= first_interp(ph, i) <= ph.len(),
        first_interp(ph, i) < ph.len() ==> ph[first_interp(ph, i)].kind == SegmentType::Interp,
        forall|j: int| i <= j < first_interp(ph, i) ==> (#[trigger] ph[j]).kind
            != SegmentType::Interp,
    decreases ph.len() - i,
{
    if i < ph.len() && ph[i].kind != SegmentType::Interp {
        lemma_first_interp(ph, i + 1);
    }
}

/// The segment that names the interpreter is the first of its type.
proof fn lemma_names_interp(ph: Seq<ProgramHeader>, k: int)
    ensures
        names_interp(ph, k) ==> first_interp(ph, 0) == k,
        (forall|i: int| 0 <= i < ph.len() ==> (#[trigger] ph[i]).kind != SegmentType::Interp)
            ==> first_interp(ph, 0) == ph.len(),
{
    lemma_first_interp(ph, 0);
    let f = first_interp(ph, 0);
    if names_interp(ph, k) {
        if f < k {
            assert(ph[f].kind != SegmentType::Interp);
        } else if k < f {
            assert(ph[k].kind != SegmentType::Interp);
        }
    }
    if f < ph.len() && (forall|i: int|
        0 <= i < ph.len() ==> (#[trigger] ph[i]).kind != SegmentType::Interp) {
        assert(ph[f].kind != SegmentType::Interp);
    }
}

/// What is done to load a program in which no segment names an interpreter, where
/// nothing fails: its headers are found, and read only if the cache does not hold
/// them; the address space is emptied and given the trampolines; and the program
/// is mapped with the start of the user address space for its bias. It starts at
/// the entry point of its header, shifted by the bias if it is a shared object.
pub proof fn law_static_program(s: LoadState, w: World, e: ElfImage, auxv: Seq<AuxEntry>)
    requires
        s.phase is Resolve,
        w.agrees(s.cache),
        (w.find)(s.path) == Ok::<u64, KernelError>(e.location),
        (w.headers)(e.location) == Ok::<Result<ElfImage, Seq<u8>>, KernelError>(Ok(e)),
        forall|i: int| 0 <= i < e.ph().len() ==> (#[trigger] e.ph()[i]).kind != SegmentType::Interp,
        forall|q: LoadRequest| #[trigger] (w.done)(q) == Ok::<(), KernelError>(()),
        (e.header().entry as usize) + (if e.header().shared_object {
            s.layout.user_space_base as int
        } else {
            0
        }) <= usize::MAX,
        auxv_of(s.arch, e, s.layout.user_space_base, None) == Ok::<Seq<AuxEntry>, Fault>(auxv),
    ensures
        ({
            let bias = s.layout.user_space_base;
            let (q, end, r) = run(s, w, 5);
            let found = seq![LoadRequest::Resolve { path: s.path }];
            let read = seq![LoadRequest::ReadHeaders { location: e.location }];
            let rest = seq![
                LoadRequest::Clear,
                LoadRequest::MapTrampoline,
                LoadRequest::MapElf { index: 0, bias },
            ];
            let entry = (e.header().entry as usize) + if e.header().shared_object {
                bias as int
            } else {
                0
            };
            &&& q == if cached(s.cache, e.location) {
                found + rest
            } else {
                found + read + rest
            }
            &&& end.phase is Finished
            &&& end.cache.len() > 0 && end.cache[0] == e
            &&& r == LoadReport::Loaded { entry: entry as usize, auxv }
        }),
{
    lemma_names_interp(e.ph(), 0);
    law_start_address(e, s.layout.user_space_base);
    let entry = start_address(e, s.layout.user_space_base)->Ok_0;
    law_load_static(s, w, e, entry, auxv);
    lemma_with_front(w, s.cache, e);
    let rest = seq![
        LoadRequest::Clear,
        LoadRequest::MapTrampoline,
        LoadRequest::MapElf { index: 0, bias: s.layout.user_space_base },
    ];
    let found = seq![LoadRequest::Resolve { path: s.path }];
    let read = seq![LoadRequest::ReadHeaders { location: e.location }];
    let q = run(s, w, 5).0;
    if cached(s.cache, e.location) {
        assert(q =~= found + rest);
    } else {
        assert(q =~= found + read + rest);
    }
}

/// What is done to load a program whose segment `k` is the first that names an
/// interpreter, where nothing fails: the path is read from that segment's part of
/// the file, the interpreter's headers are found under that path, the program is
/// mapped with the start of the user address space for its bias, and then the
/// interpreter behind all areas. The interpreter is what starts, at the entry
/// point of its own header, and the auxiliary vector is that of the program, with
/// the interpreter's load address.
pub proof fn law_dynamic_program(
    s: LoadState,
    w: World,
    e: ElfImage,
    k: int,
    interp: ElfImage,
    path: Seq<char>,
    bias: usize,
    auxv: Seq<AuxEntry>,
)
    requires
        s.phase is Resolve,
        w.agrees(s.cache),
        (w.find)(s.path) == Ok::<u64, KernelError>(e.location),
        (w.headers)(e.location) == Ok::<Result<ElfImage, Seq<u8>>, KernelError>(Ok(e)),
        names_interp(e.ph(), k),
        encode_utf8(path).len() + 1 <= usize::MAX,
        !encode_utf8(path).contains(0),
        (w.contents)(e.location, e.ph()[k].offset, e.ph()[k].file_size as usize) == Ok::<
            (Seq<u8>, usize),
            KernelError,
        >((encode_utf8(path).push(0), (encode_utf8(path).len() + 1) as usize)),
        (w.find)(path) == Ok::<u64, KernelError>(interp.location),
        (w.headers)(interp.location) == Ok::<Result<ElfImage, Seq<u8>>, KernelError>(Ok(interp)),
        interp.location != e.location,
        forall|q: LoadRequest| #[trigger] (w.done)(q) == Ok::<(), KernelError>(()),
        interp_bias(s.layout, w.ends) == Some(bias),
        (interp.header().entry as usize) + (if interp.header().shared_object {
            bias as int
        } else {
            0
        }) <= usize::MAX,
        auxv_of(
            s.arch,
            e,
            s.layout.user_space_base,
            Some(
                if interp.header().shared_object {
                    bias
                } else {
                    0
                },
            ),
        ) == Ok::<Seq<AuxEntry>, Fault>(auxv),
    ensures
        ({
            let (q, end, r) = run(s, w, 10);
            let found = if cached(s.cache, e.location) {
                seq![LoadRequest::Resolve { path: s.path }]
            } else {
                seq![
                    LoadRequest::Resolve { path: s.path },
                    LoadRequest::ReadHeaders { location: e.location },
                ]
            };
            let named = seq![
                LoadRequest::Clear,
                LoadRequest::MapTrampoline,
                LoadRequest::ReadAt {
                    location: e.location,
                    offset: e.ph()[k].offset,
                    len: e.ph()[k].file_size as usize,
                },
            ];
            let other = if cached(with_front(s.cache, e), interp.location) {
                seq![LoadRequest::Resolve { path }]
            } else {
                seq![
                    LoadRequest::Resolve { path },
                    LoadRequest::ReadHeaders { location: interp.location },
                ]
            };
            let rest = seq![
                LoadRequest::MapElf { index: 1, bias: s.layout.user_space_base },
                LoadRequest::ListAreas,
                LoadRequest::MapElf { index: 0, bias },
            ];
            let entry = (interp.header().entry as usize) + if interp.header().shared_object {
                bias as int
            } else {
                0
            };
            &&& q == found + named + other + rest
            &&& end.phase is Finished
            &&& end.cache.len() >= 2 && end.cache[0] == interp && end.cache[1] == e
            &&& r == LoadReport::Loaded { entry: entry as usize, auxv }
        }),
{
    lemma_names_interp(e.ph(), k);
    law_start_address(interp, bias);
    let entry = start_address(interp, bias)->Ok_0;
    let data = encode_utf8(path).push(0);
    law_c_string(data, path);
    law_load_dynamic(s, w, e, interp, data, bias, entry, auxv);
    lemma_with_front(w, s.cache, e);
    lemma_with_front(w, with_front(s.cache, e), interp);
    let c = with_front(s.cache, e);
    let found = find_headers(s.cache, s.path, e.location);
    let named = prepare() + seq![read_path(e)];
    let other = find_headers(c, path, interp.location);
    let rest = seq![
        LoadRequest::MapElf { index: 1, bias: s.layout.user_space_base },
        LoadRequest::ListAreas,
        LoadRequest::MapElf { index: 0, bias },
    ];
    let q = run(s, w, 10).0;
    assert(q =~= found + named + other + rest);
    assert(named =~= seq![
        LoadRequest::Clear,
        LoadRequest::MapTrampoline,
        LoadRequest::ReadAt {
            location: e.location,
            offset: e.ph()[k].offset,
            len: e.ph()[k].file_size as usize,
        },
    ]);
}

/// An action that fails ends the load with its error; the cache keeps what it
/// holds. An interpreter that is no ELF file, or whose path is no text that a zero
/// byte ends, is refused with `EINVAL`. A path that could not be read as a whole,
/// and a program that left the cache, are faults.
pub proof fn law_load_fails(s: LoadState, e: KernelError, d: Seq<u8>, n: usize, l: u64)
    ensures
        ({
            let failed = match s.phase {
                LoadPhase::Resolve | LoadPhase::ResolveInterp => LoadAnswer::Location(Err(e)),
                LoadPhase::ReadProgram { .. } | LoadPhase::ReadInterp { .. } => LoadAnswer::Entry(
                    Err(e),
                ),
                LoadPhase::ReadPath { .. } => LoadAnswer::Data(Err(e)),
                _ => LoadAnswer::Done(Err(e)),
            };
            !(s.phase is Finished) && !(s.phase is Areas) ==> s.accepts(failed) && (s.after(
                failed,
            ) matches Ok((t, r)) && t.phase is Finished && t.cache == s.cache && r
                == LoadReport::Failed(e))
        }),
        s.phase is ReadProgram ==> s.accepts(LoadAnswer::Entry(Ok(Err(d)))) && (s.after(
            LoadAnswer::Entry(Ok(Err(d))),
        ) matches Ok((t, r)) && t.phase is Finished && t.cache == s.cache && r
            == LoadReport::NotElf(d)),
        s.phase is ReadInterp ==> s.accepts(LoadAnswer::Entry(Ok(Err(d)))) && (s.after(
            LoadAnswer::Entry(Ok(Err(d))),
        ) matches Ok((t, r)) && t.phase is Finished && t.cache == s.cache && r
            == LoadReport::Failed(KernelError::InvalidInput)),
        s.phase matches LoadPhase::ReadPath { len, .. } && d.len() == len ==> {
            let a = LoadAnswer::Data(Ok((d, n)));
            &&& s.accepts(a)
            &&& n != d.len() <==> s.after(a) == Err::<(LoadState, LoadReport), Fault>(
                Fault::ShortInterpreter,
            )
            &&& n == d.len() && (forall|t: Seq<char>| d != #[trigger] encode_utf8(t).push(0)) ==> (
            s.after(a) matches Ok((t, r)) && t.phase is Finished && r == LoadReport::Failed(
                KernelError::InvalidInput,
            ))
        },
        s.phase is ResolveInterp && s.cache.len() == 1 && s.cache[0].location == l ==> s.after(
            LoadAnswer::Location(Ok(l)),
        ) == Err::<(LoadState, LoadReport), Fault>(Fault::MissingEntry),
{
    if s.phase is ReadPath {
        if let Some(t) = c_string(d) {
            law_c_string(d, t);
        }
    }
    if s.phase is ResolveInterp && s.cache.len() == 1 && s.cache[0].location == l {
        assert(cached(s.cache, l));
        assert(place(s.cache, l) == 0);
        assert(after_touch(s.cache, l).len() == 1);
    }
}

/// The load of a program begins with finding its file, with the cache as it is.
pub proof fn law_load_begins(
    loader: &ElfLoader,
    arch: Arch,
    layout: Layout,
    path: &str,
    r: ProgramLoad,
)
    requires
        call_ensures(ElfLoader::load, (loader, arch, layout, path), r),
    ensures
        ({
            let s = r.state(loader@);
            &&& s.request() == (LoadRequest::Resolve { path: path@ })
            &&& s.cache == loader@
            &&& s.arch == arch
            &&& s.layout == layout
        }),
{
}

/// A load takes what it asked for: the number of a file, the headers of the file,
/// as many bytes as it asked for, the ends of the areas, and that an action
/// succeeded.
pub proof fn law_load_takes(s: LoadState, l: u64, e: ElfImage, d: Seq<u8>, n: usize, ends: Seq<usize>)
    ensures
        s.request() is Resolve ==> s.accepts(LoadAnswer::Location(Ok(l))),
        s.request() == (LoadRequest::ReadHeaders { location: e.location }) && e.valid()
            ==> s.accepts(LoadAnswer::Entry(Ok(Ok(e)))),
        s.request() matches LoadRequest::ReadAt { len, .. } && d.len() == len ==> s.accepts(
            LoadAnswer::Data(Ok((d, n))),
        ),
        s.request() is ListAreas ==> s.accepts(LoadAnswer::Ends(ends)),
        s.request() is Clear || s.request() is MapTrampoline || s.request() is MapElf ==> s.accepts(
            LoadAnswer::Done(Ok(())),
        ),
{
}

/// What a load hands out is what it holds: the path of the program, or of its
/// interpreter once that is known, and the bias for what is mapped.
pub proof fn law_load_asks(l: &ProgramLoad, a: LoadAction)
    requires
        call_ensures(ProgramLoad::action, (l,), a),
    ensures
        l.phase is Resolve ==> (a matches LoadAction::Resolve { path } && path@ == l.path@),
        l.phase is ResolveInterp ==> (l.interp matches Some(p) ==> (a matches LoadAction::Resolve {
            path,
        } && path@ == p@)),
        l.phase matches LoadPhase::MapProgram { index, bias } ==> (a matches LoadAction::MapElf {
            index: i,
            bias: b,
        } && i == index && b == bias),
        l.phase matches LoadPhase::MapInterp { bias } ==> (a matches LoadAction::MapElf {
            index: i,
            bias: b,
        } && i == 0 && b == bias),
{
    assert(a@ == l.state(Seq::empty()).request());
}

} // verus!
