//! Mapping a program's segments into a user address space.

use vstd::prelude::*;
use crate::arch::Arch;
use crate::auxv::{find_start, start_address};
use crate::elf::{image_base, load_base, ProgramHeader, SegmentType};
use crate::error::{Fault, KernelError};
use crate::image::{ElfCacheEntry, ElfImage};
use crate::paging::{
    law_segment_flags,
    mapping_flags,
    page_round_up,
    round_up,
    segment_flags,
    MappingFlags,
    PAGE_SIZE,
};

verus! {

/// A private mapping of a part of a program file.
#[derive(Clone, Copy, PartialEq, Eq, Structural, Debug)]
pub struct SegmentMapping {
    /// Where the mapped pages start.
    pub page: usize,
    /// The size of the mapped pages.
    pub size: usize,
    pub flags: MappingFlags,
    /// Where the segment starts, within the first page.
    pub start: usize,
    /// The file offset of the byte at `start`.
    pub file_start: u64,
    /// The file offset at which the part ends; zeros follow.
    pub file_end: u64,
}

/// The mapping of a segment of a file that is loaded at `base`: the pages that
/// the segment touches. A segment must have the same offset within a page in
/// memory and in the file.
pub open spec fn segment_mapping(p: ProgramHeader, base: usize) -> Result<SegmentMapping, Fault> {
    let start = (p.virtual_addr as usize) + base;
    let pad = start % PAGE_SIZE as int;
    if start > usize::MAX {
        Err(Fault::Overflow)
    } else if pad != (p.offset as usize) % PAGE_SIZE {
        Err(Fault::SegmentOffset)
    } else if (p.mem_size as usize) + pad + PAGE_SIZE > usize::MAX || p.offset + p.file_size
        > u64::MAX {
        Err(Fault::Overflow)
    } else {
        Ok(
            SegmentMapping {
                page: (start - pad) as usize,
                size: round_up((p.mem_size as usize) + pad, PAGE_SIZE as int) as usize,
                flags: segment_flags(p.flags),
                start: start as usize,
                file_start: p.offset,
                file_end: (p.offset + p.file_size) as u64,
            },
        )
    }
}

/// The mapping of a segment covers the segment's memory with whole pages, and
/// with no page that the segment does not touch. (An empty segment that starts
/// within a page touches that page.)
pub proof fn law_segment_covered(p: ProgramHeader, base: usize)
    requires
        segment_mapping(p, base) is Ok,
    ensures
        ({
            let m = segment_mapping(p, base)->Ok_0;
            let start = (p.virtual_addr as usize) + base;
            let end = start + (p.mem_size as usize);
            &&& m.page as int % PAGE_SIZE as int == 0
            &&& m.size as int % PAGE_SIZE as int == 0
            &&& m.page <= start < m.page + PAGE_SIZE
            &&& end <= m.page + m.size < end + PAGE_SIZE
            &&& m.start == start
            &&& (m.start - m.page) == (m.file_start as usize) % PAGE_SIZE
            &&& m.file_end - m.file_start == p.file_size
        }),
{
    let start = (p.virtual_addr as usize) + base;
    let pad = start % PAGE_SIZE as int;
    let n = (p.mem_size as usize) + pad;
    assert(round_up(n, 4096) == (n + 4095) / 4096 * 4096);
}

/// The mapping of a segment.
fn make_mapping(p: &ProgramHeader, base: usize) -> (r: Result<SegmentMapping, Fault>)
    ensures
        r == segment_mapping(*p, base),
{
    let start = match (p.virtual_addr as usize).checked_add(base) {
        Some(a) => a,
        None => return Err(Fault::Overflow),
    };
    let pad = ax_memory_addr::align_offset_4k(start);
    if pad != p.offset as usize % PAGE_SIZE {
        return Err(Fault::SegmentOffset);
    }
    let mem_size = p.mem_size as usize;
    if mem_size > usize::MAX - pad || p.offset > u64::MAX - p.file_size {
        return Err(Fault::Overflow);
    }
    let size = match page_round_up(mem_size + pad) {
        Some(n) => n,
        None => return Err(Fault::Overflow),
    };
    Ok(
        SegmentMapping {
            page: ax_memory_addr::align_down_4k(start),
            size,
            flags: mapping_flags(p.flags),
            start,
            file_start: p.offset,
            file_end: p.offset + p.file_size,
        },
    )
}

/// What the mapping of a program waits for.
#[derive(Clone, Copy, PartialEq, Eq, Debug)]
pub enum MapPhase {
    /// That a segment is mapped.
    MapSegment { index: usize, mapping: SegmentMapping },
    /// That a segment's pages are there to be written.
    Populate { index: usize, mapping: SegmentMapping },
    /// That the program is relocated.
    Relocate,
    /// Nothing: the mapping is over.
    Finished { result: Result<(), KernelError> },
}

/// What is to be done next.
#[derive(Clone, Copy, PartialEq, Eq, Debug)]
pub enum MapAction {
    /// Map a segment.
    MapSegment { mapping: SegmentMapping },
    /// Make pages present.
    Populate { start: usize, size: usize, flags: MappingFlags },
    /// Relocate the program at `base`.
    Relocate { base: usize },
    /// Stop, with this result: the entry point of the program, or why there is
    /// none, if the program is mapped.
    Finish { result: Result<Result<usize, Fault>, KernelError> },
}

/// The state of the mapping of a program, as a value of the specification.
pub ghost struct MapState {
    pub arch: Arch,
    pub bias: usize,
    pub image: ElfImage,
    pub phase: MapPhase,
}

/// The index of the first loaded segment, from `i` on; the number of segments
/// if there is none.
pub open spec fn next_load(ph: Seq<ProgramHeader>, i: int) -> int
    decreases ph.len() - i,
{
    if i >= ph.len() || ph[i].kind == SegmentType::Load {
        i
    } else {
        next_load(ph, i + 1)
    }
}

impl MapState {
    /// The address that the program is loaded at.
    pub open spec fn base(self) -> usize {
        load_base(self.image.header(), self.bias)
    }

    /// Whether the program is relocated: it is a 64-bit shared object.
    pub open spec fn relocated(self) -> bool {
        self.image.header().class64 && self.image.header().shared_object
    }

    /// What follows the segments that are mapped, from segment `i` on.
    pub open spec fn map_from(self, i: int) -> Result<MapPhase, Fault> {
        let ph = self.image.ph();
        let k = next_load(ph, i);
        if k >= ph.len() {
            self.populate_from(0)
        } else {
            match segment_mapping(ph[k], self.base()) {
                Ok(mapping) => Ok(MapPhase::MapSegment { index: k as usize, mapping }),
                Err(f) => Err(f),
            }
        }
    }

    /// What follows the segments whose pages are present, from segment `i` on.
    /// Only a program that is relocated on RISC-V needs its pages.
    pub open spec fn populate_from(self, i: int) -> Result<MapPhase, Fault> {
        let ph = self.image.ph();
        let k = next_load(ph, i);
        if !self.relocated() {
            Ok(MapPhase::Finished { result: Ok(()) })
        } else if self.arch != Arch::Riscv64 || k >= ph.len() {
            Ok(MapPhase::Relocate)
        } else {
            match segment_mapping(ph[k], self.bias) {
                Ok(mapping) => Ok(MapPhase::Populate { index: k as usize, mapping }),
                Err(f) => Err(f),
            }
        }
    }

    /// The phase after the outcome `r` of an action.
    pub open spec fn after(self, r: Result<(), KernelError>) -> Result<MapPhase, Fault> {
        match r {
            Err(e) => Ok(MapPhase::Finished { result: Err(e) }),
            Ok(_) => match self.phase {
                MapPhase::MapSegment { index, .. } => self.map_from(index + 1),
                MapPhase::Populate { index, .. } => self.populate_from(index + 1),
                MapPhase::Relocate => Ok(MapPhase::Finished { result: Ok(()) }),
                MapPhase::Finished { .. } => Ok(self.phase),
            },
        }
    }

    /// The action that the state asks for.
    pub open spec fn action(self) -> MapAction {
        match self.phase {
            MapPhase::MapSegment { mapping, .. } => MapAction::MapSegment { mapping },
            MapPhase::Populate { mapping, .. } => MapAction::Populate {
                start: mapping.page,
                size: mapping.size,
                flags: mapping.flags,
            },
            MapPhase::Relocate => MapAction::Relocate { base: self.bias },
            MapPhase::Finished { result: Ok(_) } => MapAction::Finish {
                result: Ok(start_address(self.image, self.bias)),
            },
            MapPhase::Finished { result: Err(e) } => MapAction::Finish { result: Err(e) },
        }
    }

    /// Whether the current segment is one of the program's.
    pub open spec fn wf(self) -> bool {
        match self.phase {
            MapPhase::MapSegment { index, .. } | MapPhase::Populate { index, .. } => index
                < self.image.ph().len(),
            _ => true,
        }
    }
}

/// The mapping of a program into a user address space.
pub struct MapElf {
    arch: Arch,
    bias: usize,
    base: usize,
    relocated: bool,
    start: Result<usize, Fault>,
    ph: Vec<ProgramHeader>,
    phase: MapPhase,
    image: Ghost<ElfImage>,
}

impl View for MapElf {
    type V = MapState;

    closed spec fn view(&self) -> MapState {
        MapState { arch: self.arch, bias: self.bias, image: self.image@, phase: self.phase }
    }
}

impl MapElf {
    /// Whether what the mapping keeps of the program is the program's.
    pub closed spec fn wf(self) -> bool {
        &&& self.ph@ == self.image@.ph()
        &&& self.base == load_base(self.image@.header(), self.bias)
        &&& self.relocated == self@.relocated()
        &&& self.start == start_address(self.image@, self.bias)
        &&& self@.wf()
    }

    /// The first loaded segment from `i` on.
    fn find_load(&self, i: usize) -> (r: usize)
        requires
            i <= self.ph@.len(),
        ensures
            r == next_load(self.ph@, i as int),
            i <= r <= self.ph@.len(),
    {
        let mut k: usize = i;
        while k < self.ph.len() && self.ph[k].kind != SegmentType::Load
            invariant
                i <= k <= self.ph@.len(),
                next_load(self.ph@, i as int) == next_load(self.ph@, k as int),
            decreases self.ph@.len() - k,
        {
            k = k + 1;
        }
        k
    }

    /// What follows the segments whose pages are present.
    fn populate_from(&self, i: usize) -> (r: Result<MapPhase, Fault>)
        requires
            self.ph@ == self.image@.ph(),
            self.relocated == self@.relocated(),
            i <= self.ph@.len(),
        ensures
            r == self@.populate_from(i as int),
            r matches Ok(MapPhase::Populate { index, .. }) ==> index < self.ph@.len(),
            !(r matches Ok(MapPhase::MapSegment { .. })),
    {
        if !self.relocated {
            return Ok(MapPhase::Finished { result: Ok(()) });
        }
        let k = self.find_load(i);
        if self.arch != Arch::Riscv64 || k >= self.ph.len() {
            return Ok(MapPhase::Relocate);
        }
        match make_mapping(&self.ph[k], self.bias) {
            Ok(mapping) => Ok(MapPhase::Populate { index: k, mapping }),
            Err(f) => Err(f),
        }
    }

    /// What follows the segments that are mapped.
    fn map_from(&self, i: usize) -> (r: Result<MapPhase, Fault>)
        requires
            self.ph@ == self.image@.ph(),
            self.base == load_base(self.image@.header(), self.bias),
            self.relocated == self@.relocated(),
            i <= self.ph@.len(),
        ensures
            r == self@.map_from(i as int),
            r matches Ok(MapPhase::MapSegment { index, .. }) ==> index < self.ph@.len(),
            r matches Ok(MapPhase::Populate { index, .. }) ==> index < self.ph@.len(),
    {
        let k = self.find_load(i);
        if k >= self.ph.len() {
            return self.populate_from(0);
        }
        match make_mapping(&self.ph[k], self.base) {
            Ok(mapping) => Ok(MapPhase::MapSegment { index: k, mapping }),
            Err(f) => Err(f),
        }
    }

    /// The entry point of the program that is mapped: that of its header,
    /// shifted by the address that its segments are mapped at.
    pub fn entry_point(&self) -> (r: Result<usize, Fault>)
        requires
            self.wf(),
        ensures
            r == start_address(self@.image, self@.bias),
    {
        self.start
    }

    /// What is to be done next.
    pub fn action(&self) -> (r: MapAction)
        requires
            self.wf(),
        ensures
            r == self@.action(),
    {
        match self.phase {
            MapPhase::MapSegment { mapping, .. } => MapAction::MapSegment { mapping },
            MapPhase::Populate { mapping, .. } => MapAction::Populate {
                start: mapping.page,
                size: mapping.size,
                flags: mapping.flags,
            },
            MapPhase::Relocate => MapAction::Relocate { base: self.bias },
            MapPhase::Finished { result: Ok(_) } => MapAction::Finish { result: Ok(self.start) },
            MapPhase::Finished { result: Err(e) } => MapAction::Finish { result: Err(e) },
        }
    }

    /// Takes note of the outcome of the action that was asked for.
    pub fn step(&mut self, outcome: Result<(), KernelError>) -> (r: Result<(), Fault>)
        requires
            old(self).wf(),
        ensures
            final(self).wf(),
            match old(self)@.after(outcome) {
                Ok(phase) => r == Ok::<(), Fault>(()) && final(self)@ == (MapState {
                    phase,
                    ..old(self)@
                }),
                Err(f) => r == Err::<(), Fault>(f) && final(self)@ == old(self)@,
            },
    {
        assert(self.ph@.len() == self.ph.len());
        let next = match outcome {
            Err(e) => Ok(MapPhase::Finished { result: Err(e) }),
            Ok(_) => match self.phase {
                MapPhase::MapSegment { index, .. } => self.map_from(index + 1),
                MapPhase::Populate { index, .. } => self.populate_from(index + 1),
                MapPhase::Relocate => Ok(MapPhase::Finished { result: Ok(()) }),
                MapPhase::Finished { .. } => Ok(self.phase),
            },
        };
        match next {
            Ok(phase) => {
                self.phase = phase;
                Ok(())
            },
            Err(f) => Err(f),
        }
    }
}

/// Starts the mapping of a program; a shared object is loaded at `bias`. When
/// the program is mapped, the mapping gives its entry point.
pub fn map_elf(arch: Arch, bias: usize, entry: &ElfCacheEntry) -> (r: Result<MapElf, Fault>)
    requires
        entry.wf(),
    ensures
        ({
            let s = MapState {
                arch,
                bias,
                image: entry@,
                phase: MapPhase::Finished { result: Ok(()) },
            };
            match s.map_from(0) {
                Ok(phase) => r matches Ok(m) && m.wf() && m@ == (MapState { phase, ..s }),
                Err(f) => r == Err::<MapElf, Fault>(f),
            }
        }),
{
    let ph = copy_headers(&entry.ph);
    let relocated = entry.header.class64 && entry.header.shared_object;
    let image = Ghost(entry@);
    let start = find_start(entry, bias);
    let base = match image_base(entry.data.as_slice(), entry.table.as_slice(), bias) {
        Some(base) => base,
        None => {
            let phase = MapPhase::Finished { result: Err(KernelError::InvalidData) };
            return Ok(MapElf { arch, bias, base: bias, relocated, start, ph, phase, image });
        },
    };
    let phase = MapPhase::Finished { result: Ok(()) };
    let mut m = MapElf { arch, bias, base, relocated, start, ph, phase, image };
    match m.map_from(0) {
        Ok(phase) => {
            m.phase = phase;
            Ok(m)
        },
        Err(f) => Err(f),
    }
}

/// A copy of the program headers.
pub fn copy_headers(ph: &Vec<ProgramHeader>) -> (r: Vec<ProgramHeader>)
    ensures
        r@ == ph@,
{
    vstd::slice::slice_to_vec(ph.as_slice())
}

// ---------- What the mapping of a whole program does ----------

/// The actions that `s` asks for within `fuel` steps, where every action
/// succeeds, and the phase that this ends in.
pub open spec fn run(s: MapState, fuel: nat) -> (Seq<MapAction>, MapPhase)
    decreases fuel,
{
    if fuel == 0 || s.phase is Finished {
        (Seq::empty(), s.phase)
    } else {
        match s.after(Ok(())) {
            Err(_) => (Seq::empty(), s.phase),
            Ok(phase) => {
                let (w, e) = run(MapState { phase, ..s }, (fuel - 1) as nat);
                (seq![s.action()] + w, e)
            },
        }
    }
}

/// The mappings of the loaded segments from `i` on, in the order of the program
/// headers.
pub open spec fn load_mappings(ph: Seq<ProgramHeader>, base: usize, i: int) -> Seq<SegmentMapping>
    decreases ph.len() - i,
{
    if i >= ph.len() {
        Seq::empty()
    } else if ph[i].kind == SegmentType::Load {
        seq![segment_mapping(ph[i], base)->Ok_0] + load_mappings(ph, base, i + 1)
    } else {
        load_mappings(ph, base, i + 1)
    }
}

/// Whether every loaded segment has a mapping.
pub open spec fn mappable(ph: Seq<ProgramHeader>, base: usize) -> bool {
    forall|i: int|
        0 <= i < ph.len() && (#[trigger] ph[i]).kind == SegmentType::Load ==> segment_mapping(
            ph[i],
            base,
        ) is Ok
}

/// The actions that map the given parts of a file.
pub open spec fn map_actions(ms: Seq<SegmentMapping>) -> Seq<MapAction> {
    ms.map_values(|mapping: SegmentMapping| MapAction::MapSegment { mapping })
}

/// The actions that make the pages of the given mappings present.
pub open spec fn populate_actions(ms: Seq<SegmentMapping>) -> Seq<MapAction> {
    ms.map_values(
        |m: SegmentMapping|
            MapAction::Populate { start: m.page, size: m.size, flags: m.flags },
    )
}

/// What follows the mapping of the segments: for a program that is relocated,
/// its pages are made present on RISC-V, and then it is relocated.
pub open spec fn relocation_actions(s: MapState, i: int) -> Seq<MapAction> {
    let reloc = seq![MapAction::Relocate { base: s.bias }];
    if !s.relocated() {
        Seq::empty()
    } else if s.arch == Arch::Riscv64 {
        populate_actions(load_mappings(s.image.ph(), s.bias, i)) + reloc
    } else {
        reloc
    }
}

/// Whether a mapping in phase `p` asks for the actions `o` and then succeeds.
pub open spec fn completes(s: MapState, p: Result<MapPhase, Fault>, o: Seq<MapAction>) -> bool {
    p is Ok && exists|n: nat|
        #[trigger] run(MapState { phase: p->Ok_0, ..s }, n) == (
            o,
            MapPhase::Finished { result: Ok(()) },
        )
}

proof fn lemma_complete_step(s: MapState, p: MapPhase, q: Result<MapPhase, Fault>, o: Seq<MapAction>)
    requires
        !(p is Finished),
        (MapState { phase: p, ..s }).after(Ok(())) == q,
        completes(s, q, o),
    ensures
        completes(s, Ok(p), seq![(MapState { phase: p, ..s }).action()] + o),
{
    let n = choose|n: nat|
        #[trigger] run(MapState { phase: q->Ok_0, ..s }, n) == (
            o,
            MapPhase::Finished { result: Ok(()) },
        );
    let t = MapState { phase: p, ..s };
    assert(MapState { phase: q->Ok_0, ..t } == MapState { phase: q->Ok_0, ..s });
    assert(run(t, n + 1) == (seq![t.action()] + o, MapPhase::Finished { result: Ok(()) }));
}

proof fn lemma_finished(s: MapState)
    ensures
        completes(s, Ok((MapPhase::Finished { result: Ok(()) })), Seq::empty()),
{
    let t = MapState { phase: MapPhase::Finished { result: Ok(()) }, ..s };
    assert(run(t, 0) == (Seq::<MapAction>::empty(), t.phase));
}

proof fn lemma_next_load(ph: Seq<ProgramHeader>, base: usize, i: int)
    requires
        0 <= i <= ph.len(),
    ensures
        i <= next_load(ph, i) <= ph.len(),
        load_mappings(ph, base, i) == load_mappings(ph, base, next_load(ph, i)),
        next_load(ph, i) < ph.len() ==> ph[next_load(ph, i)].kind == SegmentType::Load,
    decreases ph.len() - i,
{
    if i < ph.len() && ph[i].kind != SegmentType::Load {
        lemma_next_load(ph, base, i + 1);
    }
}

proof fn lemma_populate(s: MapState, i: int)
    requires
        0 <= i <= s.image.ph().len() <= usize::MAX,
        mappable(s.image.ph(), s.bias),
    ensures
        completes(s, s.populate_from(i), relocation_actions(s, i)),
    decreases s.image.ph().len() - i,
{
    let ph = s.image.ph();
    let k = next_load(ph, i);
    lemma_next_load(ph, s.bias, i);
    lemma_finished(s);
    let reloc = seq![MapAction::Relocate { base: s.bias }];
    if s.relocated() {
        lemma_complete_step(
            s,
            MapPhase::Relocate,
            Ok(MapPhase::Finished { result: Ok(()) }),
            Seq::empty(),
        );
        assert(reloc + Seq::<MapAction>::empty() =~= reloc);
        if s.arch == Arch::Riscv64 {
            if k >= ph.len() {
                assert(relocation_actions(s, i) =~= reloc);
            } else {
                let mapping = segment_mapping(ph[k], s.bias)->Ok_0;
                let p = MapPhase::Populate { index: k as usize, mapping };
                lemma_populate(s, k + 1);
                lemma_complete_step(s, p, s.populate_from(k + 1), relocation_actions(s, k + 1));
                let a = MapAction::Populate {
                    start: mapping.page,
                    size: mapping.size,
                    flags: mapping.flags,
                };
                assert(relocation_actions(s, i) =~= seq![a] + relocation_actions(s, k + 1));
            }
        }
    }
}

proof fn lemma_map(s: MapState, i: int)
    requires
        0 <= i <= s.image.ph().len() <= usize::MAX,
        mappable(s.image.ph(), s.base()),
    ensures
        completes(
            s,
            s.map_from(i),
            map_actions(load_mappings(s.image.ph(), s.base(), i)) + relocation_actions(s, 0),
        ),
    decreases s.image.ph().len() - i,
{
    let ph = s.image.ph();
    let k = next_load(ph, i);
    lemma_next_load(ph, s.base(), i);
    let rest = relocation_actions(s, 0);
    if k >= ph.len() {
        if s.relocated() {
            lemma_populate(s, 0);
        } else {
            lemma_finished(s);
        }
        assert(map_actions(load_mappings(ph, s.base(), i)) + rest =~= rest);
    } else {
        let mapping = segment_mapping(ph[k], s.base())->Ok_0;
        let p = MapPhase::MapSegment { index: k as usize, mapping };
        let tail = map_actions(load_mappings(ph, s.base(), k + 1)) + rest;
        lemma_map(s, k + 1);
        lemma_complete_step(s, p, s.map_from(k + 1), tail);
        assert(map_actions(load_mappings(ph, s.base(), i)) + rest =~= seq![
            MapAction::MapSegment { mapping },
        ] + tail);
    }
}

/// A program is mapped segment by segment, in the order of its program headers,
/// each loaded segment once; a shared object of the 64-bit class is then
/// relocated, on RISC-V after its pages are made present. This is so where no
/// action fails and every loaded segment has a mapping.
pub proof fn law_mapping(s: MapState)
    requires
        s.image.ph().len() <= usize::MAX,
        mappable(s.image.ph(), s.base()),
        s.map_from(0) == Ok::<MapPhase, Fault>(s.phase),
    ensures
        exists|n: nat|
            #[trigger] run(s, n) == (
                map_actions(load_mappings(s.image.ph(), s.base(), 0)) + relocation_actions(s, 0),
                MapPhase::Finished { result: Ok(()) },
            ),
{
    lemma_map(s, 0);
    assert(MapState { phase: s.phase, ..s } == s);
}

/// The mapping of a segment takes its bytes from the segment's part of the file,
/// from the segment's offset on and as many as the segment has there, and starts
/// at the segment's address, shifted by the load address. It is a user mapping:
/// readable exactly if the segment's flags have the bit of value 4 or that of
/// value 2, writable exactly if they have the latter, and executable exactly if
/// they have the bit of value 1.
pub proof fn law_segment_mapping(p: ProgramHeader, base: usize)
    ensures
        segment_mapping(p, base) matches Ok(m) ==> {
            &&& m.file_start == p.offset
            &&& m.file_end == p.offset + p.file_size
            &&& m.start == (p.virtual_addr as usize) + base
            &&& m.flags.user
            &&& m.flags.read <==> p.flags / 4 % 2 == 1 || p.flags / 2 % 2 == 1
            &&& m.flags.write <==> p.flags / 2 % 2 == 1
            &&& m.flags.execute <==> p.flags % 2 == 1
        },
{
    law_segment_flags(p.flags);
}

/// A segment has a mapping exactly if its address and its offset in the file are
/// equally far from the start of a page, and its bounds, with a page to spare,
/// fit in a word. The two faults tell which of these does not hold.
pub proof fn law_segment_refused(p: ProgramHeader, base: usize)
    ensures
        ({
            let start = (p.virtual_addr as usize) + base;
            let even = start % 4096 == (p.offset as usize) % 4096;
            let fits = (p.mem_size as usize) + start % 4096 + 4096 <= usize::MAX && p.offset
                + p.file_size <= u64::MAX;
            &&& segment_mapping(p, base) is Ok <==> start <= usize::MAX && even && fits
            &&& segment_mapping(p, base) == Err::<SegmentMapping, Fault>(Fault::SegmentOffset)
                <==> start <= usize::MAX && !even
            &&& segment_mapping(p, base) is Err && (start > usize::MAX || even)
                ==> segment_mapping(p, base) == Err::<SegmentMapping, Fault>(Fault::Overflow)
        }),
{
}

/// The mappings of the loaded segments, where `ph` is walked from its end.
proof fn lemma_load_mappings(ph: Seq<ProgramHeader>, base: usize, i: int)
    requires
        0 <= i <= ph.len(),
    ensures
        load_mappings(ph, base, i) == ph.skip(i).filter(
            |p: ProgramHeader| p.kind == SegmentType::Load,
        ).map_values(|p: ProgramHeader| segment_mapping(p, base)->Ok_0),
    decreases ph.len() - i,
{
    let load = |p: ProgramHeader| p.kind == SegmentType::Load;
    let map = |p: ProgramHeader| segment_mapping(p, base)->Ok_0;
    reveal(Seq::filter);
    if i < ph.len() {
        lemma_load_mappings(ph, base, i + 1);
        let one = seq![ph[i]];
        let rest = ph.skip(i + 1);
        assert(ph.skip(i) =~= one + rest);
        Seq::filter_distributes_over_add(one, rest, load);
        assert(one.drop_last() =~= Seq::empty());
        assert(one.drop_last().filter(load) =~= Seq::empty());
        if load(ph[i]) {
            assert(one.filter(load) =~= one);
            assert((one + rest.filter(load)).map_values(map) =~= seq![map(ph[i])] + rest.filter(
                load,
            ).map_values(map));
        } else {
            assert(one.filter(load) =~= Seq::empty());
            assert(Seq::empty() + rest.filter(load) =~= rest.filter(load));
        }
    } else {
        assert(ph.skip(i) =~= Seq::empty());
        assert(load_mappings(ph, base, i) =~= ph.skip(i).filter(load).map_values(map));
    }
}

/// All segments of the type `PT_LOAD` are mapped, in the order of the program
/// headers, each once, and no others; a shared object is shifted by the bias, and
/// another program is not. A 64-bit shared object is then relocated with its
/// bias, on RISC-V after the pages of all those segments are made present. This
/// is so where no action fails and every such segment has a mapping.
pub proof fn law_loaded_segments(s: MapState)
    requires
        s.image.ph().len() <= usize::MAX,
        forall|i: int|
            0 <= i < s.image.ph().len() && (#[trigger] s.image.ph()[i]).kind == SegmentType::Load
                ==> segment_mapping(
                s.image.ph()[i],
                if s.image.header().shared_object {
                    s.bias
                } else {
                    0
                },
            ) is Ok,
        s.map_from(0) == Ok::<MapPhase, Fault>(s.phase),
    ensures
        ({
            let h = s.image.header();
            let loads = s.image.ph().filter(|p: ProgramHeader| p.kind == SegmentType::Load);
            let base = if h.shared_object {
                s.bias
            } else {
                0
            };
            let ms = loads.map_values(|p: ProgramHeader| segment_mapping(p, base)->Ok_0);
            let mapped = ms.map_values(|mapping: SegmentMapping| MapAction::MapSegment { mapping });
            let present = ms.map_values(
                |m: SegmentMapping|
                    MapAction::Populate { start: m.page, size: m.size, flags: m.flags },
            );
            let moved = seq![MapAction::Relocate { base: s.bias }];
            exists|n: nat|
                #[trigger] run(s, n) == (
                    if !h.class64 || !h.shared_object {
                        mapped
                    } else if s.arch == Arch::Riscv64 {
                        mapped + present + moved
                    } else {
                        mapped + moved
                    },
                    MapPhase::Finished { result: Ok(()) },
                )
        }),
{
    let ph = s.image.ph();
    law_mapping(s);
    lemma_load_mappings(ph, s.base(), 0);
    lemma_load_mappings(ph, s.bias, 0);
    assert(ph.skip(0) =~= ph);
    let n = choose|n: nat|
        #[trigger] run(s, n) == (
            map_actions(load_mappings(ph, s.base(), 0)) + relocation_actions(s, 0),
            MapPhase::Finished { result: Ok(()) },
        );
    let h = s.image.header();
    let mapped = map_actions(load_mappings(ph, s.base(), 0));
    let present = populate_actions(load_mappings(ph, s.bias, 0));
    let moved = seq![MapAction::Relocate { base: s.bias }];
    if !h.class64 || !h.shared_object {
        assert(mapped + Seq::<MapAction>::empty() =~= mapped);
    } else if s.arch == Arch::Riscv64 {
        assert(mapped + (present + moved) =~= mapped + present + moved);
    }
    assert(run(s, n).1 == (MapPhase::Finished { result: Ok(()) }));
}

/// What fails ends the mapping of a program with its error, and a program that is
/// mapped starts at the entry point of its header, shifted by the bias if it is a
/// shared object.
pub proof fn law_mapping_ends(s: MapState, e: KernelError)
    ensures
        s.after(Err(e)) == Ok::<MapPhase, Fault>(MapPhase::Finished { result: Err(e) }),
        s.phase == (MapPhase::Finished { result: Err(e) }) ==> s.action() == (MapAction::Finish {
            result: Err(e),
        }),
        s.phase == (MapPhase::Finished { result: Ok(()) }) ==> {
            let start = (s.image.header().entry as usize) + (if s.image.header().shared_object {
                s.bias as int
            } else {
                0
            });
            if start <= usize::MAX {
                s.action() == (MapAction::Finish { result: Ok(Ok(start as usize)) })
            } else {
                s.action() == (MapAction::Finish { result: Ok(Err(Fault::Overflow)) })
            }
        },
{
}

/// The mapping of a program that has loaded segments begins with the first of them,
/// shifted by the bias if the program is a shared object; what is wrong with that
/// segment is a fault.
pub proof fn law_mapping_begins(
    arch: Arch,
    bias: usize,
    entry: &ElfCacheEntry,
    k: int,
    r: Result<MapElf, Fault>,
)
    requires
        call_ensures(map_elf, (arch, bias, entry), r),
        0 <= k < entry@.ph().len(),
        entry@.ph()[k].kind == SegmentType::Load,
        forall|j: int| 0 <= j < k ==> (#[trigger] entry@.ph()[j]).kind != SegmentType::Load,
    ensures
        ({
            let base = if entry@.header().shared_object {
                bias
            } else {
                0
            };
            match segment_mapping(entry@.ph()[k], base) {
                Ok(mapping) => r matches Ok(m) && m@.action() == (MapAction::MapSegment { mapping })
                    && m@.image == entry@ && m@.arch == arch && m@.bias == bias,
                Err(f) => r == Err::<MapElf, Fault>(f),
            }
        }),
{
    let ph = entry@.ph();
    lemma_first_load(ph, 0, k);
}

proof fn lemma_first_load(ph: Seq<ProgramHeader>, i: int, k: int)
    requires
        0 <= i <= k < ph.len(),
        ph[k].kind == SegmentType::Load,
        forall|j: int| i <= j < k ==> (#[trigger] ph[j]).kind != SegmentType::Load,
    ensures
        next_load(ph, i) == k,
    decreases k - i,
{
    if i < k {
        assert(ph[i].kind != SegmentType::Load);
        lemma_first_load(ph, i + 1, k);
    }
}

} // verus!
