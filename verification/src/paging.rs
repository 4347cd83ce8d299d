//! Pages, mapping permissions, and the fixed parts of a user address space.

use vstd::prelude::*;
use crate::arch::Arch;
use crate::elf::{flags_execute, flags_read, flags_write};
use crate::error::KernelError;

verus! {

/// The size of a page.
pub const PAGE_SIZE: usize = 4096;

/// How far apart the interpreter's load address candidates lie.
pub const INTERP_ALIGN: usize = 0x10_0000;

/// Where the parts of a user address space lie.
#[derive(Clone, Copy, PartialEq, Eq, Structural, Debug)]
pub struct Layout {
    pub user_space_base: usize,
    pub user_space_size: usize,
    pub user_stack_top: usize,
    pub user_stack_size: usize,
    pub user_heap_base: usize,
    pub user_heap_size: usize,
    pub signal_trampoline: usize,
    pub cq_trampoline: usize,
}

/// What user code may do with a mapping.
#[derive(Clone, Copy, PartialEq, Eq, Structural, Debug)]
pub struct MappingFlags {
    pub read: bool,
    pub write: bool,
    pub execute: bool,
    pub user: bool,
}

/// A range of addresses.
#[derive(Clone, Copy, PartialEq, Eq, Structural, Debug)]
pub struct Region {
    pub start: usize,
    pub size: usize,
}

/// A mapping of consecutive physical memory.
#[derive(Clone, Copy, PartialEq, Eq, Structural, Debug)]
pub struct LinearMapping {
    pub vaddr: usize,
    pub paddr: usize,
    pub size: usize,
    pub flags: MappingFlags,
}

/// `ax_memory_addr::align_down_4k`. Trusted: the greatest multiple of the page
/// size that is no greater than the address.
pub assume_specification[ ax_memory_addr::align_down_4k ](addr: usize) -> (r: usize)
    ensures
        r == addr - addr % PAGE_SIZE,
;

/// `ax_memory_addr::align_offset_4k`. Trusted: the address's offset within
/// its page.
pub assume_specification[ ax_memory_addr::align_offset_4k ](addr: usize) -> (r: usize)
    ensures
        r == addr % PAGE_SIZE,
;

/// `ax_memory_addr::align_up_4k`. Trusted: the least multiple of the page size
/// that is no less than the address.
pub assume_specification[ ax_memory_addr::align_up_4k ](addr: usize) -> (r: usize)
    requires
        addr + PAGE_SIZE <= usize::MAX,
    ensures
        r == round_up(addr as int, PAGE_SIZE as int),
;

/// The least multiple of `unit` that is no less than `n`.
pub open spec fn round_up(n: int, unit: int) -> int {
    (n + unit - 1) / unit * unit
}

/// The permissions of a segment with the given flags. What can be written can
/// be read too.
pub open spec fn segment_flags(flags: u32) -> MappingFlags {
    MappingFlags {
        read: flags & 4 == 4 || flags & 2 == 2,
        write: flags & 2 == 2,
        execute: flags & 1 == 1,
        user: true,
    }
}

/// The permissions of a segment with the given flags.
pub fn mapping_flags(flags: u32) -> (r: MappingFlags)
    ensures
        r == segment_flags(flags),
{
    let mut r = MappingFlags { read: false, write: false, execute: false, user: true };
    if flags_read(flags) {
        r.read = true;
    }
    if flags_write(flags) {
        r.write = true;
        r.read = true;
    }
    if flags_execute(flags) {
        r.execute = true;
    }
    r
}

/// Rounds a size up to whole pages. `None` if a page more than the size does
/// not fit in a word.
pub fn page_round_up(n: usize) -> (r: Option<usize>)
    ensures
        r == (if n + PAGE_SIZE <= usize::MAX {
            Some(round_up(n as int, PAGE_SIZE as int) as usize)
        } else {
            None::<usize>
        }),
        r matches Some(v) ==> v == round_up(n as int, PAGE_SIZE as int),
{
    if n > usize::MAX - PAGE_SIZE {
        return None;
    }
    let m: usize = n + (PAGE_SIZE - 1);
    assert(m & !4095usize == m / 4096 * 4096) by (bit_vector);
    Some(m & !(PAGE_SIZE - 1))
}

/// The range of a new, empty user address space.
pub fn new_user_aspace_empty(layout: &Layout) -> (r: Region)
    ensures
        r == (Region { start: layout.user_space_base, size: layout.user_space_size }),
{
    Region { start: layout.user_space_base, size: layout.user_space_size }
}

/// Which part of the kernel's page table a new user page table takes over:
/// all of the kernel's address space, unless the processor keeps a separate
/// page table for user space.
pub fn copy_from_kernel(arch: Arch, kernel: Region) -> (r: Option<Region>)
    ensures
        r == (if arch == Arch::Aarch64 || arch == Arch::Loongarch64 {
            None::<Region>
        } else {
            Some(kernel)
        }),
{
    match arch {
        Arch::Aarch64 | Arch::Loongarch64 => None,
        Arch::X86_64 | Arch::Riscv64 => Some(kernel),
    }
}

/// A page of kernel code that user code can read and run.
pub open spec fn trampoline(vaddr: usize, paddr: usize) -> LinearMapping {
    LinearMapping {
        vaddr,
        paddr,
        size: PAGE_SIZE,
        flags: MappingFlags { read: true, write: false, execute: true, user: true },
    }
}

/// What the mapping of the trampolines waits for.
#[derive(Clone, Copy, PartialEq, Eq, Debug)]
pub enum TrampolinePhase {
    /// That the signal trampoline is mapped.
    Signal,
    /// That the completion trampoline is mapped.
    Cq,
    /// Nothing: the mapping is over.
    Finished { result: Result<(), KernelError> },
}

/// The mapping of the trampolines into a user address space.
#[derive(Clone, Copy, PartialEq, Eq, Debug)]
pub struct TrampolineMap {
    pub signal: LinearMapping,
    pub cq: LinearMapping,
    pub phase: TrampolinePhase,
}

/// Begins to map the signal trampoline and the completion trampoline into a
/// user address space. The arguments are the physical addresses of the two.
pub fn map_trampoline(layout: &Layout, signal_paddr: usize, cq_paddr: usize) -> (r: TrampolineMap)
    ensures
        r == (TrampolineMap {
            signal: trampoline(layout.signal_trampoline, signal_paddr),
            cq: trampoline(layout.cq_trampoline, cq_paddr),
            phase: TrampolinePhase::Signal,
        }),
{
    let flags = MappingFlags { read: true, write: false, execute: true, user: true };
    TrampolineMap {
        signal: LinearMapping {
            vaddr: layout.signal_trampoline,
            paddr: signal_paddr,
            size: PAGE_SIZE,
            flags,
        },
        cq: LinearMapping { vaddr: layout.cq_trampoline, paddr: cq_paddr, size: PAGE_SIZE, flags },
        phase: TrampolinePhase::Signal,
    }
}

impl TrampolineMap {
    /// The mapping that is to be made next, if there is one.
    pub open spec fn next(self) -> Option<LinearMapping> {
        match self.phase {
            TrampolinePhase::Signal => Some(self.signal),
            TrampolinePhase::Cq => Some(self.cq),
            TrampolinePhase::Finished { .. } => None,
        }
    }

    /// The state after a mapping had the given outcome. The first failure ends
    /// it all, with its error.
    pub open spec fn after(self, outcome: Result<(), KernelError>) -> TrampolineMap {
        let phase = match (self.phase, outcome) {
            (TrampolinePhase::Finished { .. }, _) => self.phase,
            (_, Err(e)) => TrampolinePhase::Finished { result: Err(e) },
            (TrampolinePhase::Signal, Ok(_)) => TrampolinePhase::Cq,
            (TrampolinePhase::Cq, Ok(_)) => TrampolinePhase::Finished { result: Ok(()) },
        };
        TrampolineMap { phase, ..self }
    }

    /// The mapping that is to be made next, if there is one.
    pub fn action(&self) -> (r: Option<LinearMapping>)
        ensures
            r == self.next(),
    {
        match self.phase {
            TrampolinePhase::Signal => Some(self.signal),
            TrampolinePhase::Cq => Some(self.cq),
            TrampolinePhase::Finished { .. } => None,
        }
    }

    /// Takes note of the outcome of a mapping.
    pub fn step(&mut self, outcome: Result<(), KernelError>)
        ensures
            *final(self) == old(self).after(outcome),
    {
        self.phase = match (self.phase, outcome) {
            (TrampolinePhase::Finished { result }, _) => TrampolinePhase::Finished { result },
            (_, Err(e)) => TrampolinePhase::Finished { result: Err(e) },
            (TrampolinePhase::Signal, Ok(_)) => TrampolinePhase::Cq,
            (TrampolinePhase::Cq, Ok(_)) => TrampolinePhase::Finished { result: Ok(()) },
        };
    }
}

/// The mappings that are made from `m` on, up to the first that fails, where
/// `outcomes` are those of the mappings in turn; and the result.
pub open spec fn trampolines_made(m: TrampolineMap, outcomes: Seq<Result<(), KernelError>>) -> (
    Seq<LinearMapping>,
    TrampolinePhase,
)
    decreases outcomes.len(),
{
    match m.next() {
        Some(mapping) if outcomes.len() > 0 => {
            let (made, phase) = trampolines_made(m.after(outcomes[0]), outcomes.drop_first());
            if outcomes[0] is Ok {
                (seq![mapping] + made, phase)
            } else {
                (made, phase)
            }
        },
        _ => (Seq::empty(), m.phase),
    }
}

/// Both trampolines are mapped, the one for signals first, and nothing else. If
/// the first mapping fails, the second is not made, and the error is that of the
/// first; if the second fails, the first stays, and the error is that of the
/// second.
pub proof fn law_trampolines(
    layout: Layout,
    signal_paddr: usize,
    cq_paddr: usize,
    first: Result<(), KernelError>,
    second: Result<(), KernelError>,
)
    ensures
        ({
            let signal = trampoline(layout.signal_trampoline, signal_paddr);
            let cq = trampoline(layout.cq_trampoline, cq_paddr);
            let m = TrampolineMap { signal, cq, phase: TrampolinePhase::Signal };
            let (made, end) = trampolines_made(m, seq![first, second]);
            match (first, second) {
                (Err(e), _) => made == Seq::<LinearMapping>::empty() && end
                    == (TrampolinePhase::Finished { result: Err(e) }),
                (Ok(_), Err(e)) => made == seq![signal] && end == (TrampolinePhase::Finished {
                    result: Err(e),
                }),
                (Ok(_), Ok(_)) => made == seq![signal, cq] && end == (TrampolinePhase::Finished {
                    result: Ok(()),
                }),
            }
        }),
{
    reveal_with_fuel(trampolines_made, 3);
    let signal = trampoline(layout.signal_trampoline, signal_paddr);
    let cq = trampoline(layout.cq_trampoline, cq_paddr);
    let m = TrampolineMap { signal, cq, phase: TrampolinePhase::Signal };
    let both = seq![first, second];
    assert(both.drop_first() =~= seq![second]);
    assert(both.drop_first().drop_first() =~= Seq::empty());
    assert(seq![signal] + Seq::<LinearMapping>::empty() =~= seq![signal]);
    assert(seq![cq] + Seq::<LinearMapping>::empty() =~= seq![cq]);
    assert(seq![signal] + seq![cq] =~= seq![signal, cq]);
}

/// The greatest of the numbers, and of `least`.
pub open spec fn greatest(s: Seq<usize>, least: usize) -> usize
    decreases s.len(),
{
    if s.len() == 0 {
        least
    } else {
        let m = greatest(s.drop_last(), least);
        if s.last() > m {
            s.last()
        } else {
            m
        }
    }
}

/// Where the interpreter is loaded, given where the areas of the address space
/// end: at the first aligned address behind all of them. An address space
/// without areas counts as ending where it begins. `None` if that address does
/// not fit in a word.
pub fn interp_base(layout: &Layout, area_ends: &Vec<usize>) -> (r: Option<usize>)
    ensures
        r == (if interp_floor(*layout, area_ends@) + INTERP_ALIGN <= usize::MAX {
            Some(round_up(interp_floor(*layout, area_ends@) as int, INTERP_ALIGN as int) as usize)
        } else {
            None::<usize>
        }),
        r matches Some(b) ==> {
            &&& b as int % INTERP_ALIGN as int == 0
            &&& forall|i: int| 0 <= i < area_ends@.len() ==> #[trigger] area_ends@[i] <= b
        },
{
    let mut end: usize = if area_ends.len() == 0 { layout.user_space_base } else { 0 };
    let ghost least = end;
    let mut i: usize = 0;
    while i < area_ends.len()
        invariant
            i <= area_ends.len(),
            end == greatest(area_ends@.take(i as int), least),
            forall|j: int| 0 <= j < i ==> #[trigger] area_ends@[j] <= end,
        decreases area_ends.len() - i,
    {
        assert(area_ends@.take(i + 1).drop_last() =~= area_ends@.take(i as int));
        if area_ends[i] > end {
            end = area_ends[i];
        }
        i = i + 1;
    }
    assert(area_ends@.take(i as int) =~= area_ends@);
    if end > usize::MAX - INTERP_ALIGN {
        return None;
    }
    let m: usize = end + (INTERP_ALIGN - 1);
    assert(m & !0xF_FFFFusize == m / 0x10_0000 * 0x10_0000) by (bit_vector);
    Some(m & !(INTERP_ALIGN - 1))
}

/// The address that the interpreter is loaded behind.
pub open spec fn interp_floor(layout: Layout, area_ends: Seq<usize>) -> usize {
    if area_ends.len() == 0 {
        layout.user_space_base
    } else {
        greatest(area_ends, 0)
    }
}

// ---------- Laws ----------

/// Rounding up gives the one multiple of the unit that is no less than the
/// number and less than a unit above it.
pub proof fn law_round_up(n: int, unit: int)
    requires
        unit > 0,
    ensures
        round_up(n, unit) % unit == 0,
        n <= round_up(n, unit) < n + unit,
{
    let q = (n + unit - 1) / unit;
    vstd::arithmetic::div_mod::lemma_fundamental_div_mod(n + unit - 1, unit);
    vstd::arithmetic::div_mod::lemma_mod_bound(n + unit - 1, unit);
    vstd::arithmetic::mul::lemma_mul_is_commutative(q, unit);
    vstd::arithmetic::div_mod::lemma_mod_multiples_basic(q, unit);
}

/// A segment's mapping is a user mapping, and it can be written exactly if the
/// segment's flags have the bit of value 2, run exactly if they have the bit of
/// value 1, and read exactly if they have the bit of value 4 or that of value 2.
pub proof fn law_segment_flags(flags: u32)
    ensures
        segment_flags(flags).user,
        segment_flags(flags).write <==> flags / 2 % 2 == 1,
        segment_flags(flags).execute <==> flags % 2 == 1,
        segment_flags(flags).read <==> flags / 4 % 2 == 1 || flags / 2 % 2 == 1,
{
    assert((flags & 4 == 4) == (flags / 4 % 2 == 1)) by (bit_vector);
    assert((flags & 2 == 2) == (flags / 2 % 2 == 1)) by (bit_vector);
    assert((flags & 1 == 1) == (flags % 2 == 1)) by (bit_vector);
}

/// A trampoline is one page, at the addresses that are given, which user code can
/// read and run and cannot write.
pub proof fn law_trampoline(vaddr: usize, paddr: usize)
    ensures
        ({
            let m = trampoline(vaddr, paddr);
            &&& m.vaddr == vaddr
            &&& m.paddr == paddr
            &&& m.size == 4096
            &&& m.flags.read && m.flags.execute && m.flags.user && !m.flags.write
        }),
{
}

/// The first failure ends the mapping of the trampolines with its error, and what
/// is asked for then stays as it is.
pub proof fn law_trampoline_failure(m: TrampolineMap, e: KernelError, later: Result<(), KernelError>)
    requires
        !(m.phase is Finished),
    ensures
        m.next() is Some,
        m.after(Err(e)).phase == (TrampolinePhase::Finished { result: Err(e) }),
        m.after(Err(e)).next() is None,
        m.after(Err(e)).after(later) == m.after(Err(e)),
{
}

proof fn lemma_greatest(s: Seq<usize>, least: usize)
    ensures
        greatest(s, least) >= least,
        forall|i: int| 0 <= i < s.len() ==> #[trigger] s[i] <= greatest(s, least),
        greatest(s, least) == least || s.contains(greatest(s, least)),
    decreases s.len(),
{
    if s.len() > 0 {
        let t = s.drop_last();
        lemma_greatest(t, least);
        let m = greatest(t, least);
        assert forall|i: int| 0 <= i < s.len() implies #[trigger] s[i] <= greatest(s, least) by {
            if i < s.len() - 1 {
                assert(t[i] == s[i]);
            }
        }
        if s.last() > m {
            assert(s[s.len() - 1] == s.last());
        } else if t.contains(m) {
            let k = choose|k: int| 0 <= k < t.len() && t[k] == m;
            assert(s[k] == m);
        }
    }
}

/// The interpreter goes behind the area that ends last; with no areas, behind the
/// start of the user address space.
pub proof fn law_interp_floor(layout: Layout, ends: Seq<usize>)
    ensures
        ends.len() == 0 ==> interp_floor(layout, ends) == layout.user_space_base,
        ends.len() > 0 ==> ends.contains(interp_floor(layout, ends)),
        forall|i: int| 0 <= i < ends.len() ==> #[trigger] ends[i] <= interp_floor(layout, ends),
{
    lemma_greatest(ends, 0);
    if ends.len() > 0 && greatest(ends, 0) == 0 {
        assert(ends[0] <= greatest(ends, 0));
        assert(ends[0] == 0);
    }
}

/// A new user address space has the range that the layout gives for it.
pub proof fn law_user_space(layout: &Layout, r: Region)
    requires
        call_ensures(new_user_aspace_empty, (layout,), r),
    ensures
        r.start == layout.user_space_base,
        r.size == layout.user_space_size,
{
}

/// A new user page table takes over the kernel's part, all of it and nothing else,
/// exactly on the processors that have one page table for both: x86_64 and
/// RISC-V.
pub proof fn law_kernel_part(arch: Arch, kernel: Region, r: Option<Region>)
    requires
        call_ensures(copy_from_kernel, (arch, kernel), r),
    ensures
        r is Some <==> arch == Arch::X86_64 || arch == Arch::Riscv64,
        r matches Some(part) ==> part == kernel,
{
}

/// The trampolines are mapped where the layout has them, from the physical
/// addresses that are given, the one for signals first.
pub proof fn law_trampolines_placed(
    layout: &Layout,
    signal_paddr: usize,
    cq_paddr: usize,
    m: TrampolineMap,
)
    requires
        call_ensures(map_trampoline, (layout, signal_paddr, cq_paddr), m),
    ensures
        m.next() == Some(m.signal),
        m.signal.vaddr == layout.signal_trampoline && m.signal.paddr == signal_paddr,
        m.cq.vaddr == layout.cq_trampoline && m.cq.paddr == cq_paddr,
        m.after(Ok(())).next() == Some(m.cq),
        m.after(Ok(())).after(Ok(())).next() is None,
        m.after(Ok(())).after(Ok(())).phase == (TrampolinePhase::Finished { result: Ok(()) }),
{
}

} // verus!
