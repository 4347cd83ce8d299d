//! Relocation of position-independent programs that have no interpreter.
//!
//! A program names its relocations in two tables, which its dynamic section
//! points to. Each entry that is understood leads to one 64-bit write into the
//! program's memory. Reading the file and writing the memory is up to a
//! driver: `Relocator` says what to do next.

use vstd::prelude::*;
use crate::arch::Arch;
use crate::bytes::{
    checked_sum,
    law_little_endian,
    law_twos_complement,
    le64,
    read_u64,
    signed,
    to_signed,
    to_unsigned,
    unsigned,
};
use crate::elf::{ProgramHeader, SegmentType};
use crate::error::{Fault, KernelError};

verus! {

/// The size of an entry of a relocation table, and of a symbol table.
pub const ENTRY_SIZE: usize = 24;

// ---------- Addresses and file offsets ----------

/// Whether `vaddr` lies in the part of the loaded segment `p` that comes from
/// the file.
pub open spec fn in_segment(p: ProgramHeader, vaddr: usize) -> bool {
    &&& p.kind == SegmentType::Load
    &&& (p.virtual_addr as usize) <= vaddr
    &&& vaddr < (p.virtual_addr as usize) + (p.file_size as usize)
}

/// The index of the first segment, from `i` on, that holds `vaddr`; the number
/// of segments if none does.
pub open spec fn first_segment(ph: Seq<ProgramHeader>, vaddr: usize, i: int) -> int
    decreases ph.len() - i,
{
    if i >= ph.len() || in_segment(ph[i], vaddr) {
        i
    } else {
        first_segment(ph, vaddr, i + 1)
    }
}

/// Whether the bounds of the segment that holds `vaddr`, and the file offset
/// of `vaddr`, fit in a word.
pub open spec fn lookup_fits(vaddr: u64, ph: Seq<ProgramHeader>) -> bool {
    let a = vaddr as usize;
    let k = first_segment(ph, a, 0);
    k < ph.len() ==> {
        &&& (ph[k].virtual_addr as usize) + (ph[k].file_size as usize) <= usize::MAX
        &&& (ph[k].offset as usize) + (a - (ph[k].virtual_addr as usize)) <= usize::MAX
    }
}

/// The file offset of the byte that is loaded at `vaddr`.
pub open spec fn file_offset(vaddr: u64, ph: Seq<ProgramHeader>) -> Option<usize> {
    let a = vaddr as usize;
    let k = first_segment(ph, a, 0);
    if k < ph.len() {
        Some(((ph[k].offset as usize) + (a - (ph[k].virtual_addr as usize))) as usize)
    } else {
        None
    }
}

/// Finds the first segment that holds `vaddr`.
fn find_segment(vaddr: usize, ph: &[ProgramHeader]) -> (r: usize)
    ensures
        r == first_segment(ph@, vaddr, 0),
        r <= ph@.len(),
        r < ph@.len() ==> in_segment(ph@[r as int], vaddr),
{
    let mut i: usize = 0;
    while i < ph.len()
        invariant
            i <= ph@.len(),
            first_segment(ph@, vaddr, 0) == first_segment(ph@, vaddr, i as int),
        decreases ph@.len() - i,
    {
        let p = ph[i];
        let start = p.virtual_addr as usize;
        if p.kind == SegmentType::Load && vaddr >= start && vaddr - start < p.file_size as usize {
            return i;
        }
        i = i + 1;
    }
    i
}

/// Converts a virtual address to a file offset, by the first loaded segment
/// whose file part holds the address. `None` if there is no such segment.
pub fn vaddr_to_file_offset(vaddr: u64, ph: &[ProgramHeader]) -> (r: Option<usize>)
    requires
        lookup_fits(vaddr, ph@),
    ensures
        r == file_offset(vaddr, ph@),
{
    let a = vaddr as usize;
    let k = find_segment(a, ph);
    if k < ph.len() {
        Some(ph[k].offset as usize + (a - ph[k].virtual_addr as usize))
    } else {
        None
    }
}

/// Converts a virtual address to a file offset where the computation stays
/// within a word; `None` where it does not.
pub fn checked_file_offset(vaddr: u64, ph: &[ProgramHeader]) -> (r: Option<Option<usize>>)
    ensures
        r == (if lookup_fits(vaddr, ph@) {
            Some(file_offset(vaddr, ph@))
        } else {
            None::<Option<usize>>
        }),
{
    let a = vaddr as usize;
    let k = find_segment(a, ph);
    if k < ph.len() {
        let start = ph[k].virtual_addr as usize;
        if checked_sum(start, ph[k].file_size as usize).is_none()
            || checked_sum(ph[k].offset as usize, a - start).is_none() {
            return None;
        }
    }
    Some(vaddr_to_file_offset(vaddr, ph))
}

// ---------- The dynamic section ----------

/// What the dynamic section says about relocations. What it does not mention
/// is zero.
#[derive(Clone, Copy, PartialEq, Eq, Structural, Debug)]
pub struct DynamicInfo {
    pub rela_addr: u64,
    pub rela_size: u64,
    pub jmprel_addr: u64,
    pub jmprel_size: u64,
    pub symtab_addr: u64,
    pub strtab_addr: u64,
}

/// The tag of entry `i` of a dynamic section.
pub open spec fn dyn_tag(d: Seq<u8>, i: int) -> int {
    le64(d, 16 * i)
}

/// The value of entry `i` of a dynamic section.
pub open spec fn dyn_value(d: Seq<u8>, i: int) -> int {
    le64(d, 16 * i + 8)
}

/// The index, from `i` on, of the entry that ends the section: the first with
/// tag zero, or the number of whole entries.
pub open spec fn dyn_end(d: Seq<u8>, i: int) -> int
    decreases d.len() / 16 - i,
{
    if i >= d.len() / 16 || dyn_tag(d, i) == 0 {
        i
    } else {
        dyn_end(d, i + 1)
    }
}

/// The value of the last entry with the given tag among the first `n`; zero if
/// there is none.
pub open spec fn last_value(d: Seq<u8>, tag: int, n: int) -> u64
    decreases n,
{
    if n <= 0 {
        0
    } else if dyn_tag(d, n - 1) == tag {
        dyn_value(d, n - 1) as u64
    } else {
        last_value(d, tag, n - 1)
    }
}

/// What the first `n` entries of a dynamic section say.
pub open spec fn dynamic_prefix(d: Seq<u8>, n: int) -> DynamicInfo {
    DynamicInfo {
        rela_addr: last_value(d, 7, n),
        rela_size: last_value(d, 8, n),
        jmprel_addr: last_value(d, 23, n),
        jmprel_size: last_value(d, 2, n),
        symtab_addr: last_value(d, 6, n),
        strtab_addr: last_value(d, 5, n),
    }
}

/// What a dynamic section says.
pub open spec fn dynamic_info(d: Seq<u8>) -> DynamicInfo {
    dynamic_prefix(d, dyn_end(d, 0))
}

/// Reads a dynamic section.
pub fn parse_dynamic(data: &[u8]) -> (r: DynamicInfo)
    ensures
        r == dynamic_info(data@),
{
    let n = data.len() / 16;
    let mut r = DynamicInfo {
        rela_addr: 0,
        rela_size: 0,
        jmprel_addr: 0,
        jmprel_size: 0,
        symtab_addr: 0,
        strtab_addr: 0,
    };
    let mut i: usize = 0;
    while i < n
        invariant
            n == data@.len() / 16,
            data@.len() == data.len(),
            i <= n,
            r == dynamic_prefix(data@, i as int),
            dyn_end(data@, 0) == dyn_end(data@, i as int),
        decreases n - i,
    {
        let tag = read_u64(data, 16 * i);
        let value = read_u64(data, 16 * i + 8);
        if tag == 0 {
            return r;
        }
        match tag {
            7 => r.rela_addr = value,
            8 => r.rela_size = value,
            23 => r.jmprel_addr = value,
            2 => r.jmprel_size = value,
            6 => r.symtab_addr = value,
            5 => r.strtab_addr = value,
            _ => {},
        }
        i = i + 1;
    }
    r
}

// ---------- Relocation entries ----------

/// One of the two relocation tables.
#[derive(Clone, Copy, PartialEq, Eq, Structural, Debug)]
pub enum Table {
    /// The table that `DT_RELA` points to.
    Dyn,
    /// The table that `DT_JMPREL` points to.
    Plt,
}

/// An entry of a relocation table.
#[derive(Clone, Copy, PartialEq, Eq, Structural, Debug)]
pub struct Rela {
    pub offset: usize,
    pub info: u64,
    pub addend: i64,
}

/// The entry whose bytes are `d`.
pub open spec fn rela_of(d: Seq<u8>) -> Rela {
    Rela {
        offset: (le64(d, 0) as u64) as usize,
        info: le64(d, 8) as u64,
        addend: signed(le64(d, 16)) as i64,
    }
}

/// What an entry asks for.
#[derive(Clone, Copy, PartialEq, Eq, Structural, Debug)]
pub enum RelocKind {
    /// The load address plus the addend.
    Relative,
    /// The value of a symbol.
    Symbol,
    /// Nothing that is done here.
    Skipped,
}

/// What an entry of the given table asks for.
pub open spec fn reloc_kind(table: Table, info: u64) -> RelocKind {
    let ty = info % 0x1_0000_0000;
    if table == Table::Dyn && ty == 3 {
        RelocKind::Relative
    } else if (table == Table::Dyn && ty == 2) || (table == Table::Plt && ty == 5) {
        RelocKind::Symbol
    } else {
        RelocKind::Skipped
    }
}

/// The file offset of the symbol that an entry names, in a symbol table at
/// `symtab`.
pub open spec fn symbol_offset(symtab: usize, info: u64) -> int {
    symtab + (info / 0x1_0000_0000) * ENTRY_SIZE
}

/// A write of `value` to the address `target`.
#[derive(Clone, Copy, PartialEq, Eq, Structural, Debug)]
pub struct Patch {
    pub target: usize,
    pub value: u64,
}

/// Whether `v` is in the range of 64-bit signed numbers.
pub open spec fn fits_i64(v: int) -> bool {
    i64::MIN <= v <= i64::MAX
}

/// The write that a relative entry asks for. `None` if a sum overflows.
pub open spec fn relative_patch(base: usize, r: Rela) -> Option<Patch> {
    let v = signed(base as int) + r.addend;
    if base + r.offset <= usize::MAX && fits_i64(v) {
        Some(Patch { target: (base + r.offset) as usize, value: unsigned(v) as u64 })
    } else {
        None
    }
}

/// The write that an entry asks for that names a symbol with the non-zero
/// value `st`. `None` if a sum overflows.
pub open spec fn symbol_patch(base: usize, table: Table, r: Rela, st: u64) -> Option<Patch> {
    let target = base + r.offset;
    if target > usize::MAX {
        None
    } else if table == Table::Dyn {
        let v = signed(base as int) + signed(st as int);
        if fits_i64(v) && fits_i64(v + r.addend) {
            Some(Patch { target: target as usize, value: unsigned(v + r.addend) as u64 })
        } else {
            None
        }
    } else if base + st <= u64::MAX {
        Some(Patch { target: target as usize, value: (base + st) as u64 })
    } else {
        None
    }
}

/// Reads an entry of a relocation table.
fn read_rela(d: &[u8]) -> (r: Rela)
    requires
        d@.len() == ENTRY_SIZE,
    ensures
        r == rela_of(d@),
{
    Rela {
        offset: read_u64(d, 0) as usize,
        info: read_u64(d, 8),
        addend: to_signed(read_u64(d, 16)),
    }
}

/// What an entry of the given table asks for.
fn kind_of(table: Table, info: u64) -> (r: RelocKind)
    ensures
        r == reloc_kind(table, info),
{
    let ty = info % 0x1_0000_0000;
    match table {
        Table::Dyn => if ty == 3 {
            RelocKind::Relative
        } else if ty == 2 {
            RelocKind::Symbol
        } else {
            RelocKind::Skipped
        },
        Table::Plt => if ty == 5 {
            RelocKind::Symbol
        } else {
            RelocKind::Skipped
        },
    }
}

/// The write that a relative entry asks for.
fn make_relative(base: usize, r: Rela) -> (p: Option<Patch>)
    ensures
        p == relative_patch(base, r),
{
    let target = base.checked_add(r.offset)?;
    let v = to_signed(base as u64).checked_add(r.addend)?;
    Some(Patch { target, value: to_unsigned(v) })
}

/// The write that an entry asks for that names a symbol.
fn make_symbolic(base: usize, table: Table, r: Rela, st: u64) -> (p: Option<Patch>)
    ensures
        p == symbol_patch(base, table, r, st),
{
    let target = base.checked_add(r.offset)?;
    match table {
        Table::Dyn => {
            let v = to_signed(base as u64).checked_add(to_signed(st))?;
            let w = v.checked_add(r.addend)?;
            Some(Patch { target, value: to_unsigned(w) })
        },
        Table::Plt => {
            let value = (base as u64).checked_add(st)?;
            Some(Patch { target, value })
        },
    }
}

// ---------- The relocation of a program, step by step ----------

/// A position in a relocation table: entry `index` of `count`, in a table that
/// starts at `start` in the file.
#[derive(Clone, Copy, PartialEq, Eq, Structural, Debug)]
pub struct Cursor {
    pub table: Table,
    pub start: usize,
    pub index: usize,
    pub count: usize,
}

impl Cursor {
    /// The file offset of the entry.
    pub open spec fn at(self) -> int {
        self.start + self.index * ENTRY_SIZE
    }

    /// The position of the following entry.
    pub open spec fn next(self) -> Cursor {
        Cursor { index: (self.index + 1) as usize, ..self }
    }
}

/// What a relocation waits for.
#[derive(Clone, Copy, PartialEq, Eq, Debug)]
pub enum RelocPhase {
    /// The length of the file, to test that it holds the dynamic section.
    DynLen { offset: usize, size: usize },
    /// The dynamic section.
    DynData { offset: usize, size: usize },
    /// The length of the file, to test that it holds an entry.
    EntryLen { cursor: Cursor },
    /// An entry.
    EntryData { cursor: Cursor },
    /// The length of the file, to test that it holds a symbol.
    SymbolLen { cursor: Cursor, rela: Rela, at: usize },
    /// A symbol.
    SymbolData { cursor: Cursor, rela: Rela, at: usize },
    /// The outcome of a write.
    Writing { cursor: Cursor, patch: Patch },
    /// Nothing: the relocation is over.
    Finished { result: Result<(), KernelError> },
}

/// What is to be done next.
#[derive(Clone, Copy, PartialEq, Eq, Debug)]
pub enum RelocAction {
    /// Ask for the length of the file.
    FileLen,
    /// Read `len` bytes of the file at `offset`; what lies behind the end of
    /// the file reads as zeros.
    Read { offset: u64, len: usize },
    /// Write to the program's memory.
    Write { patch: Patch },
    /// Stop, with this result.
    Finish { result: Result<(), KernelError> },
}

/// The outcome of an action.
pub enum RelocInput {
    /// The length of the file, if it could be told.
    Len(Option<u64>),
    /// The bytes that were read.
    Data(Result<Vec<u8>, KernelError>),
    /// Whether a write succeeded.
    Written(Result<(), KernelError>),
}

/// The outcome of an action, as a value of the specification.
pub ghost enum RelocAnswer {
    Len(Option<u64>),
    Data(Result<Seq<u8>, KernelError>),
    Written(Result<(), KernelError>),
}

impl View for RelocInput {
    type V = RelocAnswer;

    open spec fn view(&self) -> RelocAnswer {
        match *self {
            RelocInput::Len(n) => RelocAnswer::Len(n),
            RelocInput::Data(Ok(d)) => RelocAnswer::Data(Ok(d@)),
            RelocInput::Data(Err(e)) => RelocAnswer::Data(Err(e)),
            RelocInput::Written(r) => RelocAnswer::Written(r),
        }
    }
}

/// The state of a relocation, as a value of the specification.
pub ghost struct RelocState {
    pub base: usize,
    pub ph: Seq<ProgramHeader>,
    pub info: DynamicInfo,
    pub phase: RelocPhase,
}

/// The phase that ends a relocation.
pub open spec fn finished(result: Result<(), KernelError>) -> RelocPhase {
    RelocPhase::Finished { result }
}

/// Whether the file is too short to hold the bytes up to `end`. A file whose
/// length cannot be told counts as empty.
pub open spec fn beyond(end: int, len: Option<u64>) -> bool {
    end > (if len is Some { len->0 as usize } else { 0 })
}

/// The index of the first dynamic segment, from `i` on; the number of segments
/// if there is none.
pub open spec fn first_dynamic(ph: Seq<ProgramHeader>, i: int) -> int
    decreases ph.len() - i,
{
    if i >= ph.len() || ph[i].kind == SegmentType::Dynamic {
        i
    } else {
        first_dynamic(ph, i + 1)
    }
}

/// The phase in which a relocation starts. Programs are relocated on RISC-V
/// only, and only if they have a dynamic segment.
pub open spec fn first_phase(arch: Arch, ph: Seq<ProgramHeader>) -> RelocPhase {
    let k = first_dynamic(ph, 0);
    if arch != Arch::Riscv64 || k >= ph.len() {
        finished(Ok(()))
    } else {
        RelocPhase::DynLen { offset: ph[k].offset as usize, size: ph[k].file_size as usize }
    }
}

impl RelocState {
    /// What follows the last entry of a table. `None` here and below: an
    /// address does not fit in a word.
    pub open spec fn leave(self, table: Table) -> Option<RelocPhase> {
        match table {
            Table::Dyn => self.enter(
                Table::Plt,
                self.info.jmprel_addr,
                self.info.jmprel_size,
                Some(finished(Ok(()))),
            ),
            Table::Plt => Some(finished(Ok(()))),
        }
    }

    /// What precedes the first entry of a table at address `addr`, of `size`
    /// bytes; `after` is what follows the table's last entry.
    pub open spec fn enter(
        self,
        table: Table,
        addr: u64,
        size: u64,
        after: Option<RelocPhase>,
    ) -> Option<RelocPhase> {
        if addr == 0 || size == 0 {
            after
        } else if !lookup_fits(addr, self.ph) {
            None
        } else {
            match file_offset(addr, self.ph) {
                None => Some(finished(Err(KernelError::InvalidData))),
                Some(start) => {
                    let count = (size as usize) / ENTRY_SIZE;
                    visit(Cursor { table, start, index: 0, count }, after)
                },
            }
        }
    }

    /// What follows the dynamic section.
    pub open spec fn enter_tables(self) -> Option<RelocPhase> {
        self.enter(
            Table::Dyn,
            self.info.rela_addr,
            self.info.rela_size,
            self.leave(Table::Dyn),
        )
    }

    /// What follows an entry.
    pub open spec fn advance(self, c: Cursor) -> Option<RelocPhase> {
        visit(c.next(), self.leave(c.table))
    }

    /// What follows the bytes `d` of an entry.
    pub open spec fn entry_read(self, c: Cursor, d: Seq<u8>) -> Option<RelocPhase> {
        let rela = rela_of(d);
        match reloc_kind(c.table, rela.info) {
            RelocKind::Relative => match relative_patch(self.base, rela) {
                Some(patch) => Some(RelocPhase::Writing { cursor: c, patch }),
                None => None,
            },
            RelocKind::Symbol => if self.info.symtab_addr == 0 || self.info.strtab_addr == 0 {
                self.advance(c)
            } else if !lookup_fits(self.info.symtab_addr, self.ph) {
                None
            } else {
                match file_offset(self.info.symtab_addr, self.ph) {
                    None => Some(finished(Err(KernelError::InvalidData))),
                    Some(symtab) => {
                        let at = symbol_offset(symtab, rela.info);
                        if at + ENTRY_SIZE <= usize::MAX {
                            Some(RelocPhase::SymbolLen { cursor: c, rela, at: at as usize })
                        } else {
                            None
                        }
                    },
                }
            },
            RelocKind::Skipped => self.advance(c),
        }
    }

    /// What follows the bytes `d` of a symbol.
    pub open spec fn symbol_read(self, c: Cursor, rela: Rela, d: Seq<u8>) -> Option<RelocPhase> {
        let st = le64(d, 8) as u64;
        if st == 0 {
            self.advance(c)
        } else {
            match symbol_patch(self.base, c.table, rela, st) {
                Some(patch) => Some(RelocPhase::Writing { cursor: c, patch }),
                None => None,
            }
        }
    }

    /// Whether `a` is an outcome of the action that the state asks for.
    pub open spec fn accepts(self, a: RelocAnswer) -> bool {
        match self.phase {
            RelocPhase::DynLen { .. } => a is Len,
            RelocPhase::DynData { size, .. } => match a {
                RelocAnswer::Data(Ok(d)) => d.len() == size,
                RelocAnswer::Data(Err(_)) => true,
                _ => false,
            },
            RelocPhase::EntryLen { .. } | RelocPhase::SymbolLen { .. } => a is Len,
            RelocPhase::EntryData { .. } | RelocPhase::SymbolData { .. } => match a {
                RelocAnswer::Data(Ok(d)) => d.len() == ENTRY_SIZE,
                RelocAnswer::Data(Err(_)) => true,
                _ => false,
            },
            RelocPhase::Writing { .. } => a is Written,
            RelocPhase::Finished { .. } => false,
        }
    }

    /// The state after the outcome `a`. `None` if an address does not fit in a
    /// word.
    pub open spec fn after(self, a: RelocAnswer) -> Option<RelocState> {
        match (self.phase, a) {
            (RelocPhase::DynLen { offset, size }, RelocAnswer::Len(n)) => if offset + size
                > usize::MAX {
                None
            } else if beyond(offset + size, n) {
                self.at(Some(finished(Err(KernelError::InvalidData))))
            } else {
                self.at(Some(RelocPhase::DynData { offset, size }))
            },
            (RelocPhase::DynData { .. }, RelocAnswer::Data(Ok(d))) => {
                let s = RelocState { info: dynamic_info(d), ..self };
                s.at(s.enter_tables())
            },
            (RelocPhase::EntryLen { cursor }, RelocAnswer::Len(n)) => if beyond(
                cursor.at() + ENTRY_SIZE,
                n,
            ) {
                self.at(self.leave(cursor.table))
            } else {
                self.at(Some(RelocPhase::EntryData { cursor }))
            },
            (RelocPhase::EntryData { cursor }, RelocAnswer::Data(Ok(d))) => self.at(
                self.entry_read(cursor, d),
            ),
            (RelocPhase::SymbolLen { cursor, rela, at }, RelocAnswer::Len(n)) => if beyond(
                at + ENTRY_SIZE,
                n,
            ) {
                self.at(self.advance(cursor))
            } else {
                self.at(Some(RelocPhase::SymbolData { cursor, rela, at }))
            },
            (RelocPhase::SymbolData { cursor, rela, .. }, RelocAnswer::Data(Ok(d))) => self.at(
                self.symbol_read(cursor, rela, d),
            ),
            (RelocPhase::Writing { cursor, .. }, RelocAnswer::Written(Ok(_))) => self.at(
                self.advance(cursor),
            ),
            (_, RelocAnswer::Data(Err(e))) => self.at(Some(finished(Err(e)))),
            (_, RelocAnswer::Written(Err(e))) => self.at(Some(finished(Err(e)))),
            _ => Some(self),
        }
    }

    /// The state with another phase.
    pub open spec fn at(self, phase: Option<RelocPhase>) -> Option<RelocState> {
        match phase {
            Some(p) => Some(RelocState { phase: p, ..self }),
            None => None,
        }
    }

    /// The action that the state asks for.
    pub open spec fn action(self) -> RelocAction {
        match self.phase {
            RelocPhase::DynLen { .. } => RelocAction::FileLen,
            RelocPhase::DynData { offset, size } => RelocAction::Read {
                offset: offset as u64,
                len: size,
            },
            RelocPhase::EntryLen { .. } => RelocAction::FileLen,
            RelocPhase::EntryData { cursor } => RelocAction::Read {
                offset: cursor.at() as u64,
                len: ENTRY_SIZE,
            },
            RelocPhase::SymbolLen { .. } => RelocAction::FileLen,
            RelocPhase::SymbolData { at, .. } => RelocAction::Read {
                offset: at as u64,
                len: ENTRY_SIZE,
            },
            RelocPhase::Writing { patch, .. } => RelocAction::Write { patch },
            RelocPhase::Finished { result } => RelocAction::Finish { result },
        }
    }

    /// Whether the current entry is one of its table, and its offset, and that
    /// of a symbol, leave room for an entry.
    pub open spec fn wf(self) -> bool {
        match self.phase {
            RelocPhase::EntryLen { cursor } | RelocPhase::EntryData { cursor } => cursor_ok(cursor),
            RelocPhase::SymbolLen { cursor, at, .. } | RelocPhase::SymbolData { cursor, at, .. }
                => cursor_ok(cursor) && at + ENTRY_SIZE <= usize::MAX,
            RelocPhase::Writing { cursor, .. } => cursor_ok(cursor),
            _ => true,
        }
    }
}

/// Whether the cursor is at an entry, and the entry ends within a word.
pub open spec fn cursor_ok(c: Cursor) -> bool {
    c.index < c.count && c.at() + ENTRY_SIZE <= usize::MAX
}

/// What precedes the entry at the cursor; `after` if the table ends there.
pub open spec fn visit(c: Cursor, after: Option<RelocPhase>) -> Option<RelocPhase> {
    if c.index >= c.count {
        after
    } else if c.at() + ENTRY_SIZE <= usize::MAX {
        Some(RelocPhase::EntryLen { cursor: c })
    } else {
        None
    }
}

/// The relocation of a program.
pub struct Relocator {
    pub base: usize,
    pub ph: Vec<ProgramHeader>,
    pub info: DynamicInfo,
    pub phase: RelocPhase,
}

impl View for Relocator {
    type V = RelocState;

    open spec fn view(&self) -> RelocState {
        RelocState { base: self.base, ph: self.ph@, info: self.info, phase: self.phase }
    }
}

/// What precedes the entry at the cursor, if the table does not end there:
/// `Some(None)` if it does.
fn visit_entry(c: Cursor) -> (r: Option<Option<RelocPhase>>)
    ensures
        r == (if c.index >= c.count {
            Some(None::<RelocPhase>)
        } else {
            match visit(c, None) {
                Some(p) => Some(Some(p)),
                None => None,
            }
        }),
{
    if c.index >= c.count {
        return Some(None);
    }
    let skip = c.index.checked_mul(ENTRY_SIZE)?;
    let at = c.start.checked_add(skip)?;
    let _end = at.checked_add(ENTRY_SIZE)?;
    Some(Some(RelocPhase::EntryLen { cursor: c }))
}

/// Starts the relocation of a program that is loaded at `base`.
pub fn apply_relocations(arch: Arch, base: usize, ph: Vec<ProgramHeader>) -> (r: Relocator)
    ensures
        r@.wf(),
        r@.base == base,
        r@.ph == ph@,
        r@.phase == first_phase(arch, ph@),
{
    let info = DynamicInfo {
        rela_addr: 0,
        rela_size: 0,
        jmprel_addr: 0,
        jmprel_size: 0,
        symtab_addr: 0,
        strtab_addr: 0,
    };
    let mut i: usize = 0;
    while i < ph.len() && ph[i].kind != SegmentType::Dynamic
        invariant
            i <= ph.len(),
            first_dynamic(ph@, 0) == first_dynamic(ph@, i as int),
        decreases ph.len() - i,
    {
        i = i + 1;
    }
    let phase = if i < ph.len() && arch == Arch::Riscv64 {
        RelocPhase::DynLen { offset: ph[i].offset as usize, size: ph[i].file_size as usize }
    } else {
        RelocPhase::Finished { result: Ok(()) }
    };
    Relocator { base, ph, info, phase }
}

impl Relocator {
    /// What is to be done next.
    pub fn action(&self) -> (r: RelocAction)
        requires
            self@.wf(),
        ensures
            r == self@.action(),
    {
        match self.phase {
            RelocPhase::DynLen { .. } => RelocAction::FileLen,
            RelocPhase::DynData { offset, size } => RelocAction::Read {
                offset: offset as u64,
                len: size,
            },
            RelocPhase::EntryLen { .. } => RelocAction::FileLen,
            RelocPhase::EntryData { cursor } => RelocAction::Read {
                offset: (cursor.start + cursor.index * ENTRY_SIZE) as u64,
                len: ENTRY_SIZE,
            },
            RelocPhase::SymbolLen { .. } => RelocAction::FileLen,
            RelocPhase::SymbolData { at, .. } => RelocAction::Read {
                offset: at as u64,
                len: ENTRY_SIZE,
            },
            RelocPhase::Writing { patch, .. } => RelocAction::Write { patch },
            RelocPhase::Finished { result } => RelocAction::Finish { result },
        }
    }

    /// What precedes the first entry of a table; `Some(None)` if there is no
    /// entry.
    fn enter_table(&self, table: Table, addr: u64, size: u64) -> (r: Option<Option<RelocPhase>>)
        ensures
            forall|after: Option<RelocPhase>| #[trigger]
                self@.enter(table, addr, size, after) == (match r {
                    None => None,
                    Some(None) => after,
                    Some(Some(p)) => Some(p),
                }),
    {
        if addr == 0 || size == 0 {
            return Some(None);
        }
        match checked_file_offset(addr, self.ph.as_slice())? {
            None => Some(Some(RelocPhase::Finished { result: Err(KernelError::InvalidData) })),
            Some(start) => {
                let count = size as usize / ENTRY_SIZE;
                visit_entry(Cursor { table, start, index: 0, count })
            },
        }
    }

    /// What follows the last entry of a table.
    fn leave(&self, table: Table) -> (r: Option<RelocPhase>)
        ensures
            r == self@.leave(table),
    {
        match table {
            Table::Dyn => {
                match self.enter_table(Table::Plt, self.info.jmprel_addr, self.info.jmprel_size)? {
                    Some(p) => Some(p),
                    None => Some(RelocPhase::Finished { result: Ok(()) }),
                }
            },
            Table::Plt => Some(RelocPhase::Finished { result: Ok(()) }),
        }
    }

    /// What follows the dynamic section.
    fn enter_tables(&self) -> (r: Option<RelocPhase>)
        ensures
            r == self@.enter_tables(),
    {
        match self.enter_table(Table::Dyn, self.info.rela_addr, self.info.rela_size)? {
            Some(p) => Some(p),
            None => self.leave(Table::Dyn),
        }
    }

    /// What follows an entry.
    fn advance(&self, c: Cursor) -> (r: Option<RelocPhase>)
        requires
            c.index < c.count,
        ensures
            r == self@.advance(c),
    {
        match visit_entry(Cursor { index: c.index + 1, ..c })? {
            Some(p) => Some(p),
            None => self.leave(c.table),
        }
    }

    /// What follows the bytes of an entry.
    fn entry_read(&self, c: Cursor, d: &[u8]) -> (r: Option<RelocPhase>)
        requires
            d@.len() == ENTRY_SIZE,
            c.index < c.count,
        ensures
            r == self@.entry_read(c, d@),
    {
        let rela = read_rela(d);
        match kind_of(c.table, rela.info) {
            RelocKind::Relative => {
                let patch = make_relative(self.base, rela)?;
                Some(RelocPhase::Writing { cursor: c, patch })
            },
            RelocKind::Symbol => {
                if self.info.symtab_addr == 0 || self.info.strtab_addr == 0 {
                    return self.advance(c);
                }
                match checked_file_offset(self.info.symtab_addr, self.ph.as_slice())? {
                    None => Some(RelocPhase::Finished { result: Err(KernelError::InvalidData) }),
                    Some(symtab) => {
                        let index = (rela.info / 0x1_0000_0000) as usize;
                        let skip = index.checked_mul(ENTRY_SIZE)?;
                        let at = symtab.checked_add(skip)?;
                        let _end = at.checked_add(ENTRY_SIZE)?;
                        Some(RelocPhase::SymbolLen { cursor: c, rela, at })
                    },
                }
            },
            RelocKind::Skipped => self.advance(c),
        }
    }

    /// What follows the bytes of a symbol.
    fn symbol_read(&self, c: Cursor, rela: Rela, d: &[u8]) -> (r: Option<RelocPhase>)
        requires
            d@.len() == ENTRY_SIZE,
            c.index < c.count,
        ensures
            r == self@.symbol_read(c, rela, d@),
    {
        let st = read_u64(d, 8);
        if st == 0 {
            return self.advance(c);
        }
        let patch = make_symbolic(self.base, c.table, rela, st)?;
        Some(RelocPhase::Writing { cursor: c, patch })
    }

    /// Takes note of the outcome of the action that was asked for. If an
    /// address does not fit in a word, says so and stays where it is.
    #[verifier::rlimit(30)]
    pub fn step(&mut self, input: RelocInput) -> (r: Result<(), Fault>)
        requires
            old(self)@.wf(),
            old(self)@.accepts(input@),
        ensures
            final(self)@.wf(),
            match old(self)@.after(input@) {
                Some(s) => r == Ok::<(), Fault>(()) && final(self)@ == s,
                None => r == Err::<(), Fault>(Fault::Overflow) && final(self)@ == old(self)@,
            },
    {
        let next = match (self.phase, input) {
            (RelocPhase::DynLen { offset, size }, RelocInput::Len(n)) => {
                match checked_sum(offset, size) {
                    None => None,
                    Some(end) => if is_beyond(end, n) {
                        Some(RelocPhase::Finished { result: Err(KernelError::InvalidData) })
                    } else {
                        Some(RelocPhase::DynData { offset, size })
                    },
                }
            },
            (RelocPhase::DynData { .. }, RelocInput::Data(Ok(d))) => {
                let info = self.info;
                self.info = parse_dynamic(d.as_slice());
                let next = self.enter_tables();
                if next.is_none() {
                    self.info = info;
                }
                next
            },
            (RelocPhase::EntryLen { cursor }, RelocInput::Len(n)) => {
                let end = cursor.start + cursor.index * ENTRY_SIZE + ENTRY_SIZE;
                if is_beyond(end, n) {
                    self.leave(cursor.table)
                } else {
                    Some(RelocPhase::EntryData { cursor })
                }
            },
            (RelocPhase::EntryData { cursor }, RelocInput::Data(Ok(d))) => {
                self.entry_read(cursor, d.as_slice())
            },
            (RelocPhase::SymbolLen { cursor, rela, at }, RelocInput::Len(n)) => {
                if is_beyond(at + ENTRY_SIZE, n) {
                    self.advance(cursor)
                } else {
                    Some(RelocPhase::SymbolData { cursor, rela, at })
                }
            },
            (RelocPhase::SymbolData { cursor, rela, .. }, RelocInput::Data(Ok(d))) => {
                self.symbol_read(cursor, rela, d.as_slice())
            },
            (RelocPhase::Writing { cursor, .. }, RelocInput::Written(Ok(_))) => self.advance(cursor),
            (_, RelocInput::Data(Err(e))) => Some(RelocPhase::Finished { result: Err(e) }),
            (_, RelocInput::Written(Err(e))) => Some(RelocPhase::Finished { result: Err(e) }),
            _ => Some(self.phase),
        };
        match next {
            Some(phase) => {
                self.phase = phase;
                Ok(())
            },
            None => Err(Fault::Overflow),
        }
    }
}

/// Whether the file is too short to hold the bytes up to `end`.
fn is_beyond(end: usize, len: Option<u64>) -> (r: bool)
    ensures
        r == beyond(end as int, len),
{
    match len {
        Some(n) => end > n as usize,
        None => end > 0,
    }
}

// ---------- What a whole relocation does ----------

/// The `len` bytes of the file `f` at `offset`, with zeros behind its end.
pub open spec fn file_read(f: Seq<u8>, offset: int, len: int) -> Seq<u8> {
    Seq::new(len as nat, |k: int| if offset + k < f.len() { f[offset + k] } else { 0u8 })
}

/// The outcome of the action that `s` asks for, where the file is `f` and
/// every write succeeds.
pub open spec fn answer(s: RelocState, f: Seq<u8>) -> RelocAnswer {
    match s.action() {
        RelocAction::FileLen => RelocAnswer::Len(Some(f.len() as u64)),
        RelocAction::Read { offset, len } => RelocAnswer::Data(
            Ok(file_read(f, offset as int, len as int)),
        ),
        _ => RelocAnswer::Written(Ok(())),
    }
}

/// The writes that `s` asks for within `fuel` steps, where the file is `f` and
/// every write succeeds, and the phase that this ends in.
pub open spec fn run(s: RelocState, f: Seq<u8>, fuel: nat) -> (Seq<Patch>, RelocPhase)
    decreases fuel,
{
    if fuel == 0 || s.phase is Finished {
        (Seq::empty(), s.phase)
    } else {
        match s.after(answer(s, f)) {
            None => (Seq::empty(), s.phase),
            Some(t) => {
                let (w, e) = run(t, f, (fuel - 1) as nat);
                match s.phase {
                    RelocPhase::Writing { patch, .. } => (seq![patch] + w, e),
                    _ => (w, e),
                }
            },
        }
    }
}

/// The writes of a relocation, in order, and its result.
pub ghost struct Outcome {
    pub patches: Seq<Patch>,
    pub result: Result<(), KernelError>,
}

/// What one relocation entry leads to.
pub ghost enum Effect {
    /// Nothing.
    Nothing,
    /// A write.
    Apply(Patch),
    /// The end of the relocation, with an error.
    Reject,
    /// An address that does not fit in a word.
    Overflow,
}

/// What the symbol at offset `at` of the file leads to, for an entry that
/// names it.
pub open spec fn symbol_effect(base: usize, f: Seq<u8>, table: Table, rela: Rela, at: int) -> Effect {
    let st = le64(file_read(f, at, ENTRY_SIZE as int), 8) as u64;
    if at + ENTRY_SIZE > usize::MAX {
        Effect::Overflow
    } else if at + ENTRY_SIZE > f.len() || st == 0 {
        Effect::Nothing
    } else {
        match symbol_patch(base, table, rela, st) {
            Some(p) => Effect::Apply(p),
            None => Effect::Overflow,
        }
    }
}

/// What the entry `rela` of a table leads to.
pub open spec fn entry_effect(s: RelocState, f: Seq<u8>, table: Table, rela: Rela) -> Effect {
    match reloc_kind(table, rela.info) {
        RelocKind::Skipped => Effect::Nothing,
        RelocKind::Relative => match relative_patch(s.base, rela) {
            Some(p) => Effect::Apply(p),
            None => Effect::Overflow,
        },
        RelocKind::Symbol => if s.info.symtab_addr == 0 || s.info.strtab_addr == 0 {
            Effect::Nothing
        } else if !lookup_fits(s.info.symtab_addr, s.ph) {
            Effect::Overflow
        } else {
            match file_offset(s.info.symtab_addr, s.ph) {
                None => Effect::Reject,
                Some(symtab) => symbol_effect(
                    s.base,
                    f,
                    table,
                    rela,
                    symbol_offset(symtab, rela.info),
                ),
            }
        },
    }
}

/// What the entries of a table lead to, from the cursor on: each entry has its
/// effect in turn, up to the end of the table or of the file; then comes
/// `rest`.
pub open spec fn table_outcome(s: RelocState, f: Seq<u8>, c: Cursor, rest: Option<Outcome>) -> Option<
    Outcome,
>
    decreases c.count - c.index,
{
    if c.index >= c.count {
        rest
    } else if c.at() + ENTRY_SIZE > usize::MAX {
        None
    } else if c.at() + ENTRY_SIZE > f.len() {
        rest
    } else {
        let rela = rela_of(file_read(f, c.at(), ENTRY_SIZE as int));
        match entry_effect(s, f, c.table, rela) {
            Effect::Nothing => table_outcome(s, f, c.next(), rest),
            Effect::Apply(p) => match table_outcome(s, f, c.next(), rest) {
                Some(o) => Some(Outcome { patches: seq![p] + o.patches, ..o }),
                None => None,
            },
            Effect::Reject => Some(
                Outcome { patches: Seq::empty(), result: Err(KernelError::InvalidData) },
            ),
            Effect::Overflow => None,
        }
    }
}

/// What a table at address `addr` of `size` bytes leads to, and then `rest`. A
/// table without an address or without a size does not exist; one that is not
/// in the file is an error.
pub open spec fn section_outcome(
    s: RelocState,
    f: Seq<u8>,
    table: Table,
    addr: u64,
    size: u64,
    rest: Option<Outcome>,
) -> Option<Outcome> {
    if addr == 0 || size == 0 {
        rest
    } else if !lookup_fits(addr, s.ph) {
        None
    } else {
        match file_offset(addr, s.ph) {
            None => Some(Outcome { patches: Seq::empty(), result: Err(KernelError::InvalidData) }),
            Some(start) => {
                let count = (size as usize) / ENTRY_SIZE;
                table_outcome(s, f, Cursor { table, start, index: 0, count }, rest)
            },
        }
    }
}

/// What the relocation of the program in the file `f`, loaded at `base`, leads
/// to: the writes of the table at `DT_RELA`, then those of the table at
/// `DT_JMPREL`. `None` if an address does not fit in a word.
pub open spec fn relocation_outcome(
    arch: Arch,
    base: usize,
    ph: Seq<ProgramHeader>,
    f: Seq<u8>,
) -> Option<Outcome> {
    let k = first_dynamic(ph, 0);
    let done = Some(Outcome { patches: Seq::empty(), result: Ok(()) });
    if arch != Arch::Riscv64 || k >= ph.len() {
        done
    } else {
        let offset = ph[k].offset as usize;
        let size = ph[k].file_size as usize;
        let info = dynamic_info(file_read(f, offset as int, size as int));
        let s = RelocState { base, ph, info, phase: finished(Ok(())) };
        if offset + size > usize::MAX {
            None
        } else if offset + size > f.len() {
            Some(Outcome { patches: Seq::empty(), result: Err(KernelError::InvalidData) })
        } else {
            let plt = section_outcome(s, f, Table::Plt, info.jmprel_addr, info.jmprel_size, done);
            section_outcome(s, f, Table::Dyn, info.rela_addr, info.rela_size, plt)
        }
    }
}

/// Whether a relocation in phase `p` ends with the outcome `o`.
pub open spec fn completes(s: RelocState, p: Option<RelocPhase>, f: Seq<u8>, o: Option<Outcome>) -> bool {
    o is Some ==> p is Some && exists|n: nat|
        #[trigger] run(RelocState { phase: p->0, ..s }, f, n) == (
            o->0.patches,
            finished(o->0.result),
        )
}

proof fn lemma_run_step(s: RelocState, t: RelocState, f: Seq<u8>, n: nat)
    requires
        !(s.phase is Finished),
        s.after(answer(s, f)) == Some(t),
    ensures
        run(s, f, n + 1).1 == run(t, f, n).1,
        run(s, f, n + 1).0 == (match s.phase {
            RelocPhase::Writing { patch, .. } => seq![patch] + run(t, f, n).0,
            _ => run(t, f, n).0,
        }),
{
}

/// A phase that is followed by one that completes completes too.
proof fn lemma_complete_step(
    s: RelocState,
    p: RelocPhase,
    q: Option<RelocPhase>,
    f: Seq<u8>,
    o: Option<Outcome>,
)
    requires
        !(p is Finished),
        ({
            let t = RelocState { phase: p, ..s };
            t.after(answer(t, f)) == t.at(q)
        }),
        completes(s, q, f, o),
    ensures
        match p {
            RelocPhase::Writing { patch, .. } => completes(
                s,
                Some(p),
                f,
                match o {
                    Some(o) => Some(Outcome { patches: seq![patch] + o.patches, ..o }),
                    None => None,
                },
            ),
            _ => completes(s, Some(p), f, o),
        },
{
    if o is Some {
        let n = choose|n: nat|
            #[trigger] run(RelocState { phase: q->0, ..s }, f, n) == (
                o->0.patches,
                finished(o->0.result),
            );
        let t = RelocState { phase: p, ..s };
        let u = RelocState { phase: q->0, ..s };
        assert(t.at(q) == Some(u));
        lemma_run_step(t, u, f, n);
        let r = run(t, f, n + 1);
        match p {
            RelocPhase::Writing { patch, .. } => {
                assert(r == (seq![patch] + o->0.patches, finished(o->0.result)));
            },
            _ => {
                assert(r == (o->0.patches, finished(o->0.result)));
            },
        }
    }
}

/// From the cursor on, a relocation does what `table_outcome` says.
proof fn lemma_table(s: RelocState, f: Seq<u8>, c: Cursor, rest: Option<Outcome>)
    requires
        f.len() <= usize::MAX,
        completes(s, s.leave(c.table), f, rest),
    ensures
        completes(s, visit(c, s.leave(c.table)), f, table_outcome(s, f, c, rest)),
    decreases c.count - c.index,
{
    let after = s.leave(c.table);
    if c.index < c.count && c.at() + ENTRY_SIZE <= usize::MAX {
        let p0 = RelocPhase::EntryLen { cursor: c };
        if c.at() + ENTRY_SIZE > f.len() {
            lemma_complete_step(s, p0, after, f, rest);
        } else {
            let d = file_read(f, c.at(), ENTRY_SIZE as int);
            let rela = rela_of(d);
            let p1 = RelocPhase::EntryData { cursor: c };
            let q = s.entry_read(c, d);
            let o = table_outcome(s, f, c, rest);
            let tail = table_outcome(s, f, c.next(), rest);
            lemma_table(s, f, c.next(), rest);
            assert(completes(s, s.advance(c), f, tail));
            assert(completes(s, q, f, o)) by {
                match entry_effect(s, f, c.table, rela) {
                    Effect::Overflow => {},
                    Effect::Reject => {
                        lemma_finished(s, f, Err(KernelError::InvalidData));
                    },
                    Effect::Nothing | Effect::Apply(_) => {
                        lemma_entry(s, f, c, tail);
                    },
                }
            }
            lemma_complete_step(s, p1, q, f, o);
            lemma_complete_step(s, p0, Some(p1), f, o);
        }
    }
}

proof fn lemma_finished(s: RelocState, f: Seq<u8>, result: Result<(), KernelError>)
    ensures
        completes(
            s,
            Some(finished(result)),
            f,
            Some(Outcome { patches: Seq::empty(), result }),
        ),
{
    assert(run(RelocState { phase: finished(result), ..s }, f, 0) == (
        Seq::<Patch>::empty(),
        finished(result),
    ));
}

/// An entry that is not rejected has its effect, and then comes what follows.
proof fn lemma_entry(s: RelocState, f: Seq<u8>, c: Cursor, tail: Option<Outcome>)
    requires
        f.len() <= usize::MAX,
        completes(s, s.advance(c), f, tail),
    ensures
        ({
            let d = file_read(f, c.at(), ENTRY_SIZE as int);
            match entry_effect(s, f, c.table, rela_of(d)) {
                Effect::Nothing => completes(s, s.entry_read(c, d), f, tail),
                Effect::Apply(p) => completes(
                    s,
                    s.entry_read(c, d),
                    f,
                    match tail {
                        Some(o) => Some(Outcome { patches: seq![p] + o.patches, ..o }),
                        None => None,
                    },
                ),
                _ => true,
            }
        }),
{
    let d = file_read(f, c.at(), ENTRY_SIZE as int);
    let rela = rela_of(d);
    match entry_effect(s, f, c.table, rela) {
        Effect::Apply(patch) => {
            let w = RelocPhase::Writing { cursor: c, patch };
            lemma_complete_step(s, w, s.advance(c), f, tail);
            let o = match tail {
                Some(o) => Some(Outcome { patches: seq![patch] + o.patches, ..o }),
                None => None,
            };
            if reloc_kind(c.table, rela.info) is Symbol {
                let at = symbol_offset(file_offset(s.info.symtab_addr, s.ph)->0, rela.info);
                let p1 = RelocPhase::SymbolLen { cursor: c, rela, at: at as usize };
                let p2 = RelocPhase::SymbolData { cursor: c, rela, at: at as usize };
                lemma_complete_step(s, p2, Some(w), f, o);
                lemma_complete_step(s, p1, Some(p2), f, o);
            }
        },
        Effect::Nothing => {
            if reloc_kind(c.table, rela.info) is Symbol && s.info.symtab_addr != 0
                && s.info.strtab_addr != 0 {
                let at = symbol_offset(file_offset(s.info.symtab_addr, s.ph)->0, rela.info);
                let p1 = RelocPhase::SymbolLen { cursor: c, rela, at: at as usize };
                let p2 = RelocPhase::SymbolData { cursor: c, rela, at: at as usize };
                if at + ENTRY_SIZE > f.len() {
                    lemma_complete_step(s, p1, s.advance(c), f, tail);
                } else {
                    lemma_complete_step(s, p2, s.advance(c), f, tail);
                    lemma_complete_step(s, p1, Some(p2), f, tail);
                }
            }
        },
        _ => {},
    }
}

/// A table does what `section_outcome` says.
proof fn lemma_section(
    s: RelocState,
    f: Seq<u8>,
    table: Table,
    addr: u64,
    size: u64,
    rest: Option<Outcome>,
)
    requires
        f.len() <= usize::MAX,
        completes(s, s.leave(table), f, rest),
    ensures
        completes(
            s,
            s.enter(table, addr, size, s.leave(table)),
            f,
            section_outcome(s, f, table, addr, size, rest),
        ),
{
    lemma_finished(s, f, Err(KernelError::InvalidData));
    if addr != 0 && size != 0 && lookup_fits(addr, s.ph) && file_offset(addr, s.ph) is Some {
        let start = file_offset(addr, s.ph)->0;
        let count = (size as usize) / ENTRY_SIZE;
        lemma_table(s, f, Cursor { table, start, index: 0, count }, rest);
    }
}

/// A relocation does exactly what the program's tables ask for: where the file
/// does not change and every write succeeds, it comes to an end, and it has
/// then made the writes of `relocation_outcome`, in that order and no others,
/// and has the result that this gives.
pub proof fn law_relocation(arch: Arch, start: RelocState, f: Seq<u8>)
    requires
        f.len() <= usize::MAX,
        start.phase == first_phase(arch, start.ph),
        relocation_outcome(arch, start.base, start.ph, f) is Some,
    ensures
        exists|n: nat|
            #[trigger] run(start, f, n) == (
                relocation_outcome(arch, start.base, start.ph, f)->0.patches,
                finished(relocation_outcome(arch, start.base, start.ph, f)->0.result),
            ),
{
    let ph = start.ph;
    let k = first_dynamic(ph, 0);
    let o = relocation_outcome(arch, start.base, ph, f);
    let done = Some(Outcome { patches: Seq::empty(), result: Ok(()) });
    lemma_finished(start, f, Ok(()));
    lemma_finished(start, f, Err(KernelError::InvalidData));
    if arch == Arch::Riscv64 && k < ph.len() {
        let offset = ph[k].offset as usize;
        let size = ph[k].file_size as usize;
        let d = file_read(f, offset as int, size as int);
        let info = dynamic_info(d);
        let s = RelocState { info, phase: finished(Ok(())), ..start };
        let p0 = RelocPhase::DynLen { offset, size };
        if offset + size > f.len() {
            lemma_complete_step(
                start,
                p0,
                Some(finished(Err(KernelError::InvalidData))),
                f,
                o,
            );
        } else {
            lemma_finished(s, f, Ok(()));
            lemma_section(s, f, Table::Plt, info.jmprel_addr, info.jmprel_size, done);
            let plt = section_outcome(s, f, Table::Plt, info.jmprel_addr, info.jmprel_size, done);
            lemma_section(s, f, Table::Dyn, info.rela_addr, info.rela_size, plt);
            let q = s.enter_tables();
            assert(completes(s, q, f, o));
            let n = choose|n: nat|
                #[trigger] run(RelocState { phase: q->0, ..s }, f, n) == (
                    o->0.patches,
                    finished(o->0.result),
                );
            let p1 = RelocPhase::DynData { offset, size };
            let t0 = RelocState { phase: p0, ..start };
            let t1 = RelocState { phase: p1, ..start };
            let t2 = RelocState { phase: q->0, ..s };
            assert(t1.after(answer(t1, f)) == Some(t2));
            lemma_run_step(t1, t2, f, n);
            lemma_run_step(t0, t1, f, n + 1);
            assert(run(start, f, n + 2) == (o->0.patches, finished(o->0.result)));
        }
    }
    assert(completes(start, Some(start.phase), f, o));
    assert(RelocState { phase: start.phase, ..start } == start);
}

// ---------- Jump slots ----------

/// The value of the symbol that an entry names, in a symbol table at `symtab`.
pub open spec fn symbol_value(f: Seq<u8>, symtab: usize, info: u64) -> int {
    le64(file_read(f, symbol_offset(symtab, info), ENTRY_SIZE as int), 8)
}

/// A jump slot gets the load address plus the value of its symbol. That is so
/// exactly if there are a symbol table and a string table, the symbol is in the
/// file, and its value is not zero; the other entries of the table write
/// nothing. The addend has no part in it.
pub proof fn law_jump_slot(s: RelocState, f: Seq<u8>, rela: Rela, p: Patch)
    requires
        f.len() <= usize::MAX,
    ensures
        entry_effect(s, f, Table::Plt, rela) == Effect::Apply(p) <==> {
            &&& rela.info as int % 0x1_0000_0000 == 5
            &&& s.info.symtab_addr != 0
            &&& s.info.strtab_addr != 0
            &&& lookup_fits(s.info.symtab_addr, s.ph)
            &&& file_offset(s.info.symtab_addr, s.ph) matches Some(symtab) && {
                &&& symbol_offset(symtab, rela.info) + ENTRY_SIZE <= f.len()
                &&& symbol_value(f, symtab, rela.info) != 0
                &&& p.target == s.base + rela.offset
                &&& p.value == s.base + symbol_value(f, symtab, rela.info)
            }
        },
        forall|addend: i64|
            entry_effect(s, f, Table::Plt, (Rela { addend, ..rela })) == entry_effect(
                s,
                f,
                Table::Plt,
                rela,
            ),
{
}

/// What the dynamic section of the program in the file `f` says.
pub open spec fn program_info(ph: Seq<ProgramHeader>, f: Seq<u8>) -> DynamicInfo {
    let k = first_dynamic(ph, 0);
    dynamic_info(
        file_read(f, (ph[k].offset as usize) as int, (ph[k].file_size as usize) as int),
    )
}

/// Whether the byte of the file at `p` belongs to the addend of an entry of the
/// table at `DT_JMPREL`.
pub open spec fn in_plt_addend(ph: Seq<ProgramHeader>, info: DynamicInfo, p: int) -> bool {
    let count = (info.jmprel_size as usize) / ENTRY_SIZE;
    file_offset(info.jmprel_addr, ph) matches Some(start) && start <= p < start + count * ENTRY_SIZE
        && (p - start) % 24 >= 16
}

/// Whether the byte of the file at `p` belongs to the value of the symbol that the
/// entry `rela` of a table names.
pub open spec fn named_symbol(s: RelocState, f: Seq<u8>, table: Table, rela: Rela, p: int) -> bool {
    &&& reloc_kind(table, rela.info) == RelocKind::Symbol
    &&& s.info.symtab_addr != 0
    &&& s.info.strtab_addr != 0
    &&& lookup_fits(s.info.symtab_addr, s.ph)
    &&& file_offset(s.info.symtab_addr, s.ph) matches Some(symtab) && {
        let at = symbol_offset(symtab, rela.info);
        at + ENTRY_SIZE <= f.len() && at + 8 <= p < at + 16
    }
}

/// Whether a relocation goes on after an entry with the given effect.
pub open spec fn goes_on(e: Effect) -> bool {
    e is Nothing || e is Apply
}

/// Whether the byte of the file at `p` is read while the entries of a table are
/// gone through, from the cursor on: as a part of an entry of the table at
/// `DT_RELA`, or of the value of a symbol that an entry names. Entries that the
/// relocation does not come to are not read.
pub open spec fn used_from(s: RelocState, f: Seq<u8>, c: Cursor, p: int) -> bool
    decreases c.count - c.index,
{
    if c.index >= c.count || c.at() + ENTRY_SIZE > usize::MAX || c.at() + ENTRY_SIZE > f.len() {
        false
    } else {
        let rela = rela_of(file_read(f, c.at(), ENTRY_SIZE as int));
        ||| c.table == Table::Dyn && c.at() <= p < c.at() + ENTRY_SIZE
        ||| named_symbol(s, f, c.table, rela, p)
        ||| goes_on(entry_effect(s, f, c.table, rela)) && used_from(s, f, c.next(), p)
    }
}

/// Whether the relocation goes on behind a table, from the cursor on.
pub open spec fn passes_from(s: RelocState, f: Seq<u8>, c: Cursor) -> bool
    decreases c.count - c.index,
{
    if c.index >= c.count {
        true
    } else if c.at() + ENTRY_SIZE > usize::MAX {
        false
    } else if c.at() + ENTRY_SIZE > f.len() {
        true
    } else {
        let rela = rela_of(file_read(f, c.at(), ENTRY_SIZE as int));
        goes_on(entry_effect(s, f, c.table, rela)) && passes_from(s, f, c.next())
    }
}

/// The first entry of a table at offset `start` of the file, of `size` bytes.
pub open spec fn first_entry(table: Table, start: usize, size: u64) -> Cursor {
    Cursor { table, start, index: 0, count: (size as usize) / ENTRY_SIZE }
}

/// Whether the byte of the file at `p` is read while a table at address `addr` of
/// `size` bytes is gone through, as what [`used_from`] says.
pub open spec fn section_uses(
    s: RelocState,
    f: Seq<u8>,
    table: Table,
    addr: u64,
    size: u64,
    p: int,
) -> bool {
    &&& addr != 0
    &&& size != 0
    &&& lookup_fits(addr, s.ph)
    &&& file_offset(addr, s.ph) matches Some(start) && used_from(
        s,
        f,
        first_entry(table, start, size),
        p,
    )
}

/// Whether the relocation goes on behind a table at address `addr` of `size`
/// bytes.
pub open spec fn section_passes(s: RelocState, f: Seq<u8>, table: Table, addr: u64, size: u64) -> bool {
    ||| addr == 0
    ||| size == 0
    ||| lookup_fits(addr, s.ph) && (file_offset(addr, s.ph) matches Some(start) && passes_from(
        s,
        f,
        first_entry(table, start, size),
    ))
}

/// Whether the relocation of the program in the file `f` reads the byte at `p` as
/// a part of the dynamic section, of an entry of the table at `DT_RELA`, or of the
/// value of a symbol that an entry names.
pub open spec fn in_other_use(base: usize, ph: Seq<ProgramHeader>, f: Seq<u8>, p: int) -> bool {
    let k = first_dynamic(ph, 0);
    let offset = ph[k].offset as usize;
    let size = ph[k].file_size as usize;
    let info = program_info(ph, f);
    let s = RelocState { base, ph, info, phase: finished(Ok(())) };
    ||| offset <= p < offset + size
    ||| section_uses(s, f, Table::Dyn, info.rela_addr, info.rela_size, p)
    ||| section_passes(s, f, Table::Dyn, info.rela_addr, info.rela_size) && section_uses(
        s,
        f,
        Table::Plt,
        info.jmprel_addr,
        info.jmprel_size,
        p,
    )
}

/// Whether two files of the same length differ in addends of the table at
/// `DT_JMPREL` only, in bytes that are not read as anything else too.
pub open spec fn differ_in_addends(
    base: usize,
    ph: Seq<ProgramHeader>,
    f: Seq<u8>,
    g: Seq<u8>,
) -> bool {
    &&& f.len() == g.len()
    &&& forall|p: int|
        0 <= p < f.len() && #[trigger] f[p] != g[p] ==> in_plt_addend(ph, program_info(ph, f), p)
            && !in_other_use(base, ph, f, p)
}

/// Two files that agree where they are read lead to the same reads.
proof fn lemma_same_read(f: Seq<u8>, g: Seq<u8>, at: int, k: int, n: int)
    requires
        f.len() == g.len(),
        0 <= at,
        0 <= k <= k + n <= 24,
        forall|p: int| at + k <= p < at + k + n && p < f.len() ==> #[trigger] f[p] == g[p],
    ensures
        forall|j: int|
            k <= j < k + n ==> #[trigger] file_read(f, at, 24)[j] == file_read(g, at, 24)[j],
{
}

/// An entry has the same effect in both files if they agree on its symbol.
proof fn lemma_same_effect(s: RelocState, f: Seq<u8>, g: Seq<u8>, table: Table, a: Rela, b: Rela)
    requires
        f.len() == g.len(),
        a.offset == b.offset,
        a.info == b.info,
        table == Table::Dyn ==> a.addend == b.addend,
        forall|p: int|
            0 <= p < f.len() && #[trigger] f[p] != g[p] ==> !named_symbol(s, f, table, a, p),
    ensures
        entry_effect(s, f, table, a) == entry_effect(s, g, table, b),
{
    if reloc_kind(table, a.info) == RelocKind::Symbol && s.info.symtab_addr != 0
        && s.info.strtab_addr != 0 && lookup_fits(s.info.symtab_addr, s.ph) {
        if let Some(symtab) = file_offset(s.info.symtab_addr, s.ph) {
            let at = symbol_offset(symtab, a.info);
            if at + ENTRY_SIZE <= f.len() {
                assert forall|p: int| at + 8 <= p < at + 16 && p < f.len() implies #[trigger] f[p]
                    == g[p] by {
                    assert(named_symbol(s, f, table, a, p));
                }
                lemma_same_read(f, g, at, 8, 8);
            }
        }
    }
}

/// Whether two files agree on all that is read of a table from the cursor on.
pub open spec fn agree_from(s: RelocState, f: Seq<u8>, g: Seq<u8>, c: Cursor) -> bool {
    &&& f.len() == g.len()
    &&& forall|p: int|
        0 <= p < f.len() && #[trigger] f[p] != g[p] ==> !used_from(s, f, c, p) && (c.table
            == Table::Plt ==> (p - c.start) % 24 >= 16)
}

/// The entry at the cursor says the same in both files, in what counts.
proof fn lemma_same_entry(s: RelocState, f: Seq<u8>, g: Seq<u8>, c: Cursor)
    requires
        agree_from(s, f, g, c),
        c.index < c.count,
        c.at() + ENTRY_SIZE <= usize::MAX,
        c.at() + ENTRY_SIZE <= f.len(),
    ensures
        ({
            let a = rela_of(file_read(f, c.at(), ENTRY_SIZE as int));
            let b = rela_of(file_read(g, c.at(), ENTRY_SIZE as int));
            &&& a.offset == b.offset
            &&& a.info == b.info
            &&& c.table == Table::Dyn ==> a.addend == b.addend
        }),
{
    let at = c.at();
    match c.table {
        Table::Dyn => {
            assert forall|p: int| at <= p < at + 24 && p < f.len() implies #[trigger] f[p]
                == g[p] by {
                assert(used_from(s, f, c, p));
            }
            lemma_same_read(f, g, at, 0, 24);
        },
        Table::Plt => {
            assert forall|p: int| at <= p < at + 16 && p < f.len() implies #[trigger] f[p]
                == g[p] by {
                assert((p - c.start) % 24 == p - at);
            }
            lemma_same_read(f, g, at, 0, 16);
        },
    }
}

/// A table leads to the same in two files that agree on all that is read of it.
proof fn lemma_same_table(s: RelocState, f: Seq<u8>, g: Seq<u8>, c: Cursor, rest: Option<Outcome>)
    requires
        agree_from(s, f, g, c),
    ensures
        table_outcome(s, f, c, rest) == table_outcome(s, g, c, rest),
    decreases c.count - c.index,
{
    if c.index < c.count && c.at() + ENTRY_SIZE <= usize::MAX && c.at() + ENTRY_SIZE <= f.len() {
        let a = rela_of(file_read(f, c.at(), ENTRY_SIZE as int));
        let b = rela_of(file_read(g, c.at(), ENTRY_SIZE as int));
        lemma_same_entry(s, f, g, c);
        assert forall|p: int| 0 <= p < f.len() && #[trigger] f[p] != g[p] implies !named_symbol(
            s,
            f,
            c.table,
            a,
            p,
        ) by {
            assert(!used_from(s, f, c, p));
        }
        lemma_same_effect(s, f, g, c.table, a, b);
        if goes_on(entry_effect(s, f, c.table, a)) {
            assert forall|p: int| 0 <= p < f.len() && #[trigger] f[p] != g[p] implies !used_from(
                s,
                f,
                c.next(),
                p,
            ) by {
                assert(!used_from(s, f, c, p));
            }
            lemma_same_table(s, f, g, c.next(), rest);
        }
    }
}

/// What would come behind a table does not matter where the relocation ends in
/// it.
proof fn lemma_ends_in_table(
    s: RelocState,
    f: Seq<u8>,
    c: Cursor,
    rest: Option<Outcome>,
    other: Option<Outcome>,
)
    requires
        !passes_from(s, f, c),
    ensures
        table_outcome(s, f, c, rest) == table_outcome(s, f, c, other),
    decreases c.count - c.index,
{
    if c.at() + ENTRY_SIZE <= usize::MAX {
        let a = rela_of(file_read(f, c.at(), ENTRY_SIZE as int));
        if goes_on(entry_effect(s, f, c.table, a)) {
            lemma_ends_in_table(s, f, c.next(), rest, other);
        }
    }
}

/// The table at `DT_JMPREL` leads to the same, if the relocation comes to it.
proof fn lemma_same_plt(base: usize, ph: Seq<ProgramHeader>, f: Seq<u8>, g: Seq<u8>, s: RelocState)
    requires
        differ_in_addends(base, ph, f, g),
        s == (RelocState { base, ph, info: program_info(ph, f), phase: finished(Ok(())) }),
        section_passes(s, f, Table::Dyn, s.info.rela_addr, s.info.rela_size),
    ensures
        forall|rest: Option<Outcome>| #[trigger]
            section_outcome(s, f, Table::Plt, s.info.jmprel_addr, s.info.jmprel_size, rest)
                == section_outcome(s, g, Table::Plt, s.info.jmprel_addr, s.info.jmprel_size, rest),
{
    let (addr, size) = (s.info.jmprel_addr, s.info.jmprel_size);
    assert forall|rest: Option<Outcome>| #[trigger]
        section_outcome(s, f, Table::Plt, addr, size, rest) == section_outcome(
            s,
            g,
            Table::Plt,
            addr,
            size,
            rest,
        ) by {
        if addr != 0 && size != 0 && lookup_fits(addr, s.ph) {
            if let Some(start) = file_offset(addr, s.ph) {
                let c = first_entry(Table::Plt, start, size);
                assert forall|p: int| 0 <= p < f.len() && #[trigger] f[p] != g[p] implies !used_from(
                    s,
                    f,
                    c,
                    p,
                ) && (p - start) % 24 >= 16 by {
                    assert(!section_uses(s, f, Table::Plt, addr, size, p));
                }
                lemma_same_table(s, f, g, c, rest);
            }
        }
    }
}

/// The table at `DT_RELA` leads to the same.
proof fn lemma_same_dyn(
    base: usize,
    ph: Seq<ProgramHeader>,
    f: Seq<u8>,
    g: Seq<u8>,
    s: RelocState,
    rest: Option<Outcome>,
)
    requires
        differ_in_addends(base, ph, f, g),
        s == (RelocState { base, ph, info: program_info(ph, f), phase: finished(Ok(())) }),
    ensures
        section_outcome(s, f, Table::Dyn, s.info.rela_addr, s.info.rela_size, rest)
            == section_outcome(s, g, Table::Dyn, s.info.rela_addr, s.info.rela_size, rest),
{
    let (addr, size) = (s.info.rela_addr, s.info.rela_size);
    if addr != 0 && size != 0 && lookup_fits(addr, s.ph) {
        if let Some(start) = file_offset(addr, s.ph) {
            let c = first_entry(Table::Dyn, start, size);
            assert forall|p: int| 0 <= p < f.len() && #[trigger] f[p] != g[p] implies !used_from(
                s,
                f,
                c,
                p,
            ) by {
                assert(!section_uses(s, f, Table::Dyn, addr, size, p));
            }
            lemma_same_table(s, f, g, c, rest);
        }
    }
}

/// The addends of the table at `DT_JMPREL` do not matter: a program is relocated
/// in the same way from two files that differ in nothing else, as long as those
/// bytes are not read as anything else too.
pub proof fn law_jump_slot_addends(
    arch: Arch,
    base: usize,
    ph: Seq<ProgramHeader>,
    f: Seq<u8>,
    g: Seq<u8>,
)
    requires
        differ_in_addends(base, ph, f, g),
    ensures
        relocation_outcome(arch, base, ph, f) == relocation_outcome(arch, base, ph, g),
{
    let k = first_dynamic(ph, 0);
    let info = program_info(ph, f);
    let offset = ph[k].offset as usize;
    let size = ph[k].file_size as usize;
    assert(file_read(f, offset as int, size as int) =~= file_read(g, offset as int, size as int));
    assert(program_info(ph, g) == info);
    let s = RelocState { base, ph, info, phase: finished(Ok(())) };
    let done = Some(Outcome { patches: Seq::empty(), result: Ok(()) });
    let plt = section_outcome(s, f, Table::Plt, info.jmprel_addr, info.jmprel_size, done);
    let other = section_outcome(s, g, Table::Plt, info.jmprel_addr, info.jmprel_size, done);
    if section_passes(s, f, Table::Dyn, info.rela_addr, info.rela_size) {
        lemma_same_plt(base, ph, f, g, s);
    } else if let Some(start) = file_offset(info.rela_addr, s.ph) {
        if lookup_fits(info.rela_addr, s.ph) {
            lemma_ends_in_table(s, f, first_entry(Table::Dyn, start, info.rela_size), plt, other);
        }
    }
    lemma_same_dyn(base, ph, f, g, s, other);
}

// ---------- What each entry is for ----------

/// A relative entry, which has the type 3 in the table at `DT_RELA`, has one
/// effect: the address at its offset behind the load address gets, in two's
/// complement, the load address plus the addend, whatever the addend is. Only an
/// address or a sum that leaves the range stops it.
pub proof fn law_relative(s: RelocState, f: Seq<u8>, rela: Rela)
    requires
        rela.info as int % 0x1_0000_0000 == 3,
    ensures
        entry_effect(s, f, Table::Dyn, rela) matches Effect::Apply(p) ==> {
            &&& p.target == s.base + rela.offset
            &&& (p.value - (s.base + rela.addend)) % 0x1_0000_0000_0000_0000 == 0
        },
        ({
            let base = if s.base <= i64::MAX {
                s.base as int
            } else {
                s.base - 0x1_0000_0000_0000_0000
            };
            let fits = s.base + rela.offset <= usize::MAX && i64::MIN <= base + rela.addend
                <= i64::MAX;
            &&& fits <==> entry_effect(s, f, Table::Dyn, rela) is Apply
            &&& !fits <==> entry_effect(s, f, Table::Dyn, rela) is Overflow
        }),
{
}

/// An absolute entry, which has the type 2 in the table at `DT_RELA`, puts, in
/// two's complement, the load address plus the value of its symbol plus the
/// addend at its offset behind the load address, if it has any effect.
pub proof fn law_absolute(s: RelocState, f: Seq<u8>, rela: Rela, symtab: usize)
    requires
        rela.info as int % 0x1_0000_0000 == 2,
        s.info.symtab_addr != 0,
        s.info.strtab_addr != 0,
        lookup_fits(s.info.symtab_addr, s.ph),
        file_offset(s.info.symtab_addr, s.ph) == Some(symtab),
        symtab + 24 * (rela.info as int / 0x1_0000_0000) + 24 <= f.len() <= usize::MAX,
    ensures
        ({
            let st = le64(file_read(f, symtab + 24 * (rela.info as int / 0x1_0000_0000), 24), 8);
            let e = entry_effect(s, f, Table::Dyn, rela);
            let base = if s.base <= i64::MAX {
                s.base as int
            } else {
                s.base - 0x1_0000_0000_0000_0000
            };
            let value = if st <= i64::MAX {
                st
            } else {
                st - 0x1_0000_0000_0000_0000
            };
            let fits = s.base + rela.offset <= usize::MAX && i64::MIN <= base + value <= i64::MAX
                && i64::MIN <= base + value + rela.addend <= i64::MAX;
            &&& st == 0 <==> e is Nothing
            &&& st != 0 && fits <==> e is Apply
            &&& st != 0 && !fits <==> e is Overflow
            &&& e matches Effect::Apply(p) ==> {
                &&& p.target == s.base + rela.offset
                &&& (p.value - (s.base + st + rela.addend)) % 0x1_0000_0000_0000_0000 == 0
            }
        }),
{
    let at = symbol_offset(symtab, rela.info);
    assert(at == symtab + 24 * (rela.info as int / 0x1_0000_0000));
    law_little_endian(file_read(f, at, 24), 8);
}

/// An entry that names a symbol has no effect where there is no symbol table or no
/// string table, or where the symbol lies beyond the end of the file; a symbol
/// table that is not in the file ends the relocation with an error. An entry of
/// any other type has no effect at all.
pub proof fn law_entry_skipped(s: RelocState, f: Seq<u8>, table: Table, rela: Rela)
    requires
        f.len() <= usize::MAX,
    ensures
        ({
            let ty = rela.info as int % 0x1_0000_0000;
            let symbolic = if table == Table::Dyn {
                ty == 2
            } else {
                ty == 5
            };
            let e = entry_effect(s, f, table, rela);
            &&& !symbolic && !(table == Table::Dyn && ty == 3) ==> e is Nothing
            &&& symbolic && (s.info.symtab_addr == 0 || s.info.strtab_addr == 0) ==> e is Nothing
            &&& symbolic && s.info.symtab_addr != 0 && s.info.strtab_addr != 0 && lookup_fits(
                s.info.symtab_addr,
                s.ph,
            ) ==> match file_offset(s.info.symtab_addr, s.ph) {
                None => e is Reject,
                Some(symtab) => {
                    let end = symtab + 24 * (rela.info as int / 0x1_0000_0000) + 24;
                    &&& !(e is Reject)
                    &&& f.len() < end <= usize::MAX ==> e is Nothing
                }
            }
        }),
{
    if let Some(symtab) = file_offset(s.info.symtab_addr, s.ph) {
        assert(symbol_offset(symtab, rela.info) == symtab + 24 * (rela.info as int
            / 0x1_0000_0000));
    }
}

/// An entry of a relocation table has three words: the offset, the type and the
/// symbol, and the addend in two's complement.
pub proof fn law_rela(d: Seq<u8>)
    requires
        usize::BITS == 64,
    ensures
        rela_of(d).offset == le64(d, 0),
        rela_of(d).info == le64(d, 8),
        rela_of(d).addend == le64(d, 16) || rela_of(d).addend == le64(d, 16)
            - 0x1_0000_0000_0000_0000,
{
    law_little_endian(d, 0);
    law_little_endian(d, 8);
    law_little_endian(d, 16);
    law_twos_complement(le64(d, 16) as u64, 0);
}

/// Whether segment `k` is loaded and its file part holds the address `a`, and no
/// segment before it is like that.
pub open spec fn first_loaded_with(ph: Seq<ProgramHeader>, a: usize, k: int) -> bool {
    &&& 0 <= k < ph.len()
    &&& ph[k].kind == SegmentType::Load
    &&& (ph[k].virtual_addr as usize) <= a < (ph[k].virtual_addr as usize) + (ph[k].file_size as usize)
    &&& forall|j: int|
        0 <= j < k ==> !((#[trigger] ph[j]).kind == SegmentType::Load && (ph[j].virtual_addr as usize)
            <= a < (ph[j].virtual_addr as usize) + (ph[j].file_size as usize))
}

proof fn lemma_first_segment(ph: Seq<ProgramHeader>, a: usize, i: int)
    requires
        0 <= i <= ph.len(),
    ensures
        i <= first_segment(ph, a, i) <= ph.len(),
        first_segment(ph, a, i) < ph.len() ==> in_segment(ph[first_segment(ph, a, i)], a),
        forall|j: int| i <= j < first_segment(ph, a, i) ==> !in_segment(#[trigger] ph[j], a),
    decreases ph.len() - i,
{
    if i < ph.len() && !in_segment(ph[i], a) {
        lemma_first_segment(ph, a, i + 1);
    }
}

/// The file offset of an address is as far behind the offset of the first loaded
/// segment whose file part holds the address as the address is behind the start of
/// that segment. There is none exactly if there is no such segment.
pub proof fn law_file_offset(vaddr: u64, ph: Seq<ProgramHeader>, k: int)
    ensures
        file_offset(vaddr, ph) is None <==> forall|j: int|
            !#[trigger] first_loaded_with(ph, vaddr as usize, j),
        first_loaded_with(ph, vaddr as usize, k) && lookup_fits(vaddr, ph) ==> (file_offset(
            vaddr,
            ph,
        ) matches Some(o) && o == (ph[k].offset as usize) + ((vaddr as usize) - (
        ph[k].virtual_addr as usize))),
        first_loaded_with(ph, vaddr as usize, k) ==> (lookup_fits(vaddr, ph) <==> (
        ph[k].virtual_addr as usize) + (ph[k].file_size as usize) <= usize::MAX && (
        ph[k].offset as usize) + ((vaddr as usize) - (ph[k].virtual_addr as usize)) <= usize::MAX),
{
    let a = vaddr as usize;
    lemma_first_segment(ph, a, 0);
    let f = first_segment(ph, a, 0);
    if f < ph.len() {
        assert(first_loaded_with(ph, a, f));
    }
    assert forall|j: int| #[trigger] first_loaded_with(ph, a, j) implies j == f by {
        if j < f {
            assert(!in_segment(ph[j], a));
        } else if f < j {
            assert(in_segment(ph[f], a));
        }
    }
}

/// Whether `v` is the value of the last entry with the given tag among the first
/// `end` of a dynamic section, or zero if there is none.
pub open spec fn last_with_tag(d: Seq<u8>, tag: int, end: int, v: u64) -> bool {
    ||| v == 0 && forall|i: int| 0 <= i < end ==> le64(d, #[trigger] (16 * i)) != tag
    ||| exists|i: int|
        0 <= i < end && le64(d, #[trigger] (16 * i)) == tag && le64(d, 16 * i + 8) == v && forall|
            j: int,
        |
            i < j < end ==> le64(d, #[trigger] (16 * j)) != tag
}

proof fn lemma_last_value(d: Seq<u8>, tag: int, n: int)
    requires
        n >= 0,
    ensures
        last_with_tag(d, tag, n, last_value(d, tag, n)),
    decreases n,
{
    if n > 0 {
        let v = last_value(d, tag, n);
        law_little_endian(d, 16 * (n - 1) + 8);
        if le64(d, 16 * (n - 1)) == tag {
            let i = n - 1;
            assert(le64(d, 16 * i) == tag && le64(d, 16 * i + 8) == v);
        } else {
            lemma_last_value(d, tag, n - 1);
            if v == 0 && (forall|i: int|
                0 <= i < n - 1 ==> le64(d, #[trigger] (16 * i)) != tag) {
                assert forall|i: int| 0 <= i < n implies le64(d, #[trigger] (16 * i)) != tag by {
                    if i == n - 1 {
                        assert(16 * i == 16 * (n - 1));
                    }
                }
            } else {
                let i = choose|i: int|
                    0 <= i < n - 1 && le64(d, #[trigger] (16 * i)) == tag && le64(d, 16 * i + 8) == v
                        && forall|j: int| i < j < n - 1 ==> le64(d, #[trigger] (16 * j)) != tag;
                assert forall|j: int| i < j < n implies le64(d, #[trigger] (16 * j)) != tag by {
                    if j == n - 1 {
                        assert(16 * j == 16 * (n - 1));
                    }
                }
                assert(le64(d, 16 * i) == tag);
            }
        }
    }
}

proof fn lemma_dyn_end(d: Seq<u8>, i: int)
    requires
        0 <= i <= d.len() / 16,
    ensures
        i <= dyn_end(d, i) <= d.len() / 16,
        dyn_end(d, i) < d.len() / 16 ==> le64(d, 16 * dyn_end(d, i)) == 0,
        forall|j: int| i <= j < dyn_end(d, i) ==> le64(d, #[trigger] (16 * j)) != 0,
    decreases d.len() / 16 - i,
{
    if i < d.len() / 16 && dyn_tag(d, i) != 0 {
        lemma_dyn_end(d, i + 1);
        assert forall|j: int| i <= j < dyn_end(d, i) implies le64(d, #[trigger] (16 * j)) != 0 by {
            if j == i {
                assert(16 * j == 16 * i);
            }
        }
    }
}

/// A dynamic section ends at its first entry with the tag zero, or else with its
/// last whole entry. Before that, the entries with the tags 7 and 8 tell where the
/// table at `DT_RELA` is and how long, those with 23 and 2 the same of the table
/// at `DT_JMPREL`, and those with 6 and 5 where the symbol table and the string
/// table are; the last entry of a tag counts.
pub proof fn law_dynamic_section(d: Seq<u8>, end: int)
    requires
        0 <= end <= d.len() / 16,
        end < d.len() / 16 ==> le64(d, 16 * end) == 0,
        forall|j: int| 0 <= j < end ==> le64(d, #[trigger] (16 * j)) != 0,
    ensures
        last_with_tag(d, 7, end, dynamic_info(d).rela_addr),
        last_with_tag(d, 8, end, dynamic_info(d).rela_size),
        last_with_tag(d, 23, end, dynamic_info(d).jmprel_addr),
        last_with_tag(d, 2, end, dynamic_info(d).jmprel_size),
        last_with_tag(d, 6, end, dynamic_info(d).symtab_addr),
        last_with_tag(d, 5, end, dynamic_info(d).strtab_addr),
{
    lemma_dyn_end(d, 0);
    let e = dyn_end(d, 0);
    if e < end {
        assert(le64(d, 16 * e) != 0);
    } else if end < e {
        assert(le64(d, 16 * end) != 0);
    }
    lemma_last_value(d, 7, end);
    lemma_last_value(d, 8, end);
    lemma_last_value(d, 23, end);
    lemma_last_value(d, 2, end);
    lemma_last_value(d, 6, end);
    lemma_last_value(d, 5, end);
}

// ---------- What a whole table is for ----------

/// The entry `i` of a table that starts at `start` in the file.
pub open spec fn entry_at(f: Seq<u8>, start: usize, i: int) -> Rela {
    rela_of(file_read(f, start + i * 24, 24))
}

/// Every entry of a table that lies in the file has its effect, where the
/// relocation succeeds: the write that it leads to is one of those that are made.
pub proof fn law_no_entry_left_out(
    s: RelocState,
    f: Seq<u8>,
    c: Cursor,
    rest: Option<Outcome>,
    i: int,
    p: Patch,
)
    requires
        c.index <= i < c.count,
        c.start + i * 24 + 24 <= f.len(),
        entry_effect(s, f, c.table, entry_at(f, c.start, i)) == Effect::Apply(p),
        table_outcome(s, f, c, rest) matches Some(o) && o.result is Ok,
    ensures
        (table_outcome(s, f, c, rest)->0).patches.contains(p),
    decreases c.count - c.index,
{
    let o = table_outcome(s, f, c, rest)->0;
    assert(c.at() + 24 <= f.len());
    let rela = rela_of(file_read(f, c.at(), 24));
    if i == c.index {
        assert(o.patches[0] == p);
    } else {
        law_no_entry_left_out(s, f, c.next(), rest, i, p);
        let t = table_outcome(s, f, c.next(), rest)->0;
        let k = choose|k: int| 0 <= k < t.patches.len() && t.patches[k] == p;
        if entry_effect(s, f, c.table, rela) is Apply {
            assert(o.patches[k + 1] == p);
        } else {
            assert(o.patches[k] == p);
        }
    }
}

/// The writes that come behind a table are made behind those of the table where
/// the relocation succeeds.
pub proof fn law_rest_comes_last(
    s: RelocState,
    f: Seq<u8>,
    c: Cursor,
    rest: Option<Outcome>,
)
    requires
        table_outcome(s, f, c, rest) matches Some(o) && o.result is Ok,
    ensures
        rest is Some,
        rest->0.result is Ok,
        ({
            let o = table_outcome(s, f, c, rest)->0;
            let n = o.patches.len() - rest->0.patches.len();
            &&& 0 <= n <= if c.index < c.count {
                c.count - c.index
            } else {
                0
            }
            &&& o.patches.skip(n) == rest->0.patches
            &&& forall|k: int|
                0 <= k < n ==> exists|i: int|
                    c.index <= i < c.count && Effect::Apply(#[trigger] o.patches[k])
                        == #[trigger] entry_effect(s, f, c.table, entry_at(f, c.start, i))
        }),
    decreases c.count - c.index,
{
    let o = table_outcome(s, f, c, rest)->0;
    if c.index < c.count && c.at() + 24 <= f.len() {
        law_rest_comes_last(s, f, c.next(), rest);
        let t = table_outcome(s, f, c.next(), rest)->0;
        let m = t.patches.len() - rest->0.patches.len();
        let rela = entry_at(f, c.start, c.index as int);
        let e = entry_effect(s, f, c.table, rela);
        let n = o.patches.len() - rest->0.patches.len();
        if let Effect::Apply(p) = e {
            assert(o.patches =~= seq![p] + t.patches);
            assert(o.patches.skip(n) =~= t.patches.skip(m));
        }
        assert forall|k: int| 0 <= k < n implies exists|i: int|
            c.index <= i < c.count && Effect::Apply(#[trigger] o.patches[k])
                == #[trigger] entry_effect(s, f, c.table, entry_at(f, c.start, i)) by {
            if e is Apply && k == 0 {
                let i = c.index as int;
                assert(Effect::Apply(o.patches[k]) == entry_effect(
                    s,
                    f,
                    c.table,
                    entry_at(f, c.start, i),
                ));
            } else {
                let j = if e is Apply {
                    k - 1
                } else {
                    k
                };
                assert(o.patches[k] == t.patches[j]);
                let i = choose|i: int|
                    c.index + 1 <= i < c.count && Effect::Apply(t.patches[j])
                        == #[trigger] entry_effect(s, f, c.table, entry_at(f, c.start, i));
                assert(Effect::Apply(o.patches[k]) == entry_effect(
                    s,
                    f,
                    c.table,
                    entry_at(f, c.start, i),
                ));
            }
        }
    } else {
        assert(o.patches.skip(0) =~= o.patches);
    }
}

/// A table of which no entry stops the relocation leads to what comes behind it.
pub proof fn law_table_passed(s: RelocState, f: Seq<u8>, c: Cursor, rest: Option<Outcome>)
    requires
        f.len() <= usize::MAX,
        c.start + c.count * 24 <= usize::MAX,
        forall|i: int|
            c.index <= i < c.count && c.start + i * 24 + 24 <= f.len() ==> {
                let e = #[trigger] entry_effect(s, f, c.table, entry_at(f, c.start, i));
                e is Nothing || e is Apply
            },
        rest is Some,
    ensures
        table_outcome(s, f, c, rest) matches Some(o) && o.result == rest->0.result,
    decreases c.count - c.index,
{
    if c.index < c.count && c.at() + 24 <= f.len() {
        let rela = entry_at(f, c.start, c.index as int);
        assert(entry_effect(s, f, c.table, rela) is Nothing || entry_effect(
            s,
            f,
            c.table,
            rela,
        ) is Apply);
        law_table_passed(s, f, c.next(), rest);
    }
}

/// Whether segment `k` is the first dynamic one.
pub open spec fn first_dynamic_at(ph: Seq<ProgramHeader>, k: int) -> bool {
    &&& 0 <= k < ph.len()
    &&& ph[k].kind == SegmentType::Dynamic
    &&& forall|j: int| 0 <= j < k ==> (#[trigger] ph[j]).kind != SegmentType::Dynamic
}

proof fn lemma_first_dynamic(ph: Seq<ProgramHeader>, i: int)
    requires
        0 <= i <= ph.len(),
    ensures
        i <= first_dynamic(ph, i) <= ph.len(),
        first_dynamic(ph, i) < ph.len() ==> ph[first_dynamic(ph, i)].kind == SegmentType::Dynamic,
        forall|j: int| i <= j < first_dynamic(ph, i) ==> (#[trigger] ph[j]).kind
            != SegmentType::Dynamic,
    decreases ph.len() - i,
{
    if i < ph.len() && ph[i].kind != SegmentType::Dynamic {
        lemma_first_dynamic(ph, i + 1);
    }
}

proof fn lemma_first_dynamic_at(ph: Seq<ProgramHeader>, k: int)
    ensures
        first_dynamic_at(ph, k) ==> first_dynamic(ph, 0) == k,
        (forall|j: int| 0 <= j < ph.len() ==> (#[trigger] ph[j]).kind != SegmentType::Dynamic)
            ==> first_dynamic(ph, 0) == ph.len(),
{
    lemma_first_dynamic(ph, 0);
    let f = first_dynamic(ph, 0);
    if first_dynamic_at(ph, k) {
        if f < k {
            assert(ph[f].kind != SegmentType::Dynamic);
        } else if k < f {
            assert(ph[k].kind != SegmentType::Dynamic);
        }
    }
    if f < ph.len() && (forall|j: int|
        0 <= j < ph.len() ==> (#[trigger] ph[j]).kind != SegmentType::Dynamic) {
        assert(ph[f].kind != SegmentType::Dynamic);
    }
}

/// A program is relocated on RISC-V alone, and only if it has a dynamic segment;
/// without that nothing is written. A dynamic segment that the file does not hold
/// is an error.
pub proof fn law_who_is_relocated(
    arch: Arch,
    base: usize,
    ph: Seq<ProgramHeader>,
    f: Seq<u8>,
    k: int,
)
    ensures
        arch != Arch::Riscv64 || (forall|j: int|
            0 <= j < ph.len() ==> (#[trigger] ph[j]).kind != SegmentType::Dynamic) ==> (
        relocation_outcome(arch, base, ph, f) matches Some(o) && o.patches.len() == 0
            && o.result is Ok),
        arch == Arch::Riscv64 && first_dynamic_at(ph, k) && f.len() < (ph[k].offset as usize) + (
        ph[k].file_size as usize) <= usize::MAX ==> (relocation_outcome(
            arch,
            base,
            ph,
            f,
        ) matches Some(o) && o.patches.len() == 0 && o.result == Err::<(), KernelError>(
            KernelError::InvalidData,
        )),
{
    lemma_first_dynamic_at(ph, k);
}

/// Every entry of the table at `DT_RELA` that has the type 3 and lies in the file
/// is applied where a program is relocated with success: among the writes is one
/// to the address at the entry's offset behind the load address, of the load
/// address plus the entry's addend, in two's complement.
pub proof fn law_relative_entries(
    base: usize,
    ph: Seq<ProgramHeader>,
    f: Seq<u8>,
    k: int,
    start: usize,
    i: int,
)
    requires
        usize::BITS == 64,
        first_dynamic_at(ph, k),
        relocation_outcome(Arch::Riscv64, base, ph, f) matches Some(o) && o.result is Ok,
        ({
            let info = dynamic_info(
                file_read(f, (ph[k].offset as usize) as int, (ph[k].file_size as usize) as int),
            );
            &&& info.rela_addr != 0
            &&& file_offset(info.rela_addr, ph) == Some(start)
            &&& 0 <= i
            &&& 24 * i + 24 <= info.rela_size
            &&& start + 24 * i + 24 <= f.len()
        }),
        le64(file_read(f, start + 24 * i, 24), 8) % 0x1_0000_0000 == 3,
    ensures
        ({
            let d = file_read(f, start + 24 * i, 24);
            exists|p: Patch| #[trigger]
                (relocation_outcome(Arch::Riscv64, base, ph, f)->0).patches.contains(p) && p.target
                    == base + le64(d, 0) && (p.value - (base + le64(d, 16)))
                    % 0x1_0000_0000_0000_0000 == 0
        }),
{
    lemma_first_dynamic_at(ph, k);
    let info = program_info(ph, f);
    let s = RelocState { base, ph, info, phase: finished(Ok(())) };
    let done = Some(Outcome { patches: Seq::empty(), result: Ok(()) });
    let plt = section_outcome(s, f, Table::Plt, info.jmprel_addr, info.jmprel_size, done);
    let c = first_entry(Table::Dyn, start, info.rela_size);
    let d = file_read(f, start + 24 * i, 24);
    let rela = entry_at(f, start, i);
    law_rela(d);
    law_relative(s, f, rela);
    assert(table_outcome(s, f, c, plt) is Some);
    lemma_no_overflow(s, f, c, plt, i);
    let p = entry_effect(s, f, Table::Dyn, rela)->0;
    law_no_entry_left_out(s, f, c, plt, i, p);
    let o = relocation_outcome(Arch::Riscv64, base, ph, f)->0;
    assert(o.patches.contains(p));
}

/// No entry of a table that lies in the file leaves the range, where the
/// relocation succeeds.
proof fn lemma_no_overflow(s: RelocState, f: Seq<u8>, c: Cursor, rest: Option<Outcome>, i: int)
    requires
        c.index <= i < c.count,
        c.start + i * 24 + 24 <= f.len(),
        table_outcome(s, f, c, rest) matches Some(o) && o.result is Ok,
    ensures
        entry_effect(s, f, c.table, entry_at(f, c.start, i)) is Nothing || entry_effect(
            s,
            f,
            c.table,
            entry_at(f, c.start, i),
        ) is Apply,
    decreases c.count - c.index,
{
    if i > c.index {
        assert(c.at() + 24 <= f.len());
        lemma_no_overflow(s, f, c.next(), rest, i);
    }
}

/// Every entry of the table at `DT_JMPREL` that has the type 5 and lies in the file
/// is applied where a program is relocated with success, if its symbol has a
/// value: among the writes is one to the address at the entry's offset behind the
/// load address, of the load address plus that value.
pub proof fn law_jump_slot_entries(
    base: usize,
    ph: Seq<ProgramHeader>,
    f: Seq<u8>,
    k: int,
    start: usize,
    symtab: usize,
    i: int,
)
    requires
        usize::BITS == 64,
        f.len() <= usize::MAX,
        first_dynamic_at(ph, k),
        relocation_outcome(Arch::Riscv64, base, ph, f) matches Some(o) && o.result is Ok,
        ({
            let info = dynamic_info(
                file_read(f, (ph[k].offset as usize) as int, (ph[k].file_size as usize) as int),
            );
            let sym = le64(file_read(f, start + 24 * i, 24), 8) / 0x1_0000_0000;
            &&& info.jmprel_addr != 0
            &&& file_offset(info.jmprel_addr, ph) == Some(start)
            &&& 0 <= i
            &&& 24 * i + 24 <= info.jmprel_size
            &&& start + 24 * i + 24 <= f.len()
            &&& info.symtab_addr != 0
            &&& info.strtab_addr != 0
            &&& lookup_fits(info.symtab_addr, ph)
            &&& file_offset(info.symtab_addr, ph) == Some(symtab)
            &&& symtab + 24 * sym + 24 <= f.len()
            &&& le64(file_read(f, symtab + 24 * sym, 24), 8) != 0
        }),
        le64(file_read(f, start + 24 * i, 24), 8) % 0x1_0000_0000 == 5,
    ensures
        ({
            let d = file_read(f, start + 24 * i, 24);
            let sym = le64(d, 8) / 0x1_0000_0000;
            let value = le64(file_read(f, symtab + 24 * sym, 24), 8);
            exists|p: Patch| #[trigger]
                (relocation_outcome(Arch::Riscv64, base, ph, f)->0).patches.contains(p) && p.target
                    == base + le64(d, 0) && p.value == base + value
        }),
{
    lemma_first_dynamic_at(ph, k);
    let info = program_info(ph, f);
    let s = RelocState { base, ph, info, phase: finished(Ok(())) };
    let done = Some(Outcome { patches: Seq::empty(), result: Ok(()) });
    let plt = section_outcome(s, f, Table::Plt, info.jmprel_addr, info.jmprel_size, done);
    let o = relocation_outcome(Arch::Riscv64, base, ph, f)->0;
    let d = file_read(f, start + 24 * i, 24);
    let rela = entry_at(f, start, i);
    law_rela(d);
    let c = first_entry(Table::Plt, start, info.jmprel_size);
    if info.rela_addr != 0 && info.rela_size != 0 {
        let first = file_offset(info.rela_addr, ph)->0;
        let b = first_entry(Table::Dyn, first, info.rela_size);
        assert(table_outcome(s, f, b, plt) is Some);
        law_rest_comes_last(s, f, b, plt);
        lemma_rest_contained(s, f, b, plt);
    }
    assert(plt is Some && plt->0.result is Ok);
    assert(forall|p: Patch| #[trigger] plt->0.patches.contains(p) ==> o.patches.contains(p));
    assert(table_outcome(s, f, c, done) is Some);
    lemma_no_overflow(s, f, c, done, i);
    let at = symbol_offset(symtab, rela.info);
    assert(at == symtab + 24 * (le64(d, 8) / 0x1_0000_0000));
    law_little_endian(file_read(f, at, 24), 8);
    assert(entry_effect(s, f, Table::Plt, rela) is Apply);
    let p = entry_effect(s, f, Table::Plt, rela)->0;
    law_jump_slot(s, f, rela, p);
    law_no_entry_left_out(s, f, c, done, i, p);
    assert(plt->0.patches.contains(p));
    assert(o.patches.contains(p));
}

proof fn lemma_rest_contained(s: RelocState, f: Seq<u8>, c: Cursor, rest: Option<Outcome>)
    requires
        table_outcome(s, f, c, rest) matches Some(o) && o.result is Ok,
    ensures
        rest is Some,
        forall|p: Patch| #[trigger]
            rest->0.patches.contains(p) ==> (table_outcome(s, f, c, rest)->0).patches.contains(p),
{
    law_rest_comes_last(s, f, c, rest);
    let o = table_outcome(s, f, c, rest)->0;
    let n = o.patches.len() - rest->0.patches.len();
    assert forall|p: Patch| #[trigger] rest->0.patches.contains(p) implies o.patches.contains(p) by {
        let j = choose|j: int| 0 <= j < rest->0.patches.len() && rest->0.patches[j] == p;
        assert(o.patches[n + j] == o.patches.skip(n)[j]);
    }
}

/// A read or a write that fails ends the relocation with its error, and a file
/// whose length cannot be told counts as empty.
pub proof fn law_relocation_fails(s: RelocState, e: KernelError, end: int)
    ensures
        ({
            let a = RelocAnswer::Written(Err(e));
            s.phase is Writing ==> s.accepts(a) && (s.after(a) matches Some(t) && t.phase
                == RelocPhase::Finished { result: Err(e) })
        }),
        ({
            let a = RelocAnswer::Data(Err(e));
            s.phase is DynData || s.phase is EntryData || s.phase is SymbolData ==> s.accepts(a) && (
            s.after(a) matches Some(t) && t.phase == RelocPhase::Finished { result: Err(e) })
        }),
        beyond(end, None) <==> end > 0,
        s.phase matches RelocPhase::Writing { patch, .. } ==> s.action() == (RelocAction::Write {
            patch,
        }),
        s.phase matches RelocPhase::Finished { result } ==> s.action() == (RelocAction::Finish {
            result,
        }),
{
}

/// The relocation of a program begins, on RISC-V and for a program with a dynamic
/// segment, with the question whether the file holds that segment; otherwise it is
/// over at once, with success.
pub proof fn law_relocation_begins(
    arch: Arch,
    base: usize,
    ph: Vec<ProgramHeader>,
    k: int,
    r: Relocator,
)
    requires
        call_ensures(apply_relocations, (arch, base, ph), r),
    ensures
        r@.base == base,
        r@.ph == ph@,
        arch != Arch::Riscv64 || (forall|j: int|
            0 <= j < ph@.len() ==> (#[trigger] ph@[j]).kind != SegmentType::Dynamic)
            ==> r@.action() == (RelocAction::Finish { result: Ok(()) }),
        arch == Arch::Riscv64 && first_dynamic_at(ph@, k) ==> r@.action() == RelocAction::FileLen
            && r@.phase == (RelocPhase::DynLen {
            offset: ph@[k].offset as usize,
            size: ph@[k].file_size as usize,
        }),
{
    lemma_first_dynamic_at(ph@, k);
}

/// The entries of a table have their effects in order: the write of an entry comes
/// before those of the entries behind it. An entry that cannot be looked up ends
/// the relocation with `EINVAL` and with no more writes, and the first entry that
/// the file does not hold ends the table.
pub proof fn law_entries_in_order(s: RelocState, f: Seq<u8>, c: Cursor, rest: Option<Outcome>)
    requires
        c.index < c.count,
        f.len() <= usize::MAX,
    ensures
        ({
            let e = entry_effect(s, f, c.table, entry_at(f, c.start, c.index as int));
            let o = table_outcome(s, f, c, rest);
            let tail = table_outcome(
                s,
                f,
                Cursor {
                    table: c.table,
                    start: c.start,
                    index: (c.index + 1) as usize,
                    count: c.count,
                },
                rest,
            );
            let end = c.start + c.index * 24 + 24;
            &&& f.len() < end <= usize::MAX ==> o == rest
            &&& end <= f.len() ==> match e {
                Effect::Apply(p) => match (o, tail) {
                    (Some(a), Some(b)) => a.patches == seq![p] + b.patches && a.result == b.result,
                    (None, None) => true,
                    _ => false,
                },
                Effect::Nothing => o == tail,
                Effect::Reject => o matches Some(a) && a.patches.len() == 0 && a.result == Err::<
                    (),
                    KernelError,
                >(KernelError::InvalidData),
                Effect::Overflow => o is None,
            }
        }),
{
}

/// A table without an address or without a size does not count, and one that no
/// loaded segment holds ends the relocation with `EINVAL`.
pub proof fn law_table_found(
    s: RelocState,
    f: Seq<u8>,
    table: Table,
    addr: u64,
    size: u64,
    rest: Option<Outcome>,
)
    ensures
        addr == 0 || size == 0 ==> section_outcome(s, f, table, addr, size, rest) == rest,
        addr != 0 && size != 0 && lookup_fits(addr, s.ph) && file_offset(addr, s.ph) is None ==> (
        section_outcome(s, f, table, addr, size, rest) matches Some(o) && o.patches.len() == 0
            && o.result == Err::<(), KernelError>(KernelError::InvalidData)),
{
}

/// A relocation takes what it asked for: any length of the file, as many bytes as
/// it asked to have read, and that a write succeeded.
pub proof fn law_relocation_takes(s: RelocState, n: Option<u64>, d: Seq<u8>)
    ensures
        s.action() == RelocAction::FileLen ==> s.accepts(RelocAnswer::Len(n)),
        s.action() matches RelocAction::Read { len, .. } && d.len() == len ==> s.accepts(
            RelocAnswer::Data(Ok(d)),
        ),
        s.action() is Write ==> s.accepts(RelocAnswer::Written(Ok(()))),
{
}

} // verus!
