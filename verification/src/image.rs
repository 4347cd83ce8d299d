//! Program files as the loader keeps them: their headers, read once.

use vstd::prelude::*;
use vstd::slice::{slice_subrange, slice_to_vec};
use crate::elf::{
    elf_header,
    header_table_range,
    is_elf,
    parse_header,
    parse_program_headers,
    program_headers,
    table_end,
    table_readable,
    ElfHeader,
    ProgramHeader,
};
use crate::error::{Fault, KernelError};

verus! {

/// How much of a file is read to find its headers.
pub const HEAD_SIZE: usize = 4096;

/// The headers of a program file, as a value of the specification.
pub ghost struct ElfImage {
    /// Which file it is.
    pub location: u64,
    /// The start of the file.
    pub data: Seq<u8>,
    /// The program header table.
    pub table: Seq<u8>,
}

impl ElfImage {
    /// The file header.
    pub open spec fn header(self) -> ElfHeader {
        elf_header(self.data)
    }

    /// The program headers.
    pub open spec fn ph(self) -> Seq<ProgramHeader> {
        program_headers(self.header(), self.table)
    }

    /// Whether the file is an ELF file with a readable program header table.
    pub open spec fn valid(self) -> bool {
        is_elf(self.data) && table_readable(self.header(), self.table.len() as int)
    }
}

/// The headers of a program file.
pub struct ElfCacheEntry {
    pub location: u64,
    pub data: Vec<u8>,
    pub table: Vec<u8>,
    pub header: ElfHeader,
    pub ph: Vec<ProgramHeader>,
}

impl View for ElfCacheEntry {
    type V = ElfImage;

    open spec fn view(&self) -> ElfImage {
        ElfImage { location: self.location, data: self.data@, table: self.table@ }
    }
}

impl ElfCacheEntry {
    /// Whether the parsed headers are those of the bytes.
    pub open spec fn wf(self) -> bool {
        &&& self@.valid()
        &&& self.header == self@.header()
        &&& self.ph@ == self@.ph()
    }
}

/// A program file whose program header table has yet to be read.
pub struct PendingEntry {
    pub location: u64,
    pub data: Vec<u8>,
    /// Where the table starts in the file.
    pub start: u64,
    /// The table's size.
    pub len: usize,
}

/// What came of reading the start of a file.
pub enum HeadRead {
    /// The file could not be read.
    Failed(KernelError),
    /// The file is not an ELF file; this is how it starts.
    NotElf(Vec<u8>),
    /// The headers.
    Loaded(ElfCacheEntry),
    /// The program header table must be read from the file.
    ReadTable(PendingEntry),
}

/// What came of reading a program header table.
pub enum TableRead {
    /// The table could not be read; this is how the file starts.
    NotElf(Vec<u8>),
    /// The headers.
    Loaded(ElfCacheEntry),
}

/// Whether the program header table ends within the bytes that were read.
pub open spec fn table_in_head(data: Seq<u8>) -> bool {
    (table_end(elf_header(data)) as u64) as usize <= data.len()
}

/// The program header table in the bytes that were read.
pub open spec fn head_table(data: Seq<u8>) -> Seq<u8> {
    let h = elf_header(data);
    data.subrange((h.ph_offset as usize) as int, (table_end(h) as u64) as usize as int)
}

/// Whether the program header table can be read in place: it does not end
/// before it starts, it starts aligned, and its entries are readable.
pub open spec fn head_table_readable(data: Seq<u8>) -> bool {
    let h = elf_header(data);
    let align: int = if h.class64 { 8 } else { 4 };
    let n = ((table_end(h) as u64) as usize) - (h.ph_offset as usize);
    &&& n >= 0
    &&& table_readable(h, n)
    &&& n >= h.ph_entry_size ==> h.ph_offset as int % align == 0
}

/// The first bytes of `buf`, up to `read`.
pub open spec fn truncated(buf: Seq<u8>, read: usize) -> Seq<u8> {
    if read <= buf.len() {
        buf.take(read as int)
    } else {
        buf
    }
}

/// Whether the entries of a table of `n` bytes can be read.
fn is_table_readable(h: &ElfHeader, n: usize) -> (r: bool)
    ensures
        r == table_readable(*h, n as int),
{
    let size: usize = if h.class64 { 56 } else { 32 };
    let align: usize = if h.class64 { 8 } else { 4 };
    let entry = h.ph_entry_size as usize;
    entry > 0 && (n < entry || entry >= size) && (n < 2 * entry || entry % align == 0)
}

/// Puts a file's headers together.
fn make_entry(location: u64, data: Vec<u8>, table: Vec<u8>, header: ElfHeader) -> (r: ElfCacheEntry)
    requires
        is_elf(data@),
        header == elf_header(data@),
        table_readable(elf_header(data@), table@.len() as int),
    ensures
        r.wf(),
        r@ == (ElfImage { location, data: data@, table: table@ }),
{
    let ph = parse_program_headers(data.as_slice(), table.as_slice());
    ElfCacheEntry { location, data, table, header, ph }
}

impl ElfCacheEntry {
    /// Takes the start of the file at `location`: a buffer, and how many bytes
    /// of it were read. A file that is no ELF file is handed back as it
    /// starts. The program header table is taken from the start of the file
    /// if it ends there.
    pub fn load(location: u64, head: Result<(Vec<u8>, usize), KernelError>) -> (r: Result<
        HeadRead,
        Fault,
    >)
        ensures
            match head {
                Err(e) => r == Ok::<HeadRead, Fault>(HeadRead::Failed(e)),
                Ok((buf, read)) => {
                    let data = truncated(buf@, read);
                    let h = elf_header(data);
                    if !is_elf(data) {
                        r matches Ok(HeadRead::NotElf(d)) && d@ == data
                    } else if table_end(h) > u64::MAX {
                        r == Err::<HeadRead, Fault>(Fault::Overflow)
                    } else if !table_in_head(data) {
                        r matches Ok(HeadRead::ReadTable(p)) && p.location == location && p.data@
                            == data && p.start == h.ph_offset && p.len == ((table_end(h)
                            - h.ph_offset) as u64) as usize
                    } else if !head_table_readable(data) {
                        r == Err::<HeadRead, Fault>(Fault::ProgramHeaders)
                    } else {
                        r matches Ok(HeadRead::Loaded(e)) && e.wf() && e@ == (ElfImage {
                            location,
                            data,
                            table: head_table(data),
                        })
                    }
                },
            },
    {
        let (mut data, read) = match head {
            Ok(h) => h,
            Err(e) => return Ok(HeadRead::Failed(e)),
        };
        let ghost buf = data@;
        data.truncate(read);
        assert(data@ =~= truncated(buf, read));
        let h = match parse_header(data.as_slice()) {
            Some(h) => h,
            None => return Ok(HeadRead::NotElf(data)),
        };
        assert(h.ph_entry_size * h.ph_count <= 0xffff * 0xffff) by (nonlinear_arith)
            requires
                h.ph_entry_size <= 0xffff,
                h.ph_count <= 0xffff,
        ;
        let size = h.ph_entry_size as u64 * h.ph_count as u64;
        if h.ph_offset > u64::MAX - size {
            return Err(Fault::Overflow);
        }
        let (start, end) = header_table_range(data.as_slice());
        if end as usize > data.len() {
            return Ok(
                HeadRead::ReadTable(
                    PendingEntry { location, data, start, len: (end - start) as usize },
                ),
            );
        }
        let (from, to) = (start as usize, end as usize);
        let align: u64 = if h.class64 { 8 } else { 4 };
        if from > to || !is_table_readable(&h, to - from) || (to - from >= h.ph_entry_size as usize
            && start % align != 0) {
            return Err(Fault::ProgramHeaders);
        }
        let table = slice_to_vec(slice_subrange(data.as_slice(), from, to));
        Ok(HeadRead::Loaded(make_entry(location, data, table, h)))
    }
}

impl PendingEntry {
    /// Takes the program header table. A file whose table cannot be read counts
    /// as no ELF file.
    pub fn finish(self, table: Result<Vec<u8>, KernelError>) -> (r: Result<TableRead, Fault>)
        requires
            is_elf(self.data@),
            table matches Ok(t) ==> t@.len() == self.len,
        ensures
            match table {
                Err(_) => r matches Ok(TableRead::NotElf(d)) && d@ == self.data@,
                Ok(t) => if table_readable(elf_header(self.data@), t@.len() as int) {
                    r matches Ok(TableRead::Loaded(e)) && e.wf() && e@ == (ElfImage {
                        location: self.location,
                        data: self.data@,
                        table: t@,
                    })
                } else {
                    r == Err::<TableRead, Fault>(Fault::ProgramHeaders)
                },
            },
    {
        let t = match table {
            Ok(t) => t,
            Err(_) => return Ok(TableRead::NotElf(self.data)),
        };
        let h = match parse_header(self.data.as_slice()) {
            Some(h) => h,
            None => return Ok(TableRead::NotElf(self.data)),
        };
        if !is_table_readable(&h, t.len()) {
            return Err(Fault::ProgramHeaders);
        }
        Ok(TableRead::Loaded(make_entry(self.location, self.data, t, h)))
    }
}

// ---------- Laws ----------

/// Of a buffer, the bytes that were read are kept, and no others.
pub proof fn law_truncated(buf: Seq<u8>, read: usize)
    ensures
        truncated(buf, read).len() == if read < buf.len() {
            read as int
        } else {
            buf.len() as int
        },
        forall|i: int|
            0 <= i < truncated(buf, read).len() ==> #[trigger] truncated(buf, read)[i] == buf[i],
{
}

/// The program header table starts at the offset of the file header and has as many
/// entries, of the size, as the file header counts. If it ends in the part of the
/// file that was read, it is taken from there, byte for byte; it can be taken
/// exactly if its entries can be read and it starts aligned.
pub proof fn law_head_table(data: Seq<u8>)
    requires
        usize::BITS == 64,
        elf_header(data).ph_offset + elf_header(data).ph_entry_size * elf_header(data).ph_count
            <= u64::MAX,
    ensures
        ({
            let h = elf_header(data);
            let n = h.ph_entry_size * h.ph_count;
            let align: int = if h.class64 { 8 } else { 4 };
            &&& table_end(h) == h.ph_offset + n
            &&& table_in_head(data) <==> h.ph_offset + n <= data.len()
            &&& table_in_head(data) ==> {
                &&& head_table(data).len() == n
                &&& forall|i: int|
                    0 <= i < n ==> #[trigger] head_table(data)[i] == data[h.ph_offset + i]
                &&& head_table_readable(data) <==> table_readable(h, n) && (n >= h.ph_entry_size
                    ==> h.ph_offset as int % align == 0)
            }
        }),
{
    let h = elf_header(data);
    assert(h.ph_entry_size * h.ph_count >= 0) by (nonlinear_arith)
        requires
            h.ph_entry_size >= 0,
            h.ph_count >= 0,
    ;
}

/// The headers of a file are those that its bytes hold.
pub proof fn law_image(e: ElfImage)
    ensures
        e.header() == elf_header(e.data),
        e.ph() == program_headers(elf_header(e.data), e.table),
        e.valid() <==> is_elf(e.data) && table_readable(elf_header(e.data), e.table.len() as int),
{
}

/// What comes of the start of a file: the error of reading it; its bytes, if they
/// are no ELF file; its headers, with the file's number, if the bytes hold the
/// program header table; or else the place of the table in the file.
pub proof fn law_head_read(
    location: u64,
    head: Result<(Vec<u8>, usize), KernelError>,
    r: Result<HeadRead, Fault>,
)
    requires
        usize::BITS == 64,
        call_ensures(ElfCacheEntry::load, (location, head), r),
    ensures
        head matches Err(e) ==> r == Ok::<HeadRead, Fault>(HeadRead::Failed(e)),
        head matches Ok((buf, read)) ==> {
            let n = if read < buf@.len() {
                read as int
            } else {
                buf@.len() as int
            };
            let data = buf@.subrange(0, n);
            let h = elf_header(data);
            let size = h.ph_entry_size * h.ph_count;
            &&& !is_elf(data) ==> (r matches Ok(HeadRead::NotElf(d)) && d@ == data)
            &&& is_elf(data) && h.ph_offset + size > u64::MAX ==> r == Err::<HeadRead, Fault>(
                Fault::Overflow,
            )
            &&& is_elf(data) && data.len() < h.ph_offset + size <= u64::MAX ==> (
            r matches Ok(HeadRead::ReadTable(p)) && p.location == location && p.data@ == data
                && p.start == h.ph_offset && p.len == size)
            &&& is_elf(data) && h.ph_offset + size <= data.len() && h.ph_offset + size <= u64::MAX
                ==> match r {
                Ok(HeadRead::Loaded(e)) => e@.location == location && e@.data == data && e@.table
                    == data.subrange(h.ph_offset as int, h.ph_offset + size) && e.wf(),
                Err(f) => f == Fault::ProgramHeaders && !head_table_readable(data),
                _ => false,
            }
        },
{
    if let Ok((buf, read)) = head {
        let n = if read < buf@.len() {
            read as int
        } else {
            buf@.len() as int
        };
        let data = buf@.subrange(0, n);
        assert(truncated(buf@, read) =~= data);
        let h = elf_header(data);
        assert(0 <= h.ph_entry_size * h.ph_count <= 0xffff * 0xffff) by (nonlinear_arith)
            requires
                0 <= h.ph_entry_size <= 0xffff,
                0 <= h.ph_count <= 0xffff,
        ;
        if h.ph_offset + h.ph_entry_size * h.ph_count <= u64::MAX {
            law_head_table(data);
        }
    }
}

/// The program header table that was read for a file goes with the start of the
/// file; a file whose table cannot be read from the disk counts as no ELF file.
pub proof fn law_table_read(
    p: PendingEntry,
    table: Result<Vec<u8>, KernelError>,
    r: Result<TableRead, Fault>,
)
    requires
        call_ensures(PendingEntry::finish, (p, table), r),
    ensures
        table is Err ==> (r matches Ok(TableRead::NotElf(d)) && d@ == p.data@),
        table matches Ok(t) ==> match r {
            Ok(TableRead::Loaded(e)) => e@.location == p.location && e@.data == p.data@ && e@.table
                == t@ && e.wf(),
            Err(f) => f == Fault::ProgramHeaders && !table_readable(
                elf_header(p.data@),
                t@.len() as int,
            ),
            _ => false,
        },
{
}

} // verus!
