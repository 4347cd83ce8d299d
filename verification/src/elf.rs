//! ELF headers: what they hold, and the outside parser that reads them.
//!
//! The bytes of a file are parsed by the crates `xmas_elf` and
//! `kernel_elf_parser`. The functions marked `external_body` make those calls
//! and hand plain values back; their contracts say, over the file's bytes,
//! what those crates return on the little-endian targets of the kernel.
//! Both crates read headers in place and insist on aligned memory, so each
//! call gets a copy of its input that starts at a multiple of eight.

use vstd::prelude::*;
use kernel_elf_parser::{ELFHeadersBuilder, ELFParser};
use xmas_elf::program::{Flags, Type};
use zerocopy::IntoBytes;
use crate::bytes::{le16, le32, le64};

verus! {

/// What a segment is for.
#[derive(Clone, Copy, PartialEq, Eq, Structural, Debug)]
pub enum SegmentType {
    /// Mapped into memory.
    Load,
    /// Information for dynamic linking.
    Dynamic,
    /// The path of the interpreter.
    Interp,
    /// Anything else.
    Other,
}

/// An entry of the program header table.
#[derive(Clone, Copy, PartialEq, Eq, Structural, Debug)]
pub struct ProgramHeader {
    pub kind: SegmentType,
    pub flags: u32,
    pub offset: u64,
    pub virtual_addr: u64,
    pub file_size: u64,
    pub mem_size: u64,
}

/// The fields of an ELF file header that loading depends on.
#[derive(Clone, Copy, PartialEq, Eq, Structural, Debug)]
pub struct ElfHeader {
    /// Whether the file is of the 64-bit class.
    pub class64: bool,
    /// Whether the file is a shared object: it can be loaded anywhere.
    pub shared_object: bool,
    pub entry: u64,
    pub ph_offset: u64,
    pub ph_entry_size: u16,
    pub ph_count: u16,
}

/// Whether `d` starts with an ELF header of the 32-bit or the 64-bit class.
pub open spec fn is_elf(d: Seq<u8>) -> bool {
    &&& d.len() >= 16
    &&& d[0] == 0x7f
    &&& d[1] == 0x45
    &&& d[2] == 0x4c
    &&& d[3] == 0x46
    &&& (d[4] == 1 && d.len() >= 52) || (d[4] == 2 && d.len() >= 64)
}

/// The header that `d` starts with.
pub open spec fn elf_header(d: Seq<u8>) -> ElfHeader {
    if d[4] == 2 {
        ElfHeader {
            class64: true,
            shared_object: le16(d, 16) == 3,
            entry: le64(d, 24) as u64,
            ph_offset: le64(d, 32) as u64,
            ph_entry_size: le16(d, 54) as u16,
            ph_count: le16(d, 56) as u16,
        }
    } else {
        ElfHeader {
            class64: false,
            shared_object: le16(d, 16) == 3,
            entry: le32(d, 24) as u64,
            ph_offset: le32(d, 28) as u64,
            ph_entry_size: le16(d, 42) as u16,
            ph_count: le16(d, 44) as u16,
        }
    }
}

/// What the type field of a program header stands for.
pub open spec fn segment_type(p_type: int) -> SegmentType {
    if p_type == 1 {
        SegmentType::Load
    } else if p_type == 2 {
        SegmentType::Dynamic
    } else if p_type == 3 {
        SegmentType::Interp
    } else {
        SegmentType::Other
    }
}

/// The program header whose bytes start at `at`.
pub open spec fn program_header(class64: bool, t: Seq<u8>, at: int) -> ProgramHeader {
    if class64 {
        ProgramHeader {
            kind: segment_type(le32(t, at)),
            flags: le32(t, at + 4) as u32,
            offset: le64(t, at + 8) as u64,
            virtual_addr: le64(t, at + 16) as u64,
            file_size: le64(t, at + 32) as u64,
            mem_size: le64(t, at + 40) as u64,
        }
    } else {
        ProgramHeader {
            kind: segment_type(le32(t, at)),
            flags: le32(t, at + 24) as u32,
            offset: le32(t, at + 4) as u64,
            virtual_addr: le32(t, at + 8) as u64,
            file_size: le32(t, at + 16) as u64,
            mem_size: le32(t, at + 20) as u64,
        }
    }
}

/// The program headers in the table `t`: one per whole entry.
pub open spec fn program_headers(h: ElfHeader, t: Seq<u8>) -> Seq<ProgramHeader> {
    Seq::new(
        t.len() / (h.ph_entry_size as nat),
        |i: int| program_header(h.class64, t, i * h.ph_entry_size),
    )
}

/// Whether a table of `n` bytes can be read: entries have a size, one that
/// holds a header, and each entry starts aligned.
pub open spec fn table_readable(h: ElfHeader, n: int) -> bool {
    let size: int = if h.class64 { 56 } else { 32 };
    let align: int = if h.class64 { 8 } else { 4 };
    &&& h.ph_entry_size > 0
    &&& n >= h.ph_entry_size ==> h.ph_entry_size >= size
    &&& n >= 2 * h.ph_entry_size ==> h.ph_entry_size as int % align == 0
}

/// Where the program header table ends in the file.
pub open spec fn table_end(h: ElfHeader) -> int {
    h.ph_offset + h.ph_entry_size * h.ph_count
}

/// The address that a file is loaded at: its bias if it is a shared object.
pub open spec fn load_base(h: ElfHeader, bias: usize) -> usize {
    if h.shared_object {
        bias
    } else {
        0
    }
}

/// The address of the entry point of a file that is loaded at `base`.
pub open spec fn entry_address(h: ElfHeader, base: usize) -> int {
    (h.entry as usize) + base
}

/// Whether the segment `p` holds the byte of the file at offset `at`.
pub open spec fn covers(p: ProgramHeader, at: u64) -> bool {
    p.offset <= at < p.offset + p.file_size
}

/// The index of the first segment in `ph`, from `i` on, that holds the byte
/// of the file at offset `at`; the number of segments if none does.
pub open spec fn first_cover(ph: Seq<ProgramHeader>, at: u64, i: int) -> int
    decreases ph.len() - i,
{
    if i >= ph.len() || covers(ph[i], at) {
        i
    } else {
        first_cover(ph, at, i + 1)
    }
}

/// The index of the first segment that holds the start of the program header
/// table.
pub open spec fn headers_segment(h: ElfHeader, ph: Seq<ProgramHeader>) -> int {
    first_cover(ph, (h.ph_offset as usize) as u64, 0)
}

/// The address of the program header table of a file that is loaded at
/// `base`: where the first segment that holds its start is mapped.
pub open spec fn headers_address(h: ElfHeader, ph: Seq<ProgramHeader>, base: usize) -> int {
    let p = ph[headers_segment(h, ph)];
    (h.ph_offset as usize) - (p.offset as usize) + (p.virtual_addr as usize) + base
}

/// Whether the program header table is mapped and its address can be
/// computed: no segment up to the one that holds the table's start ends
/// beyond the 64-bit range, and the address fits in a word.
pub open spec fn headers_mapped(h: ElfHeader, ph: Seq<ProgramHeader>, base: usize) -> bool {
    let k = headers_segment(h, ph);
    &&& k < ph.len()
    &&& forall|j: int| 0 <= j <= k ==> (#[trigger] ph[j]).offset + ph[j].file_size <= u64::MAX
    &&& (h.ph_offset as usize) >= (ph[k].offset as usize)
    &&& headers_address(h, ph, base) <= usize::MAX
}

/// The auxiliary vector entries that describe a file loaded at `base`, by
/// their numbers in the binary interface: program headers (their address,
/// entry size and count), page size, entry point and, for a program with an
/// interpreter, the address that the interpreter is loaded at.
pub open spec fn image_auxv(
    h: ElfHeader,
    ph: Seq<ProgramHeader>,
    base: usize,
    page_size: usize,
    interp_base: Option<usize>,
) -> Seq<(usize, usize)> {
    let image = seq![
        (3usize, headers_address(h, ph, base) as usize),
        (4usize, h.ph_entry_size as usize),
        (5usize, h.ph_count as usize),
        (6usize, page_size),
        (9usize, entry_address(h, base) as usize),
    ];
    match interp_base {
        Some(b) => image.push((7usize, b)),
        None => image,
    }
}

/// Reads the file header, by `xmas_elf::header::parse_header`, the parse that
/// `kernel_elf_parser::ELFHeadersBuilder::new` makes. Trusted: there is a
/// header exactly if `is_elf` holds, and its fields are those at the offsets
/// that `elf_header` gives.
#[verifier::external_body]
pub(crate) fn parse_header(data: &[u8]) -> (r: Option<ElfHeader>)
    ensures
        r == (if is_elf(data@) { Some(elf_header(data@)) } else { None::<ElfHeader> }),
{
    let mut words = vec![0u64; data.len()];
    words.as_mut_bytes()[..data.len()].copy_from_slice(data);
    let h = xmas_elf::header::parse_header(&words.as_bytes()[..data.len()]).ok()?;
    Some(ElfHeader {
        class64: matches!(h.pt1.class(), xmas_elf::header::Class::SixtyFour),
        shared_object: matches!(h.pt2.type_().as_type(), xmas_elf::header::Type::SharedObject),
        entry: h.pt2.entry_point(),
        ph_offset: h.pt2.ph_offset(),
        ph_entry_size: h.pt2.ph_entry_size(),
        ph_count: h.pt2.ph_count(),
    })
}

/// Where the program header table lies in the file, by
/// `kernel_elf_parser::ELFHeadersBuilder::ph_range`. Trusted: the range starts
/// at the table's offset and spans as many entries as the header counts.
#[verifier::external_body]
pub(crate) fn header_table_range(data: &[u8]) -> (r: (u64, u64))
    requires
        is_elf(data@),
        table_end(elf_header(data@)) <= u64::MAX,
    ensures
        r.0 == elf_header(data@).ph_offset,
        r.1 == table_end(elf_header(data@)),
{
    let mut words = vec![0u64; data.len()];
    words.as_mut_bytes()[..data.len()].copy_from_slice(data);
    let input = &words.as_bytes()[..data.len()];
    let range = ELFHeadersBuilder::new(input).unwrap().ph_range();
    (range.start, range.end)
}

/// The types of the segments in a program header table, by
/// `kernel_elf_parser::ELFHeadersBuilder::build` and
/// `xmas_elf::program::ProgramHeader64::get_type`. Trusted: one per whole
/// entry of the table, each that of `program_headers`.
#[verifier::external_body]
fn segment_types(data: &[u8], table: &[u8]) -> (r: Vec<SegmentType>)
    requires
        is_elf(data@),
        table_readable(elf_header(data@), table@.len() as int),
    ensures
        r@ == program_headers(elf_header(data@), table@).map_values(|p: ProgramHeader| p.kind),
{
    let (n, m) = (data.len(), table.len());
    let (mut a, mut b) = (vec![0u64; n], vec![0u64; m]);
    a.as_mut_bytes()[..n].copy_from_slice(data);
    b.as_mut_bytes()[..m].copy_from_slice(table);
    let builder = ELFHeadersBuilder::new(&a.as_bytes()[..n]).unwrap();
    let headers = builder.build(&b.as_bytes()[..m]).unwrap();
    headers.ph.iter().map(|p| match p.get_type() {
        Ok(Type::Load) => SegmentType::Load,
        Ok(Type::Dynamic) => SegmentType::Dynamic,
        Ok(Type::Interp) => SegmentType::Interp,
        _ => SegmentType::Other,
    }).collect()
}

/// The flags, file offset, address, file size and memory size of each segment
/// in a program header table, by `kernel_elf_parser::ELFHeadersBuilder::build`.
/// Trusted: one tuple per whole entry of the table, with the fields of
/// `program_headers`.
#[verifier::external_body]
fn segment_fields(data: &[u8], table: &[u8]) -> (r: Vec<(u32, u64, u64, u64, u64)>)
    requires
        is_elf(data@),
        table_readable(elf_header(data@), table@.len() as int),
    ensures
        r@ == program_headers(elf_header(data@), table@).map_values(
            |p: ProgramHeader| (p.flags, p.offset, p.virtual_addr, p.file_size, p.mem_size),
        ),
{
    let (n, m) = (data.len(), table.len());
    let (mut a, mut b) = (vec![0u64; n], vec![0u64; m]);
    a.as_mut_bytes()[..n].copy_from_slice(data);
    b.as_mut_bytes()[..m].copy_from_slice(table);
    let builder = ELFHeadersBuilder::new(&a.as_bytes()[..n]).unwrap();
    let headers = builder.build(&b.as_bytes()[..m]).unwrap();
    headers.ph.iter()
        .map(|p| (p.flags.0, p.offset, p.virtual_addr, p.file_size, p.mem_size)).collect()
}

/// The address that a file is loaded at, by `kernel_elf_parser::ELFParser`'s
/// `new` and `base`. Trusted: `new` accepts every file, and the base is the
/// bias for a shared object and zero for any other file.
#[verifier::external_body]
pub(crate) fn image_base(data: &[u8], table: &[u8], bias: usize) -> (r: Option<usize>)
    requires
        is_elf(data@),
        table_readable(elf_header(data@), table@.len() as int),
    ensures
        r == Some(load_base(elf_header(data@), bias)),
{
    let (n, m) = (data.len(), table.len());
    let (mut a, mut b) = (vec![0u64; n], vec![0u64; m]);
    a.as_mut_bytes()[..n].copy_from_slice(data);
    b.as_mut_bytes()[..m].copy_from_slice(table);
    let builder = ELFHeadersBuilder::new(&a.as_bytes()[..n]).unwrap();
    let headers = builder.build(&b.as_bytes()[..m]).unwrap();
    Some(ELFParser::new(&headers, bias).ok()?.base())
}

/// The address of the entry point, by `kernel_elf_parser::ELFParser::entry`.
/// Trusted: the entry point of the header, shifted by the base.
#[verifier::external_body]
pub(crate) fn image_entry(data: &[u8], table: &[u8], bias: usize) -> (r: usize)
    requires
        is_elf(data@),
        table_readable(elf_header(data@), table@.len() as int),
        entry_address(elf_header(data@), load_base(elf_header(data@), bias)) <= usize::MAX,
    ensures
        r == entry_address(elf_header(data@), load_base(elf_header(data@), bias)),
{
    let (n, m) = (data.len(), table.len());
    let (mut a, mut b) = (vec![0u64; n], vec![0u64; m]);
    a.as_mut_bytes()[..n].copy_from_slice(data);
    b.as_mut_bytes()[..m].copy_from_slice(table);
    let builder = ELFHeadersBuilder::new(&a.as_bytes()[..n]).unwrap();
    let headers = builder.build(&b.as_bytes()[..m]).unwrap();
    ELFParser::new(&headers, bias).unwrap().entry()
}

/// The auxiliary vector entries of a file, each with its number, by
/// `kernel_elf_parser::ELFParser::aux_vector`. Trusted: those of `image_auxv`,
/// in that order.
#[verifier::external_body]
pub(crate) fn image_aux_vector(
    data: &[u8],
    table: &[u8],
    bias: usize,
    page_size: usize,
    interp_base: Option<usize>,
) -> (r: Vec<(usize, usize)>)
    requires
        is_elf(data@),
        table_readable(elf_header(data@), table@.len() as int),
        headers_mapped(
            elf_header(data@),
            program_headers(elf_header(data@), table@),
            load_base(elf_header(data@), bias),
        ),
        entry_address(elf_header(data@), load_base(elf_header(data@), bias)) <= usize::MAX,
    ensures
        r@ == image_auxv(
            elf_header(data@),
            program_headers(elf_header(data@), table@),
            load_base(elf_header(data@), bias),
            page_size,
            interp_base,
        ),
{
    let (n, m) = (data.len(), table.len());
    let (mut a, mut b) = (vec![0u64; n], vec![0u64; m]);
    a.as_mut_bytes()[..n].copy_from_slice(data);
    b.as_mut_bytes()[..m].copy_from_slice(table);
    let builder = ELFHeadersBuilder::new(&a.as_bytes()[..n]).unwrap();
    let headers = builder.build(&b.as_bytes()[..m]).unwrap();
    let parser = ELFParser::new(&headers, bias).unwrap();
    parser.aux_vector(page_size, interp_base).map(|e| (e.get_type() as usize, e.value())).collect()
}

/// Whether a segment is readable, by `xmas_elf::program::Flags::is_read`.
/// Trusted: the bit of value 4 is set.
#[verifier::external_body]
pub(crate) fn flags_read(flags: u32) -> (r: bool)
    ensures
        r == (flags & 4 == 4),
{
    Flags(flags).is_read()
}

/// Whether a segment is writable, by `xmas_elf::program::Flags::is_write`.
/// Trusted: the bit of value 2 is set.
#[verifier::external_body]
pub(crate) fn flags_write(flags: u32) -> (r: bool)
    ensures
        r == (flags & 2 == 2),
{
    Flags(flags).is_write()
}

/// Whether a segment is executable, by
/// `xmas_elf::program::Flags::is_execute`. Trusted: the bit of value 1 is set.
#[verifier::external_body]
pub(crate) fn flags_execute(flags: u32) -> (r: bool)
    ensures
        r == (flags & 1 == 1),
{
    Flags(flags).is_execute()
}

/// Reads the program header table of the file that starts with `data`.
pub fn parse_program_headers(data: &[u8], table: &[u8]) -> (r: Vec<ProgramHeader>)
    requires
        is_elf(data@),
        table_readable(elf_header(data@), table@.len() as int),
    ensures
        r@ == program_headers(elf_header(data@), table@),
{
    let kinds = segment_types(data, table);
    let fields = segment_fields(data, table);
    let ghost expected = program_headers(elf_header(data@), table@);
    let mut r: Vec<ProgramHeader> = Vec::new();
    let mut i: usize = 0;
    while i < kinds.len()
        invariant
            i <= kinds.len(),
            kinds@ == expected.map_values(|p: ProgramHeader| p.kind),
            fields@ == expected.map_values(
                |p: ProgramHeader| (p.flags, p.offset, p.virtual_addr, p.file_size, p.mem_size),
            ),
            r@ == expected.take(i as int),
        decreases kinds.len() - i,
    {
        let (flags, offset, virtual_addr, file_size, mem_size) = fields[i];
        r.push(ProgramHeader { kind: kinds[i], flags, offset, virtual_addr, file_size, mem_size });
        assert(r@ =~= expected.take(i + 1));
        i = i + 1;
    }
    r
}

// ---------- Laws ----------

/// A file is an ELF file exactly if it starts with the four magic bytes and a class
/// byte of 1 or 2, and holds the whole file header of that class.
pub proof fn law_is_elf(d: Seq<u8>)
    ensures
        is_elf(d) <==> {
            &&& d.len() >= 16
            &&& (d[0], d[1], d[2], d[3]) == (0x7fu8, 'E' as u8, 'L' as u8, 'F' as u8)
            &&& d[4] == 1 || d[4] == 2
            &&& d[4] == 1 ==> d.len() >= 52
            &&& d[4] == 2 ==> d.len() >= 64
        },
{
}

/// Where the fields of the file header lie, in a file of the 64-bit class and in
/// one of the 32-bit class. A shared object has the type 3.
pub proof fn law_file_header(d: Seq<u8>)
    ensures
        ({
            let h = elf_header(d);
            &&& h.class64 <==> d[4] == 2
            &&& h.shared_object <==> d[16] == 3 && d[17] == 0
            &&& h.class64 ==> {
                &&& h.entry == le64(d, 24)
                &&& h.ph_offset == le64(d, 32)
                &&& h.ph_entry_size == le16(d, 54)
                &&& h.ph_count == le16(d, 56)
            }
            &&& !h.class64 ==> {
                &&& h.entry == le32(d, 24)
                &&& h.ph_offset == le32(d, 28)
                &&& h.ph_entry_size == le16(d, 42)
                &&& h.ph_count == le16(d, 44)
            }
        }),
{
}

/// A program header table has one header for each whole entry, and where the
/// fields of a header lie in its entry.
pub proof fn law_program_headers(h: ElfHeader, t: Seq<u8>, i: int)
    requires
        h.ph_entry_size > 0,
    ensures
        program_headers(h, t).len() == t.len() / (h.ph_entry_size as nat),
        0 <= i < program_headers(h, t).len() ==> {
            let p = program_headers(h, t)[i];
            let at = i * h.ph_entry_size;
            &&& p.kind == SegmentType::Load <==> le32(t, at) == 1
            &&& p.kind == SegmentType::Dynamic <==> le32(t, at) == 2
            &&& p.kind == SegmentType::Interp <==> le32(t, at) == 3
            &&& h.class64 ==> {
                &&& p.flags == le32(t, at + 4)
                &&& p.offset == le64(t, at + 8)
                &&& p.virtual_addr == le64(t, at + 16)
                &&& p.file_size == le64(t, at + 32)
                &&& p.mem_size == le64(t, at + 40)
            }
            &&& !h.class64 ==> {
                &&& p.offset == le32(t, at + 4)
                &&& p.virtual_addr == le32(t, at + 8)
                &&& p.file_size == le32(t, at + 16)
                &&& p.mem_size == le32(t, at + 20)
                &&& p.flags == le32(t, at + 24)
            }
        },
{
}

/// A program header table can be read exactly if its entries have a size, hold a
/// header each if there is one, and start aligned if there is more than one.
pub proof fn law_table_readable(h: ElfHeader, n: int)
    ensures
        table_readable(h, n) <==> {
            let entry = h.ph_entry_size as int;
            &&& entry >= 1
            &&& n < entry || entry >= if h.class64 {
                56int
            } else {
                32
            }
            &&& n < entry + entry || entry % if h.class64 {
                8int
            } else {
                4
            } == 0
        },
{
}

} // verus!
