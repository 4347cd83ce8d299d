//! The auxiliary vector that a program is started with.

use vstd::prelude::*;
use crate::arch::Arch;
use crate::elf::{
    covers,
    entry_address,
    first_cover,
    headers_address,
    headers_mapped,
    headers_segment,
    image_aux_vector,
    image_auxv,
    image_entry,
    load_base,
    ElfHeader,
    ProgramHeader,
};
use crate::error::Fault;
use crate::image::{ElfCacheEntry, ElfImage};
use crate::paging::PAGE_SIZE;

verus! {

/// What an entry of the auxiliary vector tells.
#[derive(Clone, Copy, PartialEq, Eq, Structural, Debug)]
pub enum AuxType {
    /// The address of the program headers.
    Phdr,
    /// The size of a program header.
    Phent,
    /// The number of program headers.
    Phnum,
    /// The page size.
    Pagesz,
    /// The address that the interpreter is loaded at.
    Base,
    /// The address of the program's entry point.
    Entry,
    /// Capabilities of the processor.
    Hwcap,
}

/// An entry of the auxiliary vector.
#[derive(Clone, Copy, PartialEq, Eq, Structural, Debug)]
pub struct AuxEntry {
    pub kind: AuxType,
    pub value: usize,
}

/// The number of an entry's type in the binary interface.
pub open spec fn aux_code(t: AuxType) -> usize {
    match t {
        AuxType::Phdr => 3,
        AuxType::Phent => 4,
        AuxType::Phnum => 5,
        AuxType::Pagesz => 6,
        AuxType::Base => 7,
        AuxType::Entry => 9,
        AuxType::Hwcap => 16,
    }
}

impl AuxType {
    /// The number of the type in the binary interface.
    pub fn code(self) -> (r: usize)
        ensures
            r == aux_code(self),
    {
        match self {
            AuxType::Phdr => 3,
            AuxType::Phent => 4,
            AuxType::Phnum => 5,
            AuxType::Pagesz => 6,
            AuxType::Base => 7,
            AuxType::Entry => 9,
            AuxType::Hwcap => 16,
        }
    }

    /// The type with the given number.
    pub fn from_code(code: usize) -> (r: Option<AuxType>)
        ensures
            match r {
                Some(t) => aux_code(t) == code,
                None => forall|t: AuxType| aux_code(t) != code,
            },
    {
        match code {
            3 => Some(AuxType::Phdr),
            4 => Some(AuxType::Phent),
            5 => Some(AuxType::Phnum),
            6 => Some(AuxType::Pagesz),
            7 => Some(AuxType::Base),
            9 => Some(AuxType::Entry),
            16 => Some(AuxType::Hwcap),
            _ => None,
        }
    }
}

/// The capability bits of the processor that are announced to programs.
pub open spec fn hwcap(arch: Arch) -> usize {
    match arch {
        // CPUCFG, LAM, UAL, FPU and LSX: bits 0 to 4.
        Arch::Loongarch64 => 0x1f,
        // The letters of IMAFDC: bits 8, 12, 0, 5, 3 and 2.
        Arch::Riscv64 => 0x112d,
        Arch::X86_64 | Arch::Aarch64 => 0,
    }
}

/// The bit that stands for a letter of the instruction set's name on RISC-V.
pub open spec fn isa_bit(letter: char) -> usize {
    1usize << ((letter as int - 'A' as int) as usize)
}

/// On RISC-V, the bits that are announced are those of the letters of
/// `IMAFDC`, and no others. On LoongArch, 128-bit vectors (bit 4) are announced
/// and 256-bit vectors (bit 5) are not.
pub proof fn law_hwcap()
    ensures
        hwcap(Arch::Riscv64) == isa_bit('I') | isa_bit('M') | isa_bit('A') | isa_bit('F') | isa_bit(
            'D',
        ) | isa_bit('C'),
        hwcap(Arch::Loongarch64) == (1usize << 0) | (1usize << 1) | (1usize << 2) | (1usize << 3) | (
        1usize << 4),
        hwcap(Arch::Loongarch64) & (1usize << 5) == 0,
{
    assert(0x112dusize == (1usize << 8) | (1usize << 12) | (1usize << 0) | (1usize << 5) | (1usize
        << 3) | (1usize << 2)) by (bit_vector);
    assert(0x1fusize == (1usize << 0) | (1usize << 1) | (1usize << 2) | (1usize << 3) | (1usize
        << 4)) by (bit_vector);
    assert(0x1fusize & (1usize << 5) == 0) by (bit_vector);
}

/// The value of the `AT_HWCAP` entry. On LoongArch it is the baseline that the
/// kernel enables, without 256-bit vectors; on RISC-V the letters of `IMAFDC`;
/// elsewhere programs have other means to find out.
pub fn hwcap_value(arch: Arch) -> (r: usize)
    ensures
        r == hwcap(arch),
{
    match arch {
        Arch::Loongarch64 => 0x1f,
        Arch::Riscv64 => 0x112d,
        Arch::X86_64 | Arch::Aarch64 => 0,
    }
}

/// The entries for a program that is loaded at `base`: its program headers, the
/// page size, its entry point, where its interpreter is loaded if it has one,
/// and the capabilities of the processor.
pub open spec fn program_auxv(
    arch: Arch,
    h: ElfHeader,
    ph: Seq<ProgramHeader>,
    base: usize,
    interp_base: Option<usize>,
) -> Seq<AuxEntry> {
    let image = seq![
        AuxEntry { kind: AuxType::Phdr, value: headers_address(h, ph, base) as usize },
        AuxEntry { kind: AuxType::Phent, value: h.ph_entry_size as usize },
        AuxEntry { kind: AuxType::Phnum, value: h.ph_count as usize },
        AuxEntry { kind: AuxType::Pagesz, value: PAGE_SIZE },
        AuxEntry { kind: AuxType::Entry, value: entry_address(h, base) as usize },
    ];
    let with_interp = match interp_base {
        Some(b) => image.push(AuxEntry { kind: AuxType::Base, value: b }),
        None => image,
    };
    with_interp.push(AuxEntry { kind: AuxType::Hwcap, value: hwcap(arch) })
}

/// The address at which a file starts that is given the bias `bias`. It must
/// fit in a word.
pub open spec fn start_address(image: ElfImage, bias: usize) -> Result<usize, Fault> {
    let a = entry_address(image.header(), load_base(image.header(), bias));
    if a <= usize::MAX {
        Ok(a as usize)
    } else {
        Err(Fault::Overflow)
    }
}

/// The auxiliary vector of a program that is given the bias `bias`. The program
/// headers must be mapped, and the addresses must fit in a word.
pub open spec fn auxv_of(
    arch: Arch,
    image: ElfImage,
    bias: usize,
    interp_base: Option<usize>,
) -> Result<Seq<AuxEntry>, Fault> {
    let base = load_base(image.header(), bias);
    if !headers_mapped(image.header(), image.ph(), base) {
        Err(Fault::UnmappedHeaders)
    } else if start_address(image, bias) is Err {
        Err(Fault::Overflow)
    } else {
        Ok(program_auxv(arch, image.header(), image.ph(), base, interp_base))
    }
}

/// The address that a file with the given header is loaded at.
fn base_of(h: &ElfHeader, bias: usize) -> (r: usize)
    ensures
        r == load_base(*h, bias),
{
    if h.shared_object {
        bias
    } else {
        0
    }
}

/// The address at which a file starts.
pub fn find_start(entry: &ElfCacheEntry, bias: usize) -> (r: Result<usize, Fault>)
    requires
        entry.wf(),
    ensures
        r == start_address(entry@, bias),
{
    let base = base_of(&entry.header, bias);
    if (entry.header.entry as usize).checked_add(base).is_none() {
        return Err(Fault::Overflow);
    }
    Ok(image_entry(entry.data.as_slice(), entry.table.as_slice(), bias))
}

/// Whether the program headers are mapped and their address can be computed.
fn has_headers(h: &ElfHeader, ph: &Vec<ProgramHeader>, base: usize) -> (r: bool)
    ensures
        r == headers_mapped(*h, ph@, base),
{
    let at = (h.ph_offset as usize) as u64;
    let mut i: usize = 0;
    while i < ph.len()
        invariant
            at == (h.ph_offset as usize) as u64,
            i <= ph.len(),
            headers_segment(*h, ph@) == first_cover(ph@, at, i as int),
            forall|j: int| 0 <= j < i ==> (#[trigger] ph@[j]).offset + ph@[j].file_size <= u64::MAX,
        decreases ph.len() - i,
    {
        let p = ph[i];
        if p.offset > u64::MAX - p.file_size {
            proof {
                lemma_first_cover(ph@, at, i as int);
                assert(ph@[i as int].offset + ph@[i as int].file_size > u64::MAX);
            }
            return false;
        }
        if p.offset <= at && at < p.offset + p.file_size {
            assert(headers_segment(*h, ph@) == i);
            let (a, b) = (h.ph_offset as usize, p.offset as usize);
            if a < b {
                return false;
            }
            return match (a - b).checked_add(p.virtual_addr as usize) {
                None => false,
                Some(c) => c.checked_add(base).is_some(),
            };
        }
        i = i + 1;
    }
    false
}

proof fn lemma_first_cover(ph: Seq<ProgramHeader>, at: u64, i: int)
    requires
        0 <= i <= ph.len(),
    ensures
        i <= first_cover(ph, at, i) <= ph.len(),
    decreases ph.len() - i,
{
    if i < ph.len() && !covers(ph[i], at) {
        lemma_first_cover(ph, at, i + 1);
    }
}

/// The auxiliary vector of a program.
#[verifier::rlimit(30)]
pub fn make_auxv(
    arch: Arch,
    entry: &ElfCacheEntry,
    bias: usize,
    interp_base: Option<usize>,
) -> (r: Result<Vec<AuxEntry>, Fault>)
    requires
        entry.wf(),
    ensures
        match auxv_of(arch, entry@, bias, interp_base) {
            Ok(s) => r matches Ok(v) && v@ == s,
            Err(f) => r == Err::<Vec<AuxEntry>, Fault>(f),
        },
{
    let base = base_of(&entry.header, bias);
    if !has_headers(&entry.header, &entry.ph, base) {
        return Err(Fault::UnmappedHeaders);
    }
    if (entry.header.entry as usize).checked_add(base).is_none() {
        return Err(Fault::Overflow);
    }
    let pairs = image_aux_vector(
        entry.data.as_slice(),
        entry.table.as_slice(),
        bias,
        PAGE_SIZE,
        interp_base,
    );
    let ghost expected = program_auxv(arch, entry@.header(), entry@.ph(), base, interp_base);
    let mut v: Vec<AuxEntry> = Vec::new();
    let mut i: usize = 0;
    while i < pairs.len()
        invariant
            i <= pairs.len(),
            pairs@ == image_auxv(entry@.header(), entry@.ph(), base, PAGE_SIZE, interp_base),
            expected == program_auxv(arch, entry@.header(), entry@.ph(), base, interp_base),
            v@ == expected.take(i as int),
        decreases pairs.len() - i,
    {
        let (code, value) = pairs[i];
        assert(code == aux_code(expected[i as int].kind) && value == expected[i as int].value);
        if let Some(kind) = AuxType::from_code(code) {
            v.push(AuxEntry { kind, value });
        }
        assert(v@ =~= expected.take(i + 1));
        i = i + 1;
    }
    v.push(AuxEntry { kind: AuxType::Hwcap, value: hwcap_value(arch) });
    assert(v@ =~= expected);
    Ok(v)
}

// ---------- Laws ----------

/// A file starts at the entry point of its header, shifted by the bias if it is a
/// shared object. That the sum does not fit in a word is the one fault.
pub proof fn law_start_address(image: ElfImage, bias: usize)
    ensures
        ({
            let shift: int = if image.header().shared_object { bias as int } else { 0 };
            let start = (image.header().entry as usize) + shift;
            if start <= usize::MAX {
                start_address(image, bias) matches Ok(a) && a == start
            } else {
                start_address(image, bias) == Err::<usize, Fault>(Fault::Overflow)
            }
        }),
{
}

/// Whether `v` has exactly one entry of the given type, and its value is `value`.
pub open spec fn says_once(v: Seq<AuxEntry>, kind: AuxType, value: int) -> bool {
    exists|i: int| #[trigger]
        says_at(v, kind, i) && v[i].value == value && (forall|j: int| #[trigger]
            says_at(v, kind, j) ==> j == i)
}

/// Whether entry `i` of `v` is one of the given type.
pub open spec fn says_at(v: Seq<AuxEntry>, kind: AuxType, i: int) -> bool {
    0 <= i < v.len() && v[i].kind == kind
}

/// The auxiliary vector of a program tells each thing once: the number and the
/// size of the program headers as the file header counts them, the page size, the
/// entry point shifted by the load address, the interpreter's load address if
/// there is an interpreter, and the capabilities of the processor.
pub proof fn law_auxv(arch: Arch, image: ElfImage, bias: usize, interp_base: Option<usize>)
    ensures
        auxv_of(arch, image, bias, interp_base) matches Ok(v) ==> {
            let h = image.header();
            let shift: int = if h.shared_object { bias as int } else { 0 };
            &&& v.len() == if interp_base is Some { 7nat } else { 6nat }
            &&& says_once(v, AuxType::Phnum, h.ph_count as int)
            &&& says_once(v, AuxType::Phent, h.ph_entry_size as int)
            &&& says_once(v, AuxType::Pagesz, 4096)
            &&& says_once(v, AuxType::Entry, (h.entry as usize) + shift)
            &&& says_once(
                v,
                AuxType::Hwcap,
                match arch {
                    Arch::Riscv64 => 0x112d,
                    Arch::Loongarch64 => 0x1f,
                    Arch::X86_64 | Arch::Aarch64 => 0,
                },
            )
            &&& match interp_base {
                Some(b) => says_once(v, AuxType::Base, b as int),
                None => forall|i: int| !says_at(v, AuxType::Base, i),
            }
        },
{
    if let Ok(v) = auxv_of(arch, image, bias, interp_base) {
        let n = v.len() - 1;
        assert(says_at(v, AuxType::Phent, 1));
        assert(says_at(v, AuxType::Phnum, 2));
        assert(says_at(v, AuxType::Pagesz, 3));
        assert(says_at(v, AuxType::Entry, 4));
        assert(says_at(v, AuxType::Hwcap, n));
        if interp_base is Some {
            assert(says_at(v, AuxType::Base, 5));
        }
    }
}

/// Whether the file part of segment `k` holds the start of the program header
/// table, and that of no segment before it does.
pub open spec fn first_to_hold(h: ElfHeader, ph: Seq<ProgramHeader>, k: int) -> bool {
    let at = h.ph_offset as usize;
    &&& 0 <= k < ph.len()
    &&& ph[k].offset <= at < ph[k].offset + ph[k].file_size
    &&& forall|j: int|
        0 <= j < k ==> !((#[trigger] ph[j]).offset <= at < ph[j].offset + ph[j].file_size)
}

proof fn lemma_cover_found(ph: Seq<ProgramHeader>, at: u64, i: int)
    requires
        0 <= i <= ph.len(),
    ensures
        i <= first_cover(ph, at, i) <= ph.len(),
        first_cover(ph, at, i) < ph.len() ==> covers(ph[first_cover(ph, at, i)], at),
        forall|j: int| i <= j < first_cover(ph, at, i) ==> !covers(#[trigger] ph[j], at),
    decreases ph.len() - i,
{
    if i < ph.len() && !covers(ph[i], at) {
        lemma_cover_found(ph, at, i + 1);
    }
}

/// The auxiliary vector tells once where the program headers are: as far behind
/// the address of the first segment that holds their start as they are behind
/// the segment's start in the file.
pub proof fn law_auxv_headers(arch: Arch, image: ElfImage, bias: usize, interp_base: Option<usize>)
    requires
        usize::BITS == 64,
    ensures
        auxv_of(arch, image, bias, interp_base) matches Ok(v) ==> exists|k: int|
            #[trigger] first_to_hold(image.header(), image.ph(), k) && says_once(
                v,
                AuxType::Phdr,
                image.ph()[k].virtual_addr + (image.header().ph_offset - image.ph()[k].offset) + (
                if image.header().shared_object {
                    bias as int
                } else {
                    0
                }),
            ),
        !(exists|k: int| #[trigger] first_to_hold(image.header(), image.ph(), k)) ==> auxv_of(
            arch,
            image,
            bias,
            interp_base,
        ) == Err::<Seq<AuxEntry>, Fault>(Fault::UnmappedHeaders),
{
    let h = image.header();
    let ph = image.ph();
    let at = (h.ph_offset as usize) as u64;
    lemma_cover_found(ph, at, 0);
    let k = first_cover(ph, at, 0);
    if k < ph.len() {
        assert(first_to_hold(h, ph, k));
    }
    if let Ok(v) = auxv_of(arch, image, bias, interp_base) {
        assert(says_at(v, AuxType::Phdr, 0));
        assert(first_to_hold(h, ph, k));
    }
}

/// The numbers of the types are those of the binary interface.
pub proof fn law_aux_codes()
    ensures
        aux_code(AuxType::Phdr) == 3,
        aux_code(AuxType::Phent) == 4,
        aux_code(AuxType::Phnum) == 5,
        aux_code(AuxType::Pagesz) == 6,
        aux_code(AuxType::Base) == 7,
        aux_code(AuxType::Entry) == 9,
        aux_code(AuxType::Hwcap) == 16,
{
}

/// There is an auxiliary vector exactly if some segment holds the start of the
/// program header table, no segment up to the first that does ends beyond the
/// 64-bit range, and the addresses of the table and of the entry point fit in a
/// word.
pub proof fn law_auxv_given(arch: Arch, image: ElfImage, bias: usize, interp_base: Option<usize>)
    requires
        usize::BITS == 64,
    ensures
        ({
            let h = image.header();
            let ph = image.ph();
            let shift: int = if h.shared_object { bias as int } else { 0 };
            auxv_of(arch, image, bias, interp_base) is Ok <==> {
                &&& h.entry + shift <= usize::MAX
                &&& exists|k: int| #[trigger]
                    first_to_hold(h, ph, k) && ph[k].virtual_addr + (h.ph_offset - ph[k].offset)
                        + shift <= usize::MAX && (forall|j: int|
                        0 <= j <= k ==> (#[trigger] ph[j]).offset + ph[j].file_size <= u64::MAX)
            }
        }),
{
    let h = image.header();
    let ph = image.ph();
    let at = (h.ph_offset as usize) as u64;
    lemma_cover_found(ph, at, 0);
    let k = first_cover(ph, at, 0);
    assert forall|j: int| #[trigger] first_to_hold(h, ph, j) implies j == k by {
        if j < k {
            assert(!covers(ph[j], at));
        } else if k < j {
            assert(covers(ph[k], at));
        }
    }
    if k < ph.len() {
        assert(first_to_hold(h, ph, k));
    }
}

/// The order of the entries: the program headers come first, and the capabilities
/// of the processor last, right behind the interpreter if there is one.
pub proof fn law_auxv_order(arch: Arch, image: ElfImage, bias: usize, interp_base: Option<usize>)
    ensures
        auxv_of(arch, image, bias, interp_base) matches Ok(v) ==> {
            &&& v[0].kind == AuxType::Phdr
            &&& v[1].kind == AuxType::Phent
            &&& v[2].kind == AuxType::Phnum
            &&& v[3].kind == AuxType::Pagesz
            &&& v[4].kind == AuxType::Entry
            &&& interp_base is Some ==> v[5].kind == AuxType::Base
            &&& v[v.len() - 1].kind == AuxType::Hwcap
        },
{
}

/// The auxiliary vector that is made for a program counts its program headers as
/// its file header does.
pub proof fn law_auxv_made(
    arch: Arch,
    entry: &ElfCacheEntry,
    bias: usize,
    interp_base: Option<usize>,
    r: Result<Vec<AuxEntry>, Fault>,
)
    requires
        call_ensures(make_auxv, (arch, entry, bias, interp_base), r),
    ensures
        r is Ok <==> auxv_of(arch, entry@, bias, interp_base) is Ok,
        r matches Ok(v) ==> says_once(v@, AuxType::Phnum, entry@.header().ph_count as int)
            && says_once(v@, AuxType::Phent, entry@.header().ph_entry_size as int),
{
    law_auxv(arch, entry@, bias, interp_base);
}

} // verus!
