use starry_exec::arch::Arch;
use starry_exec::elf::{ProgramHeader, SegmentType};
use starry_exec::error::{Fault, KernelError};
use starry_exec::relocate::{
    apply_relocations, checked_file_offset, parse_dynamic, vaddr_to_file_offset, DynamicInfo,
    Patch, RelocAction, RelocInput,
};

fn segment(kind: SegmentType, offset: u64, virtual_addr: u64, size: u64) -> ProgramHeader {
    ProgramHeader { kind, flags: 6, offset, virtual_addr, file_size: size, mem_size: size + 0x100 }
}

fn words(w: &[u64]) -> Vec<u8> {
    w.iter().flat_map(|v| v.to_le_bytes()).collect()
}

fn put(file: &mut Vec<u8>, at: usize, data: &[u8]) {
    if file.len() < at + data.len() {
        file.resize(at + data.len(), 0);
    }
    file[at..at + data.len()].copy_from_slice(data);
}

/// Runs a relocation over a file, and gives the writes and the result.
fn relocate(
    arch: Arch,
    base: usize,
    ph: &[ProgramHeader],
    file: &[u8],
) -> Result<(Vec<Patch>, Result<(), KernelError>), Fault> {
    let mut r = apply_relocations(arch, base, ph.to_vec());
    let mut patches = Vec::new();
    loop {
        match r.action() {
            RelocAction::FileLen => r.step(RelocInput::Len(Some(file.len() as u64)))?,
            RelocAction::Read { offset, len } => {
                let mut d = vec![0; len];
                for (i, b) in d.iter_mut().enumerate() {
                    *b = *file.get(offset as usize + i).unwrap_or(&0);
                }
                r.step(RelocInput::Data(Ok(d)))?
            }
            RelocAction::Write { patch } => {
                patches.push(patch);
                r.step(RelocInput::Written(Ok(())))?
            }
            RelocAction::Finish { result } => return Ok((patches, result)),
        }
    }
}

const RELATIVE: u64 = 3;
const ABSOLUTE: u64 = 2;
const COPY: u64 = 4;
const JUMP_SLOT: u64 = 5;

/// A program whose one segment maps file offsets to addresses 0x1000 higher.
fn program() -> Vec<ProgramHeader> {
    vec![
        segment(SegmentType::Load, 0, 0x1000, 0x1000),
        segment(SegmentType::Dynamic, 0x100, 0x1100, 0x80),
    ]
}

fn file(rela: &[[u64; 3]], plt: &[[u64; 3]], symbols: &[u64]) -> Vec<u8> {
    let mut f = vec![0; 0x800];
    let dynamic = [
        7, 0x1200, 8, rela.len() as u64 * 24, 23, 0x1400, 2, plt.len() as u64 * 24, 6, 0x1600, 5,
        0x1700, 0, 0, 7, 0x9999,
    ];
    put(&mut f, 0x100, &words(&dynamic));
    put(&mut f, 0x200, &words(&rela.concat()));
    put(&mut f, 0x400, &words(&plt.concat()));
    for (i, v) in symbols.iter().enumerate() {
        put(&mut f, 0x600 + 24 * i + 8, &words(&[*v]));
    }
    f
}

#[test]
fn addresses_are_found_in_the_file() {
    let ph = [
        segment(SegmentType::Other, 0, 0, 0x10000),
        segment(SegmentType::Load, 0x40, 0x1000, 0x100),
        segment(SegmentType::Load, 0x500, 0x1080, 0x100),
    ];
    assert_eq!(vaddr_to_file_offset(0x1000, &ph), Some(0x40));
    assert_eq!(vaddr_to_file_offset(0x10ff, &ph), Some(0x13f));
    assert_eq!(vaddr_to_file_offset(0x1100, &ph), Some(0x580));
    assert_eq!(vaddr_to_file_offset(0x1180, &ph), None);
    assert_eq!(vaddr_to_file_offset(0xfff, &ph), None);
    assert_eq!(vaddr_to_file_offset(0, &[]), None);
}

#[test]
fn addresses_near_the_end_of_the_range_are_told_apart() {
    let near = [segment(SegmentType::Load, 0, u64::MAX - 0xff, 0x80)];
    assert_eq!(checked_file_offset(u64::MAX - 0xff, &near), Some(Some(0)));
    let wraps = [ProgramHeader {
        kind: SegmentType::Load,
        flags: 0,
        offset: 0,
        virtual_addr: u64::MAX,
        file_size: 2,
        mem_size: 2,
    }];
    assert_eq!(checked_file_offset(u64::MAX, &wraps), None);
    let far = [ProgramHeader {
        kind: SegmentType::Load,
        flags: 0,
        offset: u64::MAX,
        virtual_addr: 0,
        file_size: 8,
        mem_size: 8,
    }];
    assert_eq!(checked_file_offset(0, &far), Some(Some(usize::MAX)));
    assert_eq!(checked_file_offset(1, &far), None);
}

#[test]
fn dynamic_section_ends_at_its_null_entry() {
    let d = words(&[7, 10, 8, 20, 7, 11, 99, 1, 23, 30, 2, 40, 6, 50, 5, 60, 0, 0, 7, 99]);
    let info = DynamicInfo {
        rela_addr: 11,
        rela_size: 20,
        jmprel_addr: 30,
        jmprel_size: 40,
        symtab_addr: 50,
        strtab_addr: 60,
    };
    assert_eq!(parse_dynamic(&d), info);
    let zero = DynamicInfo {
        rela_addr: 0,
        rela_size: 0,
        jmprel_addr: 0,
        jmprel_size: 0,
        symtab_addr: 0,
        strtab_addr: 0,
    };
    assert_eq!(parse_dynamic(&[]), zero);
    assert_eq!(parse_dynamic(&words(&[7, 1])[..15]), zero);
}

#[test]
fn each_entry_writes_what_it_asks_for() {
    let rela = [
        [0x10, RELATIVE, 0x77],
        [0x20, ABSOLUTE | (1 << 32), 5],
        [0x30, COPY, 0],
        [0x40, 99, 0],
        [0x50, RELATIVE, (-0x10i64) as u64],
        [0x60, ABSOLUTE | (2 << 32), 0],
    ];
    let plt = [[0x70, JUMP_SLOT | (1 << 32), 1234], [0x80, RELATIVE, 1], [0x90, JUMP_SLOT, 0]];
    let f = file(&rela, &plt, &[0, 0x300, 0]);
    let (patches, result) = relocate(Arch::Riscv64, 0x10_0000, &program(), &f).unwrap();
    assert_eq!(result, Ok(()));
    assert_eq!(
        patches,
        vec![
            Patch { target: 0x10_0010, value: 0x10_0077 },
            Patch { target: 0x10_0020, value: 0x10_0305 },
            Patch { target: 0x10_0050, value: 0xf_fff0 },
            Patch { target: 0x10_0070, value: 0x10_0300 },
        ]
    );
}

#[test]
fn programs_are_relocated_on_riscv_only() {
    let f = file(&[[0x10, RELATIVE, 0x77]], &[], &[]);
    for arch in [Arch::X86_64, Arch::Aarch64, Arch::Loongarch64] {
        assert_eq!(relocate(arch, 0, &program(), &f), Ok((vec![], Ok(()))));
    }
    assert_eq!(
        relocate(Arch::Riscv64, 0, &program(), &f),
        Ok((vec![Patch { target: 0x10, value: 0x77 }], Ok(())))
    );
    assert_eq!(relocate(Arch::Riscv64, 0, &program()[..1], &f), Ok((vec![], Ok(()))));
}

#[test]
fn a_dynamic_section_beyond_the_file_is_an_error() {
    let f = vec![0; 0x17f];
    assert_eq!(
        relocate(Arch::Riscv64, 0, &program(), &f),
        Ok((vec![], Err(KernelError::InvalidData)))
    );
    assert_eq!(relocate(Arch::Riscv64, 0, &program(), &vec![0; 0x180]), Ok((vec![], Ok(()))));
}

#[test]
fn a_file_of_unknown_length_counts_as_empty() {
    let mut r = apply_relocations(Arch::Riscv64, 0, program());
    assert_eq!(r.action(), RelocAction::FileLen);
    r.step(RelocInput::Len(None)).unwrap();
    assert_eq!(r.action(), RelocAction::Finish { result: Err(KernelError::InvalidData) });
}

#[test]
fn a_table_that_is_not_loaded_is_an_error() {
    let mut f = file(&[[0x10, RELATIVE, 0x77]], &[[0x20, JUMP_SLOT, 0]], &[1]);
    put(&mut f, 0x108, &words(&[0x9000]));
    assert_eq!(
        relocate(Arch::Riscv64, 0, &program(), &f),
        Ok((vec![], Err(KernelError::InvalidData)))
    );
    let mut g = file(&[[0x10, RELATIVE, 0x77]], &[[0x20, JUMP_SLOT, 0]], &[1]);
    put(&mut g, 0x128, &words(&[0x9000]));
    assert_eq!(
        relocate(Arch::Riscv64, 0, &program(), &g),
        Ok((vec![Patch { target: 0x10, value: 0x77 }], Err(KernelError::InvalidData)))
    );
}

#[test]
fn a_symbol_table_that_is_not_loaded_is_an_error() {
    let mut f = file(&[[0x10, ABSOLUTE, 0]], &[], &[1]);
    put(&mut f, 0x148, &words(&[0x9000]));
    assert_eq!(
        relocate(Arch::Riscv64, 0, &program(), &f),
        Ok((vec![], Err(KernelError::InvalidData)))
    );
}

#[test]
fn entries_without_a_symbol_table_are_skipped() {
    let mut f = file(&[[0x10, ABSOLUTE, 0], [0x18, RELATIVE, 1]], &[[0, JUMP_SLOT, 0]], &[1]);
    put(&mut f, 0x158, &words(&[0]));
    assert_eq!(
        relocate(Arch::Riscv64, 0, &program(), &f),
        Ok((vec![Patch { target: 0x18, value: 1 }], Ok(())))
    );
}

#[test]
fn entries_and_symbols_beyond_the_file_are_skipped() {
    let mut f = file(&[[0x10, ABSOLUTE | (1000 << 32), 0], [0x18, RELATIVE, 1]], &[], &[1]);
    assert_eq!(
        relocate(Arch::Riscv64, 0, &program(), &f),
        Ok((vec![Patch { target: 0x18, value: 1 }], Ok(())))
    );
    f.truncate(0x200 + 24);
    assert_eq!(relocate(Arch::Riscv64, 0, &program(), &f), Ok((vec![], Ok(()))));
}

#[test]
fn a_failed_read_or_write_ends_the_relocation() {
    let mut r = apply_relocations(Arch::Riscv64, 0, program());
    r.step(RelocInput::Len(Some(0x800))).unwrap();
    assert_eq!(r.action(), RelocAction::Read { offset: 0x100, len: 0x80 });
    r.step(RelocInput::Data(Err(KernelError::Other(5)))).unwrap();
    assert_eq!(r.action(), RelocAction::Finish { result: Err(KernelError::Other(5)) });

    let f = file(&[[0x10, RELATIVE, 0x77]], &[], &[]);
    let mut r = apply_relocations(Arch::Riscv64, 0, program());
    r.step(RelocInput::Len(Some(0x800))).unwrap();
    r.step(RelocInput::Data(Ok(f[0x100..0x180].to_vec()))).unwrap();
    r.step(RelocInput::Len(Some(0x800))).unwrap();
    assert_eq!(r.action(), RelocAction::Read { offset: 0x200, len: 24 });
    r.step(RelocInput::Data(Ok(f[0x200..0x218].to_vec()))).unwrap();
    assert_eq!(r.action(), RelocAction::Write { patch: Patch { target: 0x10, value: 0x77 } });
    r.step(RelocInput::Written(Err(KernelError::BadAddress))).unwrap();
    assert_eq!(r.action(), RelocAction::Finish { result: Err(KernelError::BadAddress) });
}

#[test]
fn values_that_overflow_are_faults() {
    let over = |rela: [u64; 3], base| {
        let f = file(&[rela], &[], &[i64::MAX as u64, u64::MAX]);
        relocate(Arch::Riscv64, base, &program(), &f)
    };
    assert_eq!(over([u64::MAX, RELATIVE, 0], 1), Err(Fault::Overflow));
    assert_eq!(over([0, RELATIVE, i64::MAX as u64], 1), Err(Fault::Overflow));
    assert_eq!(over([0, ABSOLUTE, 0], 1), Err(Fault::Overflow));
    let f = file(&[], &[[0, JUMP_SLOT | (1 << 32), 0]], &[0, u64::MAX]);
    assert_eq!(relocate(Arch::Riscv64, 1, &program(), &f), Err(Fault::Overflow));
    assert_eq!(
        relocate(Arch::Riscv64, 0, &program(), &f),
        Ok((vec![Patch { target: 0, value: u64::MAX }], Ok(())))
    );
}

#[test]
fn addends_of_jump_slots_do_not_matter() {
    let run = |addends: [u64; 3]| {
        let plt = [
            [0x70, JUMP_SLOT | (1 << 32), addends[0]],
            [0x80, RELATIVE, addends[1]],
            [0x90, JUMP_SLOT, addends[2]],
        ];
        let f = file(&[[0x10, RELATIVE, 5]], &plt, &[0, 0x300]);
        relocate(Arch::Riscv64, 0x10_0000, &program(), &f)
    };
    let expected = vec![
        Patch { target: 0x10_0010, value: 0x10_0005 },
        Patch { target: 0x10_0070, value: 0x10_0300 },
    ];
    assert_eq!(run([0, 0, 0]), Ok((expected.clone(), Ok(()))));
    assert_eq!(run([1, u64::MAX, 1 << 63]), Ok((expected, Ok(()))));
}

#[test]
fn addends_behind_the_symbol_table_do_not_matter() {
    // If the symbol table were longer, the addends would be the values of symbols.
    let run = |addends: [u64; 2]| {
        let mut f = file(&[[0x10, ABSOLUTE | (1 << 32), 5]], &[[0; 3]; 2], &[0, 0x300, 0x500]);
        put(&mut f, 0x100 + 5 * 8, &words(&[0x1670]));
        let plt = [
            [0x70, JUMP_SLOT | (2 << 32), addends[0]],
            [0x80, JUMP_SLOT | (1 << 32), addends[1]],
        ];
        put(&mut f, 0x670, &words(&plt.concat()));
        relocate(Arch::Riscv64, 0x10_0000, &program(), &f)
    };
    let expected = vec![
        Patch { target: 0x10_0010, value: 0x10_0305 },
        Patch { target: 0x10_0070, value: 0x10_0500 },
        Patch { target: 0x10_0080, value: 0x10_0300 },
    ];
    assert_eq!(run([0, 0]), Ok((expected.clone(), Ok(()))));
    assert_eq!(run([u64::MAX, 1 << 63]), Ok((expected, Ok(()))));
}

#[test]
fn an_addend_that_is_a_symbol_value_too_matters() {
    let run = |addend: u64| {
        let mut f = file(&[], &[[0; 3]], &[]);
        put(&mut f, 0x100 + 5 * 8, &words(&[0x1670]));
        put(&mut f, 0x670, &words(&[0x70, JUMP_SLOT | (5 << 32), addend]));
        relocate(Arch::Riscv64, 0x10_0000, &program(), &f)
    };
    assert_eq!(run(0), Ok((vec![], Ok(()))));
    let written = Patch { target: 0x10_0070, value: 0x10_0042 };
    assert_eq!(run(0x42), Ok((vec![written], Ok(()))));
}
