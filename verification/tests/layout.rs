use starry_exec::arch::Arch;
use starry_exec::auxv::{hwcap_value, AuxType};
use starry_exec::error::KernelError;
use starry_exec::paging::{
    copy_from_kernel, interp_base, map_trampoline, mapping_flags, new_user_aspace_empty,
    page_round_up, Layout, LinearMapping, MappingFlags, Region, TrampolinePhase,
};

fn layout() -> Layout {
    Layout {
        user_space_base: 0x1000,
        user_space_size: 0x3f_ffff_f000,
        user_stack_top: 0x4_0000_0000,
        user_stack_size: 0x8_0000,
        user_heap_base: 0x4000_0000,
        user_heap_size: 0x1_0000,
        signal_trampoline: 0x6000_1000,
        cq_trampoline: 0x6000_2000,
    }
}

#[test]
fn writable_segments_are_readable() {
    let f = |read, write, execute| MappingFlags { read, write, execute, user: true };
    assert_eq!(mapping_flags(0), f(false, false, false));
    assert_eq!(mapping_flags(1), f(false, false, true));
    assert_eq!(mapping_flags(2), f(true, true, false));
    assert_eq!(mapping_flags(3), f(true, true, true));
    assert_eq!(mapping_flags(4), f(true, false, false));
    assert_eq!(mapping_flags(5), f(true, false, true));
    assert_eq!(mapping_flags(6), f(true, true, false));
    assert_eq!(mapping_flags(7), f(true, true, true));
    assert_eq!(mapping_flags(0xffff_fff8), f(false, false, false));
}

#[test]
fn sizes_are_rounded_up_to_pages() {
    assert_eq!(page_round_up(0), Some(0));
    assert_eq!(page_round_up(1), Some(4096));
    assert_eq!(page_round_up(4096), Some(4096));
    assert_eq!(page_round_up(4097), Some(8192));
    assert_eq!(page_round_up(usize::MAX - 4095), None);
    assert_eq!(page_round_up(usize::MAX - 4096), Some(usize::MAX - 4095));
}

#[test]
fn new_address_space_spans_the_user_part() {
    assert_eq!(
        new_user_aspace_empty(&layout()),
        Region { start: 0x1000, size: 0x3f_ffff_f000 }
    );
}

#[test]
fn kernel_part_is_copied_where_page_tables_are_shared() {
    let kernel = Region { start: 0xffff_0000_0000_0000, size: 0x1000_0000 };
    assert_eq!(copy_from_kernel(Arch::X86_64, kernel), Some(kernel));
    assert_eq!(copy_from_kernel(Arch::Riscv64, kernel), Some(kernel));
    assert_eq!(copy_from_kernel(Arch::Aarch64, kernel), None);
    assert_eq!(copy_from_kernel(Arch::Loongarch64, kernel), None);
}

/// Maps the trampolines, with the given outcomes: the mappings that were tried,
/// and the result.
fn trampolines(
    outcomes: [Result<(), KernelError>; 2],
) -> (Vec<LinearMapping>, Result<(), KernelError>) {
    let mut m = map_trampoline(&layout(), 0x8020_0000, 0x8020_1000);
    let mut tried = Vec::new();
    while let Some(mapping) = m.action() {
        m.step(outcomes[tried.len()]);
        tried.push(mapping);
    }
    match m.phase {
        TrampolinePhase::Finished { result } => (tried, result),
        _ => panic!("not finished"),
    }
}

#[test]
fn both_trampolines_are_mapped_for_reading_and_running() {
    let flags = MappingFlags { read: true, write: false, execute: true, user: true };
    let signal = LinearMapping { vaddr: 0x6000_1000, paddr: 0x8020_0000, size: 4096, flags };
    let cq = LinearMapping { vaddr: 0x6000_2000, paddr: 0x8020_1000, size: 4096, flags };
    assert_eq!(trampolines([Ok(()), Ok(())]), (vec![signal, cq], Ok(())));
    let e = KernelError::Other(12);
    let f = KernelError::Other(17);
    assert_eq!(trampolines([Err(e), Err(f)]), (vec![signal], Err(e)));
    assert_eq!(trampolines([Ok(()), Err(f)]), (vec![signal, cq], Err(f)));
}

#[test]
fn interpreter_lies_behind_all_areas() {
    assert_eq!(interp_base(&layout(), &vec![]), Some(0x10_0000));
    assert_eq!(interp_base(&layout(), &vec![0x5000, 0x20_1000, 0x8000]), Some(0x30_0000));
    assert_eq!(interp_base(&layout(), &vec![0x20_0000]), Some(0x20_0000));
    assert_eq!(interp_base(&layout(), &vec![usize::MAX - 0xf_ffff]), None);
    assert_eq!(
        interp_base(&layout(), &vec![usize::MAX - 0x10_0000]),
        Some(usize::MAX - 0xf_ffff)
    );
}

#[test]
fn capability_bits_depend_on_the_processor() {
    let letters = "IMAFDC".bytes().fold(0usize, |m, c| m | 1 << (c - b'A'));
    assert_eq!(hwcap_value(Arch::Riscv64), letters);
    assert_eq!(hwcap_value(Arch::Loongarch64), 0b1_1111);
    assert_eq!(hwcap_value(Arch::Loongarch64) & (1 << 5), 0);
    assert_eq!(hwcap_value(Arch::X86_64), 0);
    assert_eq!(hwcap_value(Arch::Aarch64), 0);
}

#[test]
fn auxiliary_types_have_their_numbers() {
    for (t, n) in [
        (AuxType::Phdr, 3),
        (AuxType::Phent, 4),
        (AuxType::Phnum, 5),
        (AuxType::Pagesz, 6),
        (AuxType::Base, 7),
        (AuxType::Entry, 9),
        (AuxType::Hwcap, 16),
    ] {
        assert_eq!(t.code(), n);
        assert_eq!(AuxType::from_code(n), Some(t));
    }
    assert_eq!(AuxType::from_code(0), None);
    assert_eq!(AuxType::from_code(8), None);
}
