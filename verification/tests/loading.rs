use starry_exec::arch::Arch;
use starry_exec::auxv::{find_start, make_auxv, AuxEntry, AuxType};
use starry_exec::cache::{clear_elf_cache, ElfLoader, CACHE_SIZE};
use starry_exec::elf::{parse_program_headers, ProgramHeader, SegmentType};
use starry_exec::error::{Fault, KernelError};
use starry_exec::image::{ElfCacheEntry, HeadRead, TableRead};
use starry_exec::loader::{LoadAction, LoadInput, LoadPhase, LoadProgress, ProgramLoad};
use starry_exec::paging::{Layout, MappingFlags};
use starry_exec::segments::{copy_headers, map_elf, MapAction, SegmentMapping};

const LOAD: u32 = 1;
const DYNAMIC: u32 = 2;
const INTERP: u32 = 3;
const NOTE: u32 = 4;

/// A segment: type, flags, offset, address, file size, memory size.
type Segment = (u32, u32, u64, u64, u64, u64);

fn table64(segments: &[Segment]) -> Vec<u8> {
    let mut t = Vec::new();
    for (kind, flags, offset, addr, file_size, mem_size) in segments {
        t.extend(kind.to_le_bytes());
        t.extend(flags.to_le_bytes());
        t.extend(offset.to_le_bytes());
        t.extend(addr.to_le_bytes());
        t.extend(addr.to_le_bytes());
        t.extend(file_size.to_le_bytes());
        t.extend(mem_size.to_le_bytes());
        t.extend(4096u64.to_le_bytes());
    }
    t
}

fn header64(kind: u16, entry: u64, ph_offset: u64, entry_size: u16, count: u16) -> Vec<u8> {
    let mut d = vec![0x7f, b'E', b'L', b'F', 2, 1, 1, 0];
    d.resize(16, 0);
    d.extend(kind.to_le_bytes());
    d.extend(243u16.to_le_bytes());
    d.extend(1u32.to_le_bytes());
    d.extend(entry.to_le_bytes());
    d.extend(ph_offset.to_le_bytes());
    d.extend(0u64.to_le_bytes());
    d.extend(0u32.to_le_bytes());
    d.extend(64u16.to_le_bytes());
    d.extend(entry_size.to_le_bytes());
    d.extend(count.to_le_bytes());
    d.extend([0; 6]);
    assert_eq!(d.len(), 64);
    d
}

fn elf64(kind: u16, entry: u64, segments: &[Segment]) -> Vec<u8> {
    let mut d = header64(kind, entry, 64, 56, segments.len() as u16);
    d.extend(table64(segments));
    d
}

fn elf32(kind: u16, entry: u32, segments: &[(u32, u32, u32, u32, u32, u32)]) -> Vec<u8> {
    let mut d = vec![0x7f, b'E', b'L', b'F', 1, 1, 1, 0];
    d.resize(16, 0);
    d.extend(kind.to_le_bytes());
    d.extend(243u16.to_le_bytes());
    d.extend(1u32.to_le_bytes());
    d.extend(entry.to_le_bytes());
    d.extend(52u32.to_le_bytes());
    d.extend(0u32.to_le_bytes());
    d.extend(0u32.to_le_bytes());
    d.extend(52u16.to_le_bytes());
    d.extend(32u16.to_le_bytes());
    d.extend((segments.len() as u16).to_le_bytes());
    d.extend([0; 6]);
    assert_eq!(d.len(), 52);
    for (kind, flags, offset, addr, file_size, mem_size) in segments {
        for v in [kind, offset, addr, addr, file_size, mem_size, flags, &4096] {
            d.extend(v.to_le_bytes());
        }
    }
    d
}

fn head(location: u64, data: &[u8]) -> Result<HeadRead, Fault> {
    let mut buf = data.to_vec();
    buf.truncate(4096);
    let read = buf.len();
    buf.resize(4096, 0xaa);
    ElfCacheEntry::load(location, Ok((buf, read)))
}

fn entry(location: u64, data: &[u8]) -> ElfCacheEntry {
    match head(location, data) {
        Ok(HeadRead::Loaded(e)) => e,
        _ => panic!("not loaded"),
    }
}

fn layout() -> Layout {
    Layout {
        user_space_base: 0x1000,
        user_space_size: 0x3f_ffff_f000,
        user_stack_top: 0x4_0000_0000,
        user_stack_size: 0x8_0000,
        user_heap_base: 0x4000_0000,
        user_heap_size: 0x1_0000,
        signal_trampoline: 0x6000_1000,
        cq_trampoline: 0x6000_2000,
    }
}

// ---------- Headers ----------

#[test]
fn headers_are_read_from_the_start_of_the_file() {
    let segments = [
        (LOAD, 5, 0, 0x1_0000, 0x234, 0x234),
        (LOAD, 6, 0x1234, 0x2_1234, 0x10, 0x400),
        (NOTE, 4, 0x200, 0x1_0200, 0x20, 0x20),
    ];
    let e = entry(7, &elf64(2, 0x1_0040, &segments));
    assert_eq!(e.location, 7);
    assert!(e.header.class64);
    assert!(!e.header.shared_object);
    assert_eq!(e.header.entry, 0x1_0040);
    assert_eq!(e.header.ph_offset, 64);
    assert_eq!(e.header.ph_entry_size, 56);
    assert_eq!(e.header.ph_count, 3);
    assert_eq!(
        e.ph,
        vec![
            ProgramHeader {
                kind: SegmentType::Load,
                flags: 5,
                offset: 0,
                virtual_addr: 0x1_0000,
                file_size: 0x234,
                mem_size: 0x234,
            },
            ProgramHeader {
                kind: SegmentType::Load,
                flags: 6,
                offset: 0x1234,
                virtual_addr: 0x2_1234,
                file_size: 0x10,
                mem_size: 0x400,
            },
            ProgramHeader {
                kind: SegmentType::Other,
                flags: 4,
                offset: 0x200,
                virtual_addr: 0x1_0200,
                file_size: 0x20,
                mem_size: 0x20,
            },
        ]
    );
    assert_eq!(copy_headers(&e.ph), e.ph);
    assert_eq!(parse_program_headers(&e.data, &e.table), e.ph);
}

#[test]
fn headers_of_the_32_bit_class_are_read() {
    let e = entry(1, &elf32(3, 0x54, &[(LOAD, 7, 0x1000, 0x2000, 0x30, 0x40)]));
    assert!(!e.header.class64);
    assert!(e.header.shared_object);
    assert_eq!(e.header.entry, 0x54);
    assert_eq!(
        e.ph,
        vec![ProgramHeader {
            kind: SegmentType::Load,
            flags: 7,
            offset: 0x1000,
            virtual_addr: 0x2000,
            file_size: 0x30,
            mem_size: 0x40,
        }]
    );
}

#[test]
fn segment_types_are_told_apart() {
    let kinds = [LOAD, DYNAMIC, INTERP, NOTE, 6, 0x6474_e551];
    let segments: Vec<Segment> = kinds.iter().map(|k| (*k, 0, 0, 0, 0, 0)).collect();
    let e = entry(1, &elf64(2, 0, &segments));
    let got: Vec<SegmentType> = e.ph.iter().map(|p| p.kind).collect();
    assert_eq!(
        got,
        vec![
            SegmentType::Load,
            SegmentType::Dynamic,
            SegmentType::Interp,
            SegmentType::Other,
            SegmentType::Other,
            SegmentType::Other,
        ]
    );
}

#[test]
fn other_files_are_handed_back() {
    for data in [&b"#!/bin/sh\n"[..], b"", b"\x7fELF", b"MZ this is no program of ours"] {
        match head(1, data) {
            Ok(HeadRead::NotElf(d)) => assert_eq!(d, data),
            _ => panic!("{data:?}"),
        }
    }
    let short = &elf64(2, 0, &[])[..63];
    match head(1, short) {
        Ok(HeadRead::NotElf(d)) => assert_eq!(d, short),
        _ => panic!("short header"),
    }
    let mut class = elf64(2, 0, &[]);
    class[4] = 3;
    assert!(matches!(head(1, &class), Ok(HeadRead::NotElf(d)) if d == class));
}

#[test]
fn a_file_that_cannot_be_read_is_an_error() {
    let r = ElfCacheEntry::load(1, Err(KernelError::Other(5)));
    assert!(matches!(r, Ok(HeadRead::Failed(KernelError::Other(5)))));
}

#[test]
fn a_distant_header_table_is_read_separately() {
    let table = table64(&[(LOAD, 5, 0, 0x1_0000, 0x5000, 0x5000)]);
    let data = header64(2, 0x1_0000, 0x4fc0, 56, 1);
    let pending = match head(9, &data) {
        Ok(HeadRead::ReadTable(p)) => p,
        _ => panic!("table expected elsewhere"),
    };
    assert_eq!((pending.location, pending.start, pending.len), (9, 0x4fc0, 56));
    assert_eq!(pending.data, data);
    match pending.finish(Ok(table.clone())) {
        Ok(TableRead::Loaded(e)) => {
            assert_eq!(e.table, table);
            assert_eq!(e.ph.len(), 1);
            assert_eq!(e.ph[0].virtual_addr, 0x1_0000);
        }
        _ => panic!("not loaded"),
    }
}

#[test]
fn a_header_table_that_cannot_be_read_makes_no_program() {
    let data = header64(2, 0, 0x1_0000, 56, 2);
    match head(9, &data) {
        Ok(HeadRead::ReadTable(p)) => {
            assert_eq!(p.len, 112);
            assert!(matches!(p.finish(Err(KernelError::Other(5))), Ok(TableRead::NotElf(d)) if d == data));
        }
        _ => panic!("table expected elsewhere"),
    }
}

#[test]
fn header_tables_with_a_bad_layout_are_faults() {
    let mut small = header64(2, 0, 64, 32, 1);
    small.extend([0; 64]);
    assert!(matches!(head(1, &small), Err(Fault::ProgramHeaders)));
    let mut odd = header64(2, 0, 65, 56, 1);
    odd.extend([0; 64]);
    assert!(matches!(head(1, &odd), Err(Fault::ProgramHeaders)));
    assert!(matches!(head(1, &header64(2, 0, 64, 0, 0)), Err(Fault::ProgramHeaders)));
    assert!(matches!(head(1, &header64(2, 0, u64::MAX, 56, 1)), Err(Fault::Overflow)));
}

// ---------- Mapping ----------

fn actions(arch: Arch, bias: usize, e: &ElfCacheEntry) -> Vec<MapAction> {
    let mut m = map_elf(arch, bias, e).unwrap();
    let mut seen = Vec::new();
    loop {
        let a = m.action();
        seen.push(a);
        if let MapAction::Finish { .. } = a {
            return seen;
        }
        m.step(Ok(())).unwrap();
    }
}

#[test]
fn segments_are_mapped_with_whole_pages() {
    let e = entry(
        1,
        &elf64(2, 0x40, &[(LOAD, 5, 0, 0x1_0000, 0x234, 0x234), (LOAD, 6, 0x1234, 0x2_1234, 0x10, 0x1000)]),
    );
    let f = |write, execute| MappingFlags { read: true, write, execute, user: true };
    assert_eq!(
        actions(Arch::Riscv64, 0x40_0000, &e),
        vec![
            MapAction::MapSegment {
                mapping: SegmentMapping {
                    page: 0x1_0000,
                    size: 0x1000,
                    flags: f(false, true),
                    start: 0x1_0000,
                    file_start: 0,
                    file_end: 0x234,
                }
            },
            MapAction::MapSegment {
                mapping: SegmentMapping {
                    page: 0x2_1000,
                    size: 0x2000,
                    flags: f(true, false),
                    start: 0x2_1234,
                    file_start: 0x1234,
                    file_end: 0x1244,
                }
            },
            MapAction::Finish { result: Ok(Ok(0x40)) },
        ]
    );
}

#[test]
fn shared_objects_are_moved_and_relocated() {
    let e = entry(1, &elf64(3, 0, &[(NOTE, 4, 0, 0, 0, 0), (LOAD, 5, 0, 0, 0x800, 0x800)]));
    let flags = MappingFlags { read: true, write: false, execute: true, user: true };
    let map = MapAction::MapSegment {
        mapping: SegmentMapping {
            page: 0x1000,
            size: 0x1000,
            flags,
            start: 0x1000,
            file_start: 0,
            file_end: 0x800,
        },
    };
    let reloc = MapAction::Relocate { base: 0x1000 };
    let end = MapAction::Finish { result: Ok(Ok(0x1000)) };
    assert_eq!(
        actions(Arch::Riscv64, 0x1000, &e),
        vec![map, MapAction::Populate { start: 0x1000, size: 0x1000, flags }, reloc, end]
    );
    assert_eq!(actions(Arch::X86_64, 0x1000, &e), vec![map, reloc, end]);
    let e32 = entry(1, &elf32(3, 0, &[]));
    assert_eq!(actions(Arch::Riscv64, 0x1000, &e32), vec![end]);
}

#[test]
fn a_failed_mapping_ends_the_mapping() {
    let e = entry(1, &elf64(2, 0, &[(LOAD, 5, 0, 0x1_0000, 1, 1), (LOAD, 5, 0, 0x2_0000, 1, 1)]));
    let mut m = map_elf(Arch::Riscv64, 0, &e).unwrap();
    m.step(Err(KernelError::Other(12))).unwrap();
    assert_eq!(m.action(), MapAction::Finish { result: Err(KernelError::Other(12)) });
}

#[test]
fn segments_that_cannot_be_mapped_are_faults() {
    let fault = |s: Segment, kind, bias| map_elf(Arch::Riscv64, bias, &entry(1, &elf64(kind, 0, &[s]))).err();
    assert_eq!(fault((LOAD, 5, 0x10, 0x1_0000, 1, 1), 2, 0), Some(Fault::SegmentOffset));
    assert_eq!(fault((LOAD, 5, 0, u64::MAX - 4095, 1, 1), 3, 0x1000), Some(Fault::Overflow));
    assert_eq!(fault((LOAD, 5, 0, 0, 1, u64::MAX), 2, 0), Some(Fault::Overflow));
    assert_eq!(fault((LOAD, 5, 0x1000, 0, u64::MAX, 1), 2, 0), Some(Fault::Overflow));
    assert_eq!(fault((NOTE, 5, 0x10, 0x1_0000, 1, 1), 2, 0), None);
}

#[test]
fn a_mapping_gives_the_entry_point() {
    let segments = [(LOAD, 5, 0, 0x2000, 0x800, 0x800)];
    let shared = entry(1, &elf64(3, 0x2500, &segments));
    let fixed = entry(1, &elf64(2, 0x2500, &segments));
    let far = entry(1, &elf64(3, u64::MAX, &segments));
    let at = |e: &ElfCacheEntry| map_elf(Arch::Riscv64, 0x10_0000, e).unwrap().entry_point();
    assert_eq!(at(&shared), Ok(0x10_2500));
    assert_eq!(at(&fixed), Ok(0x2500));
    assert_eq!(at(&far), Err(Fault::Overflow));
}

// ---------- The auxiliary vector ----------

#[test]
fn auxiliary_vector_describes_the_program() {
    let e = entry(1, &elf64(3, 0x500, &[(LOAD, 5, 0, 0x2000, 0x800, 0x800)]));
    let a = |kind, value| AuxEntry { kind, value };
    assert_eq!(
        make_auxv(Arch::Riscv64, &e, 0x10_0000, Some(0x70_0000)),
        Ok(vec![
            a(AuxType::Phdr, 0x10_2040),
            a(AuxType::Phent, 56),
            a(AuxType::Phnum, 1),
            a(AuxType::Pagesz, 4096),
            a(AuxType::Entry, 0x10_0500),
            a(AuxType::Base, 0x70_0000),
            a(AuxType::Hwcap, 0x112d),
        ])
    );
    assert_eq!(find_start(&e, 0x10_0000), Ok(0x10_0500));
    let fixed = entry(1, &elf64(2, 0x500, &[(LOAD, 5, 0, 0x2000, 0x800, 0x800)]));
    let v = make_auxv(Arch::X86_64, &fixed, 0x10_0000, None).unwrap();
    assert_eq!(v[0], a(AuxType::Phdr, 0x2040));
    assert_eq!(v[4], a(AuxType::Entry, 0x500));
    assert_eq!(v[5], a(AuxType::Hwcap, 0));
    assert_eq!(v.len(), 6);
    assert_eq!(find_start(&fixed, 0x10_0000), Ok(0x500));
}

#[test]
fn headers_outside_all_segments_are_a_fault() {
    let e = entry(1, &elf64(2, 0, &[(LOAD, 5, 0x1000, 0x1000, 0x800, 0x800)]));
    assert_eq!(make_auxv(Arch::Riscv64, &e, 0, None), Err(Fault::UnmappedHeaders));
}

#[test]
fn an_entry_point_beyond_the_address_space_is_a_fault() {
    let e = entry(1, &elf64(3, u64::MAX, &[(LOAD, 5, 0, 0, 0x800, 0x800)]));
    assert_eq!(find_start(&e, 1), Err(Fault::Overflow));
    assert_eq!(make_auxv(Arch::Riscv64, &e, 1, None), Err(Fault::Overflow));
    assert_eq!(find_start(&e, 0), Ok(usize::MAX));
}

// ---------- The cache ----------

#[test]
fn cache_keeps_the_most_recently_used() {
    let mut c = ElfLoader::new();
    assert!(c.first().is_none());
    assert!(!c.touch(0));
    for l in 0..CACHE_SIZE as u64 {
        c.insert(entry(l, &elf64(2, l, &[])));
    }
    assert_eq!(c.first().unwrap().location, 31);
    assert_eq!(c.nth(31).unwrap().location, 0);
    assert!(c.touch(0));
    assert_eq!(c.first().unwrap().location, 0);
    assert_eq!(c.nth(1).unwrap().location, 31);
    c.insert(entry(100, &elf64(2, 100, &[])));
    assert!(!c.touch(1));
    assert!(c.touch(2));
    assert!(c.touch(0));
    assert_eq!(c.first().unwrap().header.entry, 0);
    assert!(c.nth(32).is_none());
    clear_elf_cache(&mut c);
    assert!(c.first().is_none());
    assert!(!c.touch(0));
}

// ---------- Loading ----------

struct Files {
    files: Vec<(&'static str, u64, Vec<u8>)>,
    ends: Vec<usize>,
    fail: Option<&'static str>,
    seen: Vec<String>,
}

impl Files {
    fn new(files: Vec<(&'static str, u64, Vec<u8>)>) -> Files {
        Files { files, ends: vec![], fail: None, seen: vec![] }
    }

    fn data(&self, location: u64) -> &Vec<u8> {
        &self.files.iter().find(|f| f.1 == location).unwrap().2
    }

    fn done(&mut self, what: String) -> LoadInput {
        let failed = self.fail == Some(what.as_str());
        self.seen.push(what);
        LoadInput::Done(if failed { Err(KernelError::Other(12)) } else { Ok(()) })
    }

    fn perform(&mut self, loader: &ElfLoader, a: LoadAction) -> LoadInput {
        match a {
            LoadAction::Resolve { path } => {
                self.seen.push(format!("resolve {path}"));
                LoadInput::Location(match self.files.iter().find(|f| f.0 == path) {
                    Some(f) => Ok(f.1),
                    None => Err(KernelError::Other(2)),
                })
            }
            LoadAction::ReadHeaders { location } => {
                self.seen.push(format!("headers {location}"));
                LoadInput::Entry(match head(location, self.data(location)).unwrap() {
                    HeadRead::Failed(e) => Err(e),
                    HeadRead::NotElf(d) => Ok(Err(d)),
                    HeadRead::Loaded(e) => Ok(Ok(e)),
                    HeadRead::ReadTable(_) => panic!("table"),
                })
            }
            LoadAction::Clear => self.done("clear".to_string()),
            LoadAction::MapTrampoline => self.done("trampoline".to_string()),
            LoadAction::ReadAt { location, offset, len } => {
                self.seen.push(format!("read {location} {offset:#x} {len}"));
                let d = self.data(location);
                let mut buf = vec![0; len];
                let mut read = 0;
                for (i, b) in buf.iter_mut().enumerate() {
                    if let Some(v) = d.get(offset as usize + i) {
                        *b = *v;
                        read += 1;
                    }
                }
                LoadInput::Data(Ok((buf, read)))
            }
            LoadAction::MapElf { index, bias } => {
                let l = loader.nth(index).unwrap().location;
                self.done(format!("map {l} {bias:#x}"))
            }
            LoadAction::ListAreas => {
                self.seen.push("areas".to_string());
                LoadInput::Ends(self.ends.clone())
            }
            LoadAction::Nothing => panic!("nothing to do"),
        }
    }

    fn load(&mut self, loader: &mut ElfLoader, path: &str) -> Result<LoadProgress, Fault> {
        let mut l: ProgramLoad = loader.load(Arch::Riscv64, layout(), path);
        loop {
            let input = self.perform(loader, l.action());
            match l.step(loader, input)? {
                LoadProgress::Continue => {}
                p => {
                    assert_eq!(l.phase, LoadPhase::Finished);
                    assert!(matches!(l.action(), LoadAction::Nothing));
                    return Ok(p);
                }
            }
        }
    }
}

fn static_program() -> Vec<u8> {
    elf64(2, 0x1_0040, &[(LOAD, 5, 0, 0x1_0000, 0x200, 0x200)])
}

fn dynamic_program(path: &[u8]) -> Vec<u8> {
    let mut d = elf64(
        3,
        0x300,
        &[(LOAD, 5, 0, 0, 0x400, 0x400), (INTERP, 4, 0x100, 0x100, path.len() as u64, 32)],
    );
    d.resize(0x100, 0);
    d.extend(path);
    d
}

fn linker() -> Vec<u8> {
    elf64(3, 0x80, &[(LOAD, 5, 0, 0, 0x200, 0x200)])
}

fn loaded(r: Result<LoadProgress, Fault>) -> (usize, Vec<AuxEntry>) {
    match r {
        Ok(LoadProgress::Loaded { entry, auxv }) => (entry, auxv),
        _ => panic!("not loaded"),
    }
}

#[test]
fn a_program_is_loaded_at_the_start_of_user_space() {
    let mut loader = ElfLoader::new();
    let mut files = Files::new(vec![("/bin/a", 4, static_program())]);
    let (start, auxv) = loaded(files.load(&mut loader, "/bin/a"));
    assert_eq!(start, 0x1_0040);
    assert_eq!(auxv.len(), 6);
    assert_eq!(
        files.seen,
        ["resolve /bin/a", "headers 4", "clear", "trampoline", "map 4 0x1000"]
    );
    assert_eq!(loader.first().unwrap().location, 4);
}

#[test]
fn a_program_that_was_loaded_before_is_found_in_the_cache() {
    let mut loader = ElfLoader::new();
    let mut files = Files::new(vec![("/bin/a", 4, static_program())]);
    let before = loaded(files.load(&mut loader, "/bin/a"));
    files.seen.clear();
    assert_eq!(loaded(files.load(&mut loader, "/bin/a")), before);
    assert_eq!(files.seen, ["resolve /bin/a", "clear", "trampoline", "map 4 0x1000"]);
}

#[test]
fn an_interpreter_is_loaded_behind_the_program_and_starts() {
    let mut loader = ElfLoader::new();
    let mut files = Files::new(vec![
        ("/bin/a", 4, dynamic_program(b"/lib/ld.so\0")),
        ("/lib/ld.so", 9, linker()),
    ]);
    files.ends = vec![0x6000, 0x12_3000, 0x7000];
    let (start, auxv) = loaded(files.load(&mut loader, "/bin/a"));
    assert_eq!(start, 0x20_0080);
    assert_eq!(auxv[0], AuxEntry { kind: AuxType::Phdr, value: 0x1040 });
    assert_eq!(auxv[4], AuxEntry { kind: AuxType::Entry, value: 0x1300 });
    assert_eq!(auxv[5], AuxEntry { kind: AuxType::Base, value: 0x20_0000 });
    assert_eq!(
        files.seen,
        [
            "resolve /bin/a",
            "headers 4",
            "clear",
            "trampoline",
            "read 4 0x100 11",
            "resolve /lib/ld.so",
            "headers 9",
            "map 4 0x1000",
            "areas",
            "map 9 0x200000",
        ]
    );
    assert_eq!(loader.first().unwrap().location, 9);
    assert_eq!(loader.nth(1).unwrap().location, 4);
}

#[test]
fn a_script_is_handed_back_before_anything_is_changed() {
    let mut loader = ElfLoader::new();
    let mut files = Files::new(vec![("/a", 1, b"#!/bin/x\n".to_vec())]);
    match files.load(&mut loader, "/a") {
        Ok(LoadProgress::NotElf(d)) => assert_eq!(d, b"#!/bin/x\n"),
        _ => panic!("not handed back"),
    }
    assert_eq!(files.seen, ["resolve /a", "headers 1"]);
    assert!(loader.first().is_none());
}

#[test]
fn a_missing_file_is_an_error() {
    let mut loader = ElfLoader::new();
    let mut files = Files::new(vec![]);
    assert!(matches!(
        files.load(&mut loader, "/a"),
        Ok(LoadProgress::Failed(KernelError::Other(2)))
    ));
    assert_eq!(files.seen, ["resolve /a"]);
}

#[test]
fn an_interpreter_must_be_a_program_with_a_proper_path() {
    for (path, other) in [
        (&b"/lib/ld.so"[..], linker()),
        (&b"/lib/\xffld\0"[..], linker()),
        (&b"/lib/ld.so\0"[..], b"text".to_vec()),
    ] {
        let mut loader = ElfLoader::new();
        let mut files =
            Files::new(vec![("/a", 1, dynamic_program(path)), ("/lib/ld.so", 2, other)]);
        assert!(matches!(
            files.load(&mut loader, "/a"),
            Ok(LoadProgress::Failed(KernelError::InvalidInput))
        ));
    }
}

#[test]
fn a_truncated_interpreter_path_is_a_fault() {
    let mut loader = ElfLoader::new();
    let mut d = dynamic_program(b"/lib/ld.so\0");
    d.truncate(0x105);
    let mut files = Files::new(vec![("/a", 1, d)]);
    assert!(matches!(files.load(&mut loader, "/a"), Err(Fault::ShortInterpreter)));
}

#[test]
fn a_program_that_is_its_own_interpreter_is_a_fault_in_an_empty_cache() {
    let mut loader = ElfLoader::new();
    let mut files = Files::new(vec![("/a", 1, dynamic_program(b"/a\0"))]);
    assert!(matches!(files.load(&mut loader, "/a"), Err(Fault::MissingEntry)));
}

#[test]
fn no_room_for_an_interpreter_is_a_fault() {
    let mut loader = ElfLoader::new();
    let mut files = Files::new(vec![
        ("/a", 1, dynamic_program(b"/lib/ld.so\0")),
        ("/lib/ld.so", 2, linker()),
    ]);
    files.ends = vec![usize::MAX];
    assert!(matches!(files.load(&mut loader, "/a"), Err(Fault::Overflow)));
}

#[test]
fn a_failed_action_ends_the_load() {
    for fail in ["trampoline", "map 1 0x1000", "map 2 0x100000"] {
        let mut loader = ElfLoader::new();
        let mut files = Files::new(vec![
            ("/a", 1, dynamic_program(b"/lib/ld.so\0")),
            ("/lib/ld.so", 2, linker()),
        ]);
        files.fail = Some(fail);
        assert!(matches!(
            files.load(&mut loader, "/a"),
            Ok(LoadProgress::Failed(KernelError::Other(12)))
        ));
        assert_eq!(files.seen.last().unwrap(), fail);
    }
}
