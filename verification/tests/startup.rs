use starry_exec::auxv::{AuxEntry, AuxType};
use starry_exec::error::{Fault, KernelError};
use starry_exec::loader::LoadProgress;
use starry_exec::paging::{Layout, MappingFlags, Region};
use starry_exec::stack::app_stack;
use starry_exec::user_app::{
    load_user_app, place_stack, AppAction, AppInput, AppProgress, AreaKind, UserApp,
};

const TOP: usize = 0x4_0000_0000;

fn layout() -> Layout {
    Layout {
        user_space_base: 0x1000,
        user_space_size: 0x3f_ffff_f000,
        user_stack_top: TOP,
        user_stack_size: 0x8_0000,
        user_heap_base: 0x4000_0000,
        user_heap_size: 0x1_0000,
        signal_trampoline: 0x6000_1000,
        cq_trampoline: 0x6000_2000,
    }
}

fn strings(v: &[&str]) -> Vec<String> {
    v.iter().map(|s| s.to_string()).collect()
}

fn start(path: Option<&str>, args: &[&str]) -> UserApp {
    load_user_app(layout(), path.map(|p| p.to_string()), strings(args), strings(&["HOME=/"]))
        .unwrap_or_else(|_| panic!("no program"))
}

fn path_of(app: &UserApp) -> String {
    match app.action() {
        AppAction::Load { path } => path,
        _ => panic!("no load"),
    }
}

fn not_elf(app: &mut UserApp, data: &[u8]) -> AppProgress {
    app.step(AppInput::Load(LoadProgress::NotElf(data.to_vec()))).unwrap()
}

#[test]
fn the_first_argument_is_the_path() {
    assert_eq!(path_of(&start(None, &["/bin/a", "x"])), "/bin/a");
    assert_eq!(path_of(&start(Some("/bin/b"), &["/bin/a", "x"])), "/bin/b");
    assert_eq!(path_of(&start(Some("/bin/b"), &[])), "/bin/b");
}

#[test]
fn a_program_needs_a_path() {
    let r = load_user_app(layout(), None, vec![], vec![]);
    assert!(matches!(r, Err(KernelError::InvalidInput)));
}

#[test]
fn shell_scripts_are_run_by_the_shell() {
    let app = start(None, &["/init.sh", "now"]);
    assert_eq!(path_of(&app), "/bin/sh");
    assert_eq!(app.args, strings(&["/bin/sh", "/init.sh", "now"]));
    let app = start(Some("/x.sh"), &["init"]);
    assert_eq!(path_of(&app), "/bin/sh");
    assert_eq!(app.args, strings(&["/bin/sh", "init"]));
}

#[test]
fn scripts_are_run_by_their_interpreter() {
    let mut app = start(None, &["/tool", "x", "y"]);
    assert_eq!(not_elf(&mut app, b"#!/usr/bin/env lua -i\nprint(1)"), AppProgress::Continue);
    assert_eq!(path_of(&app), "/usr/bin/env");
    assert_eq!(app.args, strings(&["/usr/bin/env", "lua -i", "/tool", "x", "y"]));
    assert_eq!(not_elf(&mut app, b"#! /bin/env.sh \n"), AppProgress::Continue);
    assert_eq!(path_of(&app), "/bin/sh");
    assert_eq!(
        app.args,
        strings(&["/bin/sh", "/bin/env.sh", "/usr/bin/env", "lua -i", "/tool", "x", "y"])
    );
}

#[test]
fn a_script_keeps_its_path_over_its_name() {
    let mut app = start(Some("/opt/tool"), &["name", "x"]);
    assert_eq!(not_elf(&mut app, b"#!/bin/lua\n"), AppProgress::Continue);
    assert_eq!(app.args, strings(&["/bin/lua", "/opt/tool", "x"]));
    let mut app = start(Some("/opt/tool"), &[]);
    assert_eq!(not_elf(&mut app, b"#!/bin/lua\n"), AppProgress::Continue);
    assert_eq!(app.args, strings(&["/bin/lua", "/opt/tool"]));
}

#[test]
fn other_files_are_no_programs() {
    let mut app = start(None, &["/a"]);
    assert_eq!(not_elf(&mut app, b"text"), AppProgress::Failed(KernelError::InvalidExecutable));
    let mut app = start(None, &["/a"]);
    assert_eq!(not_elf(&mut app, b"#!\xff"), AppProgress::Failed(KernelError::InvalidInput));
    assert!(matches!(app.action(), AppAction::Nothing));
}

#[test]
fn a_failed_load_fails_the_start() {
    let mut app = start(None, &["/a"]);
    let r = app.step(AppInput::Load(LoadProgress::Failed(KernelError::Other(2))));
    assert_eq!(r, Ok(AppProgress::Failed(KernelError::Other(2))));
}

fn vector() -> Vec<AuxEntry> {
    vec![
        AuxEntry { kind: AuxType::Pagesz, value: 4096 },
        AuxEntry { kind: AuxType::Entry, value: 0x1_0040 },
        AuxEntry { kind: AuxType::Hwcap, value: 0x112d },
    ]
}

#[test]
fn stack_holds_arguments_environment_and_vector() {
    let args = strings(&["/bin/a", "xyz"]);
    let envs = strings(&["HOME=/"]);
    let (sp, data) = app_stack(&args, &envs, &vector(), TOP).unwrap();
    assert_eq!(sp + data.len(), TOP);
    assert_eq!(sp % 16, 0);
    let word = |i: usize| u64::from_le_bytes(data[8 * i..8 * i + 8].try_into().unwrap()) as usize;
    let text = |addr: usize| {
        let at = addr - sp;
        let n = data[at..].iter().position(|b| *b == 0).unwrap();
        String::from_utf8(data[at..at + n].to_vec()).unwrap()
    };
    assert_eq!(word(0), 2);
    assert_eq!(text(word(1)), "/bin/a");
    assert_eq!(text(word(2)), "xyz");
    assert_eq!(word(3), 0);
    assert_eq!(text(word(4)), "HOME=/");
    assert_eq!(word(5), 0);
    let pairs: Vec<(usize, usize)> = (3..9).map(|i| (word(2 * i), word(2 * i + 1))).collect();
    assert!(pairs.contains(&(6, 4096)));
    assert!(pairs.contains(&(9, 0x1_0040)));
    assert!(pairs.contains(&(16, 0x112d)));
}

#[test]
fn stack_pointer_is_aligned_for_all_sizes() {
    for n in 1..40 {
        let args = vec!["a".repeat(n); n % 5 + 1];
        let envs = vec!["b".repeat(2 * n); n % 3];
        let (sp, data) = app_stack(&args, &envs, &vector(), TOP).unwrap();
        assert_eq!(sp % 16, 0);
        assert_eq!(sp + data.len(), TOP);
    }
}

#[test]
fn a_stack_without_room_or_arguments_is_refused() {
    assert!(app_stack(&vec![], &vec![], &vector(), TOP).is_none());
    assert!(app_stack(&strings(&["a"]), &vec![], &vector(), 100).is_none());
    assert!(app_stack(&vec!["a".repeat(300)], &vec![], &vector(), 300).is_none());
}

#[test]
fn stack_contents_are_placed_below_the_top() {
    assert_eq!(
        place_stack(0x10000, &vec![0; 0x123]),
        Some((0xfedd, Region { start: 0xf000, size: 0x1000 }))
    );
    assert_eq!(
        place_stack(0x10000, &vec![0; 0x1001]),
        Some((0xefff, Region { start: 0xe000, size: 0x2000 }))
    );
    assert_eq!(place_stack(0x10, &vec![0; 0x11]), None);
    assert_eq!(place_stack(0x10010, &vec![]), Some((0x10010, Region { start: 0x10000, size: 0x1000 })));
}

#[test]
fn a_loaded_program_gets_its_stack_and_heap() {
    let mut app = start(None, &["/bin/a", "x"]);
    let flags = MappingFlags { read: true, write: true, execute: false, user: true };
    let r = app.step(AppInput::Load(LoadProgress::Loaded { entry: 0x1_0040, auxv: vector() }));
    assert_eq!(r, Ok(AppProgress::Continue));
    match app.action() {
        AppAction::MapArea { kind, area, flags: f, populate } => {
            assert_eq!(kind, AreaKind::Stack);
            assert_eq!(area, Region { start: TOP - 0x8_0000, size: 0x8_0000 });
            assert_eq!(f, flags);
            assert!(!populate);
        }
        _ => panic!("stack"),
    }
    assert_eq!(app.step(AppInput::Done(Ok(()))), Ok(AppProgress::Continue));
    let (sp, data) =
        app_stack(&strings(&["/bin/a", "x"]), &strings(&["HOME=/"]), &vector(), TOP).unwrap();
    match app.action() {
        AppAction::Populate { pages, flags } => {
            assert_eq!(pages, Region { start: TOP - 0x1000, size: 0x1000 });
            assert!(flags.read && flags.write && !flags.execute && !flags.user);
        }
        _ => panic!("pages"),
    }
    assert_eq!(app.step(AppInput::Done(Ok(()))), Ok(AppProgress::Continue));
    match app.action() {
        AppAction::Write { start, data: d } => {
            assert_eq!(start, sp);
            assert_eq!(d, data);
        }
        _ => panic!("contents"),
    }
    assert_eq!(app.step(AppInput::Done(Ok(()))), Ok(AppProgress::Continue));
    match app.action() {
        AppAction::MapArea { kind, area, flags: f, populate } => {
            assert_eq!(kind, AreaKind::Heap);
            assert_eq!(area, Region { start: 0x4000_0000, size: 0x1_0000 });
            assert_eq!(f, flags);
            assert!(populate);
        }
        _ => panic!("heap"),
    }
    assert_eq!(
        app.step(AppInput::Done(Ok(()))),
        Ok(AppProgress::Ready { entry: 0x1_0040, sp })
    );
    assert_eq!(app.auxv, vector());
}

#[test]
fn a_failed_mapping_fails_the_start() {
    let mut app = start(None, &["/bin/a"]);
    app.step(AppInput::Load(LoadProgress::Loaded { entry: 1, auxv: vector() })).unwrap();
    assert_eq!(
        app.step(AppInput::Done(Err(KernelError::Other(12)))),
        Ok(AppProgress::Failed(KernelError::Other(12)))
    );
}

#[test]
fn a_stack_that_cannot_be_laid_out_is_a_fault() {
    let mut small = layout();
    small.user_stack_top = 0x1000;
    let mut app = load_user_app(small, None, strings(&["/a"]), vec![]).unwrap_or_else(|_| panic!());
    let r = app.step(AppInput::Load(LoadProgress::Loaded { entry: 1, auxv: vec![] }));
    assert_eq!(r, Err(Fault::Overflow));
    let mut app = start(Some("/a"), &[]);
    app.step(AppInput::Load(LoadProgress::Loaded { entry: 1, auxv: vec![] })).unwrap();
    assert_eq!(app.step(AppInput::Done(Ok(()))), Err(Fault::StackRegion));
}

#[test]
fn contents_that_leave_the_address_space_are_a_fault() {
    let mut small = layout();
    small.user_stack_top = 0x100;
    small.user_stack_size = 0x100;
    let mut app = load_user_app(small, None, strings(&["/a"]), vec![]).unwrap_or_else(|_| panic!());
    assert_eq!(app.filled(vec![0; 0x101]), Err(Fault::Overflow));
    assert_eq!(app.filled(vec![0; 0x100]), Ok(AppProgress::Continue));
}
