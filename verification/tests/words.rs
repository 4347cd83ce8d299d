use starry_exec::bytes::{checked_sum, read_u64, to_le_bytes, to_signed, to_unsigned};
use starry_exec::error::KernelError;
use starry_exec::text::{
    is_shell_script, read_c_string, script_words, space, starts_like_script, trim,
};

#[test]
fn numbers_are_read_back_from_their_bytes() {
    for v in [0u64, 1, 0xff, 0x1234_5678_9abc_def0, u64::MAX] {
        assert_eq!(to_le_bytes(v), v.to_le_bytes().to_vec());
        let mut padded = vec![7u8; 3];
        padded.extend(to_le_bytes(v));
        assert_eq!(read_u64(&padded, 3), v);
    }
}

#[test]
fn signed_numbers_are_two_complement() {
    for v in [0u64, 1, i64::MAX as u64, 1 << 63, u64::MAX] {
        assert_eq!(to_signed(v), v as i64);
        assert_eq!(to_unsigned(v as i64), v);
    }
}

#[test]
fn a_sum_that_does_not_fit_is_none() {
    assert_eq!(checked_sum(1, 2), Some(3));
    assert_eq!(checked_sum(usize::MAX, 0), Some(usize::MAX));
    assert_eq!(checked_sum(usize::MAX, 1), None);
}

#[test]
fn space_characters_are_those_of_unicode() {
    for n in 0..=0x10ffffu32 {
        if let Some(c) = char::from_u32(n) {
            assert_eq!(space(false, c), c.is_whitespace(), "{n:#x}");
            assert_eq!(space(true, c), c.is_ascii_whitespace(), "{n:#x}");
        }
    }
}

#[test]
fn trimming_keeps_the_middle() {
    for s in ["", " ", "a", "  a b \t", "\u{a0}x\u{3000}", "\u{b}y\u{b}", "x\n", "\u{2028}"] {
        assert_eq!(trim(false, s), s.trim());
        assert_eq!(trim(true, s), s.trim_ascii());
    }
}

#[test]
fn script_line_has_one_or_two_words() {
    let words = |s: &str| script_words(&s.as_bytes().to_vec());
    assert_eq!(words("#!/bin/sh\necho"), Some(vec!["/bin/sh".to_string()]));
    assert_eq!(
        words("#! /usr/bin/env  python3 -u \nx"),
        Some(vec!["/usr/bin/env".to_string(), "python3 -u".to_string()])
    );
    assert_eq!(words("#!"), Some(vec!["".to_string()]));
    assert_eq!(words("#!/bin/awk -f"), Some(vec!["/bin/awk".to_string(), "-f".to_string()]));
}

#[test]
fn script_line_ends_where_the_head_ends() {
    let mut data = b"#!".to_vec();
    data.extend(vec![b'a'; 600]);
    assert_eq!(script_words(&data), Some(vec!["a".repeat(254)]));
}

#[test]
fn script_line_must_be_utf8() {
    assert_eq!(script_words(&b"#!/bin/\xff\n".to_vec()), None);
    assert_eq!(script_words(&b"#!/bin/sh\n\xff".to_vec()), Some(vec!["/bin/sh".to_string()]));
}

#[test]
fn scripts_start_with_a_mark() {
    assert!(starts_like_script(&b"#!".to_vec()));
    assert!(!starts_like_script(&b"#".to_vec()));
    assert!(!starts_like_script(&b"!#".to_vec()));
    assert!(!starts_like_script(&Vec::new()));
}

#[test]
fn interpreter_path_ends_with_one_zero() {
    assert_eq!(read_c_string(&b"/lib/ld.so\0".to_vec()), Some("/lib/ld.so".to_string()));
    assert_eq!(read_c_string(&b"\0".to_vec()), Some("".to_string()));
    assert_eq!(read_c_string(&b"/lib/ld.so".to_vec()), None);
    assert_eq!(read_c_string(&b"/lib\0ld.so\0".to_vec()), None);
    assert_eq!(read_c_string(&b"/lib\xff\0".to_vec()), None);
    assert_eq!(read_c_string(&Vec::new()), None);
}

#[test]
fn shell_scripts_are_told_by_their_name() {
    assert!(is_shell_script("/init.sh"));
    assert!(is_shell_script(".sh"));
    assert!(!is_shell_script("/bin/sh"));
    assert!(!is_shell_script("sh"));
    assert!(!is_shell_script("/init.sh "));
}

#[test]
fn errors_have_linux_numbers() {
    assert_eq!(KernelError::InvalidInput.errno(), 22);
    assert_eq!(KernelError::InvalidData.errno(), 22);
    assert_eq!(KernelError::InvalidExecutable.errno(), 8);
    assert_eq!(KernelError::AlreadyExists.errno(), 17);
    assert_eq!(KernelError::BadAddress.errno(), 14);
    assert_eq!(KernelError::WouldBlock.errno(), 11);
    assert_eq!(KernelError::Other(5).errno(), 5);
}
