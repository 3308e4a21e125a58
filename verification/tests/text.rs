use probe_run::backtrace::format_frame;
use probe_run::text::{push_decimal, push_hex, push_right_aligned, same_text, Letters};

#[test]
fn numbers_are_appended_in_decimal() {
    let mut out = String::from("n=");
    push_decimal(&mut out, 0);
    out.push(' ');
    push_decimal(&mut out, 1090);
    out.push(' ');
    push_decimal(&mut out, u32::MAX);
    assert_eq!(out, "n=0 1090 4294967295");
}

#[test]
fn numbers_are_appended_in_hexadecimal() {
    let mut out = String::new();
    push_hex(&mut out, 0xdead_beef, 8, Letters::Lower);
    out.push('/');
    push_hex(&mut out, 0xdead_beef, 8, Letters::Upper);
    out.push('/');
    push_hex(&mut out, 0x1f, 4, Letters::Lower);
    out.push('/');
    push_hex(&mut out, 0x1234, 2, Letters::Lower);
    assert_eq!(out, "deadbeef/DEADBEEF/001f/34");
}

#[test]
fn short_texts_are_padded_on_the_left() {
    let mut out = String::new();
    push_right_aligned(&mut out, "7", 4);
    push_right_aligned(&mut out, "é", 3);
    push_right_aligned(&mut out, "12345", 4);
    assert_eq!(out, "   7  é12345");
}

#[test]
fn texts_are_the_same_only_if_they_are_equal() {
    assert!(same_text("", ""));
    assert!(same_text("HardFault", "HardFault"));
    assert!(!same_text("HardFault", "HardFaults"));
    assert!(!same_text("HardFault", "hardFault"));
    assert!(!same_text("é", "e"));
}

#[test]
fn frame_line_is_that_of_the_formatter() {
    for (frame, pc, name) in vec![
        (0, 0x0000_0412, "main"),
        (12, 0x2000_0001, "<unknown>"),
        (9999, 0xffff_fffe, "core::panicking::panic"),
        (123_456, 0, ""),
    ] {
        assert_eq!(
            format_frame(frame, pc, name),
            format!("{:>4}: {:#010x} - {}", frame, pc, name)
        );
    }
    assert_eq!(format_frame(3, 0x412, "main"), "   3: 0x00000412 - main");
}

#[test]
fn digits_stand_for_their_number() {
    for n in vec![0, 9, 10, 15, 16, 0x1234_5678, 0x89ab_cdef, u32::MAX] {
        let mut out = String::new();
        push_decimal(&mut out, n);
        assert_eq!(out.parse(), Ok(n));
        for letters in vec![Letters::Lower, Letters::Upper] {
            let mut out = String::new();
            push_hex(&mut out, n, 8, letters);
            assert_eq!(out.len(), 8);
            assert_eq!(u32::from_str_radix(&out, 16), Ok(n));
        }
    }
}
