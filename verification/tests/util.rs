//! The helpers for bytes and text.

use rriv_datalogger::util::{
    byte_is_alphanumeric, bytes_equal, check_alphanumeric, checksum_of, find_nul, format_decimal, hex_digits_of,
    lowercase_equals, push_decimal, push_hex, read_hex, remove_invalid_utf8, same_text,
    str_from_utf8,
};

#[test]
fn bytes_that_are_not_ascii_become_stars() {
    let mut buffer = [0x41, 0x80, 0xFF, 0x7F, 0x00, 0xC3];
    remove_invalid_utf8(&mut buffer);
    assert_eq!(buffer, [0x41, 42, 42, 0x7F, 0x00, 42]);
    let mut empty: [u8; 0] = [];
    remove_invalid_utf8(&mut empty);
}

#[test]
fn text_ends_at_the_first_nul() {
    let mut buffer = *b"abc\0def";
    assert_eq!(str_from_utf8(&mut buffer), Ok("abc"));
    let mut buffer = [b'a', 0xC3, 0xA9, b'b'];
    assert_eq!(str_from_utf8(&mut buffer), Ok("a**b"));
    assert_eq!(buffer, *b"a**b");
    let mut buffer = [0u8; 4];
    assert_eq!(str_from_utf8(&mut buffer), Ok(""));
    assert_eq!(find_nul(b"abc"), 3);
    assert_eq!(find_nul(b"\0abc"), 0);
    assert_eq!(find_nul(b""), 0);
}

#[test]
fn identifiers_are_checked() {
    assert!(check_alphanumeric(b"temp_1"));
    assert!(check_alphanumeric(b"a-b"));
    assert!(check_alphanumeric(b"ab\0\0\0\0"));
    assert!(check_alphanumeric(b"7"));
    assert!(!check_alphanumeric(b"te mp1"));
    assert!(!check_alphanumeric(b"\0abc"));
    assert!(!check_alphanumeric(b"ab!"));
    assert!(check_alphanumeric(b"ab_1-"));
    assert!(check_alphanumeric(b"AZaz09"));
    assert!(!check_alphanumeric(b"ab c"));
    assert!(!check_alphanumeric(b""));
    assert!(!check_alphanumeric(&[b'a', 0xE9]));
    assert!(!check_alphanumeric(&[0xC3, 0xA9]));
    assert!(!check_alphanumeric(&[b'a', 0xB2]));
    assert!(!check_alphanumeric(b"a/b"));
    assert!(!check_alphanumeric(b"a:b"));
    assert!(!check_alphanumeric(b"a@b"));
    assert!(!check_alphanumeric(b"a[b"));
    assert!(!check_alphanumeric(b"a`b"));
    assert!(!check_alphanumeric(b"a{b"));
    for byte in 0..=255u8 {
        let expected = byte.is_ascii_alphanumeric();
        assert_eq!(byte_is_alphanumeric(byte), expected);
        assert_eq!(check_alphanumeric(&[b'x', byte]), expected || byte == 0 || byte == b'_' || byte == b'-');
    }
    assert!(!check_alphanumeric(b"a.b"));
    assert!(!check_alphanumeric(&[0xB2]));
    assert!(!check_alphanumeric(&[b'a', 0xD7]));
    assert!(!check_alphanumeric(&[b'a', 0x80]));
    assert!(!check_alphanumeric(&[b'a', 0xFF]));
}

fn decimal(value: u32) -> String {
    let (buffer, length) = format_decimal(value).unwrap();
    assert!(buffer[length..].iter().all(|byte| *byte == 0));
    String::from_utf8(buffer[..length].to_vec()).unwrap()
}

#[test]
fn thousandths_are_written_with_a_point() {
    assert_eq!(decimal(1_234_567), "1234.567");
    assert_eq!(decimal(123), ".123");
    assert_eq!(decimal(1_000), "1.000");
    assert_eq!(decimal(99), "99");
    assert_eq!(decimal(5), "5");
    assert_eq!(decimal(0), "0");
    assert_eq!(decimal(u32::MAX), "4294967.295");
}

#[test]
fn numbers_are_written_in_hexadecimal() {
    assert_eq!(hex_digits_of(0), b"0".to_vec());
    assert_eq!(hex_digits_of(0x1AB), b"1AB".to_vec());
    assert_eq!(hex_digits_of(u32::MAX), b"FFFFFFFF".to_vec());
    let mut out = b":".to_vec();
    push_hex(&mut out, 0x34, 2);
    push_hex(&mut out, 3, 2);
    push_hex(&mut out, 0x80, 4);
    push_hex(&mut out, 0x12345, 4);
    push_hex(&mut out, 0, 0);
    assert_eq!(out, b":34030080123450".to_vec());
}

#[test]
fn hexadecimal_fields_are_read() {
    let text = b":34aF00zz";
    assert_eq!(read_hex(text, 1, 3), 0x34);
    assert_eq!(read_hex(text, 3, 5), 0xAF);
    assert_eq!(read_hex(text, 1, 5), 0x34AF);
    assert_eq!(read_hex(text, 5, 9), 0);
    assert_eq!(read_hex(text, 0, 2), 0);
    assert_eq!(read_hex(text, 1, 6), 0);
    assert_eq!(read_hex(text, 3, 3), 0);
    assert_eq!(read_hex(text, 7, 11), 0);
    assert_eq!(read_hex(b"FFFF", 0, 4), 0xFFFF);
    assert_eq!(read_hex(b"+F", 0, 2), 0);
}

#[test]
fn checksums_bring_the_sum_to_a_multiple_of_256() {
    assert_eq!(checksum_of(b"340300800004"), 0xAA);
    assert_eq!(checksum_of(b""), 0);
    assert_eq!(checksum_of(&[0x80, 0x80]), 0);
    assert_eq!(checksum_of(&[1]), 255);
    let long = vec![0xFFu8; 100_000];
    assert_eq!(checksum_of(&long), (256 - (100_000u32 * 255) % 256) % 256);
}

#[test]
fn texts_are_compared() {
    assert!(same_text("sensor", "sensor"));
    assert!(!same_text("sensor", "Sensor"));
    assert!(!same_text("sensor", "sensors"));
    assert!(bytes_equal(b"abc", b"abc"));
    assert!(!bytes_equal(b"abc", b"abd"));
    assert!(!bytes_equal(b"abc", b"ab"));
    assert!(lowercase_equals(b"ReAd", b"read"));
    assert!(lowercase_equals(b"read_conc", b"read_conc"));
    assert!(!lowercase_equals(b"read", b"READ"));
    assert!(!lowercase_equals(b"reads", b"read"));
    assert!(lowercase_equals(b"[Z]", b"[z]"));
}

#[test]
fn whole_numbers_are_written_in_decimal() {
    let mut out = Vec::new();
    push_decimal(&mut out, 0);
    out.push(b' ');
    push_decimal(&mut out, -5);
    out.push(b' ');
    push_decimal(&mut out, 1_700_000_000);
    out.push(b' ');
    push_decimal(&mut out, i64::MIN);
    out.push(b' ');
    push_decimal(&mut out, i64::MAX);
    assert_eq!(
        String::from_utf8(out).unwrap(),
        "0 -5 1700000000 -9223372036854775808 9223372036854775807"
    );
}
