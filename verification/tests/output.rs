//! Text for the firmware's console.

use choosable::efi::output::{format_u64_buf, print_dec, print_hex, prints};

#[test]
fn test_format_u64_buf_zero() {
    let (buf, len) = format_u64_buf(0);
    assert_eq!(&buf[..len], b"0");
}

#[test]
fn test_format_u64_buf_small() {
    let (buf, len) = format_u64_buf(42);
    let result = &buf[20 - len..];
    assert_eq!(core::str::from_utf8(result).unwrap(), "42");
}

#[test]
fn test_format_u64_buf_large() {
    let (buf, len) = format_u64_buf(1234567890);
    let result = &buf[20 - len..];
    assert_eq!(core::str::from_utf8(result).unwrap(), "1234567890");
}

#[test]
fn test_format_u64_buf_max() {
    let (buf, len) = format_u64_buf(u64::MAX);
    assert!(len > 0 && len <= 20);
    assert!(buf[20 - len] != 0);
}

#[test]
fn decimal_numbers_print_from_their_first_digit_on() {
    assert_eq!(print_dec(0), b"0");
    assert_eq!(print_dec(u64::MAX), b"18446744073709551615");
}

#[test]
fn hexadecimal_numbers_follow_their_prefix() {
    let shown = print_hex(b"LBA ", 0xABCD);
    assert!(shown.starts_with(b"LBA "));
    assert!(shown.windows(4).any(|w| w.eq_ignore_ascii_case(b"ABCD")));
}

#[test]
fn console_text_ends_in_a_zero_unit() {
    let units = prints(b"Hi");
    assert_eq!(&units[..2], &[0x48u16, 0x69]);
    assert_eq!(*units.last().unwrap(), 0);
}
