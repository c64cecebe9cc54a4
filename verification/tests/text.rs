//! Text helpers.

use choosable::text::{
    find, has, join2, join3, number_text, parse_number, push_hex, push_number, push_str,
    split_lines, split_words, starts_with, str_eq, trim,
};

#[test]
fn numbers_become_text_and_back() {
    assert_eq!(number_text(0), "0");
    assert_eq!(number_text(u64::MAX), "18446744073709551615");
    assert_eq!(parse_number("18446744073709551615", u64::MAX), Some(u64::MAX));
    assert_eq!(parse_number("007", 100), Some(7));
    assert_eq!(parse_number("+7", 100), Some(7));
}

#[test]
fn what_is_no_number_is_refused() {
    for s in ["", "+", "-1", "1 ", " 1", "1a", "0x10", "18446744073709551616"] {
        assert_eq!(parse_number(s, u64::MAX), None, "{}", s);
    }
    assert_eq!(parse_number("101", 100), None);
    assert_eq!(parse_number("100", 100), Some(100));
}

#[test]
fn texts_are_put_together() {
    assert_eq!(join2("/dev/", "sda"), "/dev/sda");
    assert_eq!(join3("a", "\u{e9}", "c"), "a\u{e9}c");
    let mut s = String::from("part ");
    push_number(&mut s, 2);
    push_str(&mut s, ", 0x");
    push_hex(&mut s, 0xAB, 4);
    assert_eq!(s, "part 2, 0x00AB");
}

#[test]
fn texts_are_taken_apart() {
    assert_eq!(trim(" \t 42\n"), "42");
    assert_eq!(trim("\u{2003}x\u{a0}"), "x");
    assert_eq!(split_words("  a  b\tc "), vec!["a", "b", "c"]);
    assert_eq!(split_lines("one\r\ntwo\n\nfour"), vec!["one", "two", "", "four"]);
    assert_eq!(split_lines("end\n"), vec!["end"]);
    assert!(split_lines("").is_empty());
}

#[test]
fn texts_are_searched() {
    let s: Vec<char> = "grub CHOOSABLE_VERSION=1".chars().collect();
    let p: Vec<char> = "CHOOSABLE_VERSION=".chars().collect();
    assert_eq!(find(&s, &p), Some(5));
    assert_eq!(find(&p, &s), None);
    assert!(has("/devices/usb1/1-1", "/usb"));
    assert!(!has("/devices/us", "/usb"));
    assert!(starts_with("nvme0n1", "nvme"));
    assert!(!starts_with("nv", "nvme"));
    assert!(str_eq("y", "y"));
    assert!(!str_eq("y", "Y"));
}
