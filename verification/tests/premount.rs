//! The archive that carries the early init.

use choosable::efi::premount::{
    build_premount_cpio, cpio_append_entry, cpio_entry_size, cpio_newc_header, hex_nibble,
};

#[test]
fn test_hex_nibble() {
    assert_eq!(hex_nibble(0), b'0');
    assert_eq!(hex_nibble(9), b'9');
    assert_eq!(hex_nibble(10), b'A');
    assert_eq!(hex_nibble(15), b'F');
}

#[test]
fn test_cpio_entry_size() {
    let sz = cpio_entry_size(10, 0);
    assert!(sz >= 110 + 1 + 10 + 1);
}

#[test]
fn test_cpio_newc_header_trailer() {
    let mut buf = [0u8; 128];
    let sz = cpio_newc_header(&mut buf, b"TRAILER!!!", 0, 0);
    assert!(sz > 0 && sz < 128);
    assert_eq!(&buf[..6], b"070701");
}

#[test]
fn a_header_has_its_fields_in_hexadecimal() {
    let mut buf = [0xFFu8; 128];
    let n = cpio_newc_header(&mut buf, b"init", 0x1A2B, 0o100755);
    assert_eq!(n, 116);
    assert_eq!(&buf[14..22], b"000081ED");
    assert_eq!(&buf[54..62], b"00001A2B");
    assert_eq!(&buf[94..102], b"00000005");
    assert_eq!(&buf[110..116], &[b'i', b'n', b'i', b't', 0, 0]);
}

#[test]
fn entries_are_padded() {
    let mut buf = vec![0u8; 256];
    let mut off = 0;
    assert!(cpio_append_entry(&mut buf, &mut off, b"a", b"xyz", 0));
    assert_eq!(off, 116);
    assert_eq!(&buf[112..116], b"xyz\0");
    assert!(!cpio_append_entry(&mut buf, &mut off, b"b", &[1; 200], 0));
    assert_eq!(off, 116);
}

#[test]
fn the_archive_holds_the_init_and_a_trailer() {
    let b = build_premount_cpio(&[0x7F; 10], 3);
    assert_eq!(b.iso_offset_bytes, 1536);
    let shown = &b.cpio_buf[..b.cpio_size];
    assert_eq!(&shown[..6], b"070701");
    assert!(shown.windows(14).any(|w| w == b"init.choosable"));
    assert!(shown.windows(10).any(|w| w == b"TRAILER!!!"));
    assert!(shown.windows(10).any(|w| w == [0x7F; 10]));
}
