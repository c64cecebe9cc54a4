//! Payload locations.

use choosable::efi::fs::{PayloadEntry, PayloadType};
use choosable::efi::locator::{
    BootPayloadLocator, EfiPayloadLocator, FileBackedIsoLocator, IsoLocation, VhdPayloadLocator,
    WimPayloadLocator,
};
use choosable::efi::protocol::Guid;

fn make_entry(name: &[u8], lba: u64, size: u64) -> PayloadEntry {
    let name_len = name.len().min(256);
    let mut n = [0u8; 256];
    n[..name_len].copy_from_slice(&name[..name_len]);
    PayloadEntry { name: n, name_len, file_start_lba: lba, file_size: size, payload_type: PayloadType::Iso }
}

#[test]
fn iso_location_offset_bytes() {
    let e = make_entry(b"/test.iso", 100, 1024);
    let loc = IsoLocation::from_payload_entry(&e, Guid { d1: 0, d2: 0, d3: 0, d4: [0; 8] }, 1, 50, false);
    assert_eq!(loc.offset_bytes(), (100 - 50) * 512);
    assert_eq!(loc.file_name(), b"test.iso");
    assert_eq!(loc.path_without_leading_slash(), b"test.iso");
}

#[test]
fn iso_location_slash_handling() {
    let e = make_entry(b"/boot/ubuntu.iso", 0, 0);
    let loc = IsoLocation::from_payload_entry(&e, Guid { d1: 0, d2: 0, d3: 0, d4: [0; 8] }, 1, 0, false);
    assert_eq!(loc.file_name(), b"ubuntu.iso");
    assert_eq!(loc.path_without_leading_slash(), b"boot/ubuntu.iso");
}

#[test]
fn iso_location_no_slash() {
    let e = make_entry(b"ubuntu.iso", 0, 0);
    let loc = IsoLocation::from_payload_entry(&e, Guid { d1: 0, d2: 0, d3: 0, d4: [0; 8] }, 1, 0, false);
    assert_eq!(loc.file_name(), b"ubuntu.iso");
    assert_eq!(loc.path_without_leading_slash(), b"ubuntu.iso");
}

#[test]
fn payload_locators_create_correctly() {
    let e = make_entry(b"/test.iso", 0, 0);
    let guid = Guid { d1: 1, d2: 2, d3: 3, d4: [4, 5, 6, 7, 8, 9, 10, 11] };
    let f = FileBackedIsoLocator::from_payload_entry(&e, guid, 1, 0, false);
    assert_eq!(f.payload_type(), "ISO");
    assert_eq!(f.location.partition_number, 1);

    let w = WimPayloadLocator::from_payload_entry(&e, guid, 2, 0, false);
    assert_eq!(w.payload_type(), "WIM");
    assert_eq!(w.location.partition_number, 2);

    let ef = EfiPayloadLocator::from_payload_entry(&e, guid, 3, 0, false);
    assert_eq!(ef.payload_type(), "EFI");
    assert_eq!(ef.location.partition_number, 3);

    let vhd_entry = {
        let mut n = [0u8; 256];
        n[..9].copy_from_slice(b"/test.vhd");
        PayloadEntry { name: n, name_len: 9, file_start_lba: 0, file_size: 0, payload_type: PayloadType::Vhd }
    };
    let v = VhdPayloadLocator::from_payload_entry(&vhd_entry, guid, 4, 0, false);
    assert_eq!(v.is_vhdx, false);
    assert_eq!(v.payload_type(), "VHD");
}
