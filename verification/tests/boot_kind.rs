//! Kernel arguments per boot family.

use choosable::efi::boot_kind::{
    guid_to_partuuid, name_matches, write_u64_decimal, BootKind, FixupType, HookTargetSet,
};
use choosable::efi::locator::IsoLocation;
use choosable::efi::protocol::Guid;

#[test]
fn test_guid_to_partuuid() {
    let guid = Guid { d1: 0x12345678, d2: 0x9abc, d3: 0xdef0, d4: [0x12, 0x34, 0x56, 0x78, 0x9a, 0xbc, 0xde, 0xf0] };
    let partuuid = guid_to_partuuid(&guid);
    assert_eq!(&partuuid[..], b"12345678-9abc-def0-1234-56789abcdef0");
}

#[test]
fn test_linux_extra_with_iso_location() {
    let guid = Guid { d1: 0x11111111, d2: 0x2222, d3: 0x3333, d4: [0x44, 0x55, 0x66, 0x77, 0x88, 0x99, 0xaa, 0xbb] };
    let file_path_str = b"/boot/ubuntu.iso";
    let loc = IsoLocation {
        partition_guid: guid,
        partition_number: 2,
        is_mbr: false,
        file_path: {
            let mut fp = [0u8; 256];
            let plen = file_path_str.len();
            fp[..plen].copy_from_slice(&file_path_str[..]);
            fp
        },
        file_path_len: file_path_str.len(),
        file_size: 2_000_000_000,
        part1_lba: 2048,
        iso_lba: 100_000,
    };
    let mut buf = [0u8; 512];
    let extra = BootKind::Casper.linux_extra(false, Some(&loc), &mut buf).unwrap();
    let s = core::str::from_utf8(extra).unwrap();
    assert!(s.contains("choosable.part_guid=11111111-2222-3333-4455-66778899aabb"));
    assert!(s.contains("choosable.part_num=2"));
    assert!(s.contains("choosable.iso_offset="));
    assert!(s.contains("choosable.iso_path=boot/ubuntu.iso"));
    assert!(s.contains("choosable.iso_size=2000000000"));
}

#[test]
fn test_name_matches() {
    assert!(name_matches(b"CASPER", b"casper"));
    assert!(name_matches(b"casper", b"CASPER"));
    assert!(name_matches(b"LiveOS", b"liveos"));
    assert!(name_matches(b"BOOTX64.EFI", b"bootx64.efi"));
}

#[test]
fn test_name_matches_fails() {
    assert!(!name_matches(b"CASPER", b"caspe"));
    assert!(!name_matches(b"live", b"lives"));
    assert!(!name_matches(b"BOOT", b"BOOTX"));
}

#[test]
fn test_boot_kind_linux_extra_no_panic() {
    let mut buf = [0u8; 512];
    for k in &[
        BootKind::Casper, BootKind::DebianLive, BootKind::FedoraLive,
        BootKind::ArchIso, BootKind::Alpine, BootKind::AlpinePremount,
        BootKind::WindowsPE, BootKind::Unknown,
    ] {
        let _ = k.linux_extra(false, None, &mut buf);
        let _ = k.linux_eol_extra();
        let _ = k.hook_targets();
        let _ = k.needs_sr_mod();
        let _ = k.fixup_type();
    }
}

#[test]
fn test_boot_kind_linux_extra_values() {
    let mut buf = [0u8; 512];
    assert_eq!(BootKind::Casper.linux_extra(false, None, &mut buf).unwrap(), b" boot=casper maybe-ubiquity init=/init.choosable");
    let mut buf2 = [0u8; 512];
    assert_eq!(BootKind::Casper.linux_extra(true, None, &mut buf2).unwrap(), b" boot=casper casper_path=pop-os maybe-ubiquity init=/init.choosable");
    let mut buf3 = [0u8; 512];
    assert_eq!(BootKind::WindowsPE.linux_extra(false, None, &mut buf3).unwrap(), b"");
    assert_eq!(BootKind::DebianLive.linux_eol_extra(), b" findiso=");
    assert_eq!(BootKind::Casper.linux_eol_extra(), b" iso-scan/filename=");
}

#[test]
fn test_boot_kind_linux_extra_insufficient_buffer() {
    let guid = Guid { d1: 0x11111111, d2: 0x2222, d3: 0x3333, d4: [0x44, 0x55, 0x66, 0x77, 0x88, 0x99, 0xaa, 0xbb] };
    let long_path = {
        let mut s = [0u8; 256];
        for i in 0..250 {
            s[i] = b'x';
        }
        s
    };
    let loc = IsoLocation {
        partition_guid: guid,
        partition_number: 2,
        is_mbr: false,
        file_path: long_path,
        file_path_len: 250,
        file_size: 2_000_000_000,
        part1_lba: 2048,
        iso_lba: 100_000,
    };
    let mut small_buf = [0u8; 50];
    assert_eq!(BootKind::Casper.linux_extra(false, Some(&loc), &mut small_buf), None);
}

#[test]
fn test_boot_kind_equality() {
    assert_eq!(BootKind::Casper, BootKind::Casper);
    assert_ne!(BootKind::Casper, BootKind::DebianLive);
}

fn location(path: &[u8]) -> IsoLocation {
    let mut file_path = [0u8; 256];
    file_path[..path.len()].copy_from_slice(path);
    IsoLocation {
        partition_guid: Guid { d1: 0x11111111, d2: 0x2222, d3: 0x3333, d4: [0x44, 0x55, 0x66, 0x77, 0x88, 0x99, 0xaa, 0xbb] },
        partition_number: 2,
        is_mbr: false,
        file_path,
        file_path_len: path.len(),
        file_size: 4096,
        part1_lba: 2048,
        iso_lba: 2050,
    }
}

#[test]
fn arguments_name_the_image_in_full() {
    let loc = location(b"/a.iso");
    let mut buf = [0u8; 512];
    assert_eq!(
        core::str::from_utf8(BootKind::ArchIso.linux_extra(false, Some(&loc), &mut buf).unwrap()).unwrap(),
        " archisodevice=/dev/disk/by-partuuid/11111111-2222-3333-4455-66778899aabb archisobasedir=arch copytoram init=/init.choosable choosable.part_guid=11111111-2222-3333-4455-66778899aabb choosable.part_num=2 choosable.iso_offset=1024 choosable.iso_path=a.iso choosable.iso_size=4096",
    );
    let mut buf = [0u8; 512];
    assert_eq!(
        BootKind::ArchIso.linux_extra(false, None, &mut buf).unwrap(),
        b" archisodevice=LABEL=CHOOSABLE archisobasedir=arch copytoram init=/init.choosable",
    );
    let mut buf = [0u8; 512];
    assert_eq!(
        BootKind::Alpine.linux_extra(false, None, &mut buf).unwrap(),
        b" init=/init.choosable modules=loop,iso9660",
    );
}

#[test]
fn boot_families_have_their_hooks() {
    assert_eq!(
        BootKind::Casper.hook_targets(),
        HookTargetSet { live: false, live_premount: false, casper_premount: true, casper_bottom: true },
    );
    assert_eq!(
        BootKind::DebianLive.hook_targets(),
        HookTargetSet { live: true, live_premount: true, casper_premount: false, casper_bottom: false },
    );
    assert!(BootKind::Unknown.needs_sr_mod() && !BootKind::ArchIso.needs_sr_mod());
    assert_eq!(BootKind::Unknown.fixup_type(), FixupType::Casper);
    assert_eq!(BootKind::AlpinePremount.fixup_type(), FixupType::Alpine);
    assert_eq!(BootKind::FedoraLive.fixup_type(), FixupType::Dracut);
}

#[test]
fn numbers_are_written_as_far_as_there_is_room() {
    let mut buf = [0u8; 6];
    assert_eq!(write_u64_decimal(&mut buf, 1, 420), 3);
    assert_eq!(&buf, b"\x00420\x00\x00");
    assert_eq!(write_u64_decimal(&mut buf, 5, 0), 1);
    assert_eq!(write_u64_decimal(&mut buf, 6, 0), 0);
}

fn on_partition(is_mbr: bool, partition_number: u32) -> IsoLocation {
    let mut file_path = [0u8; 256];
    file_path[..6].copy_from_slice(b"/a.iso");
    IsoLocation {
        partition_guid: Guid { d1: 0xAABBCCDD, d2: 0, d3: 0, d4: [0; 8] },
        partition_number,
        is_mbr,
        file_path,
        file_path_len: 6,
        file_size: 4096,
        part1_lba: 100,
        iso_lba: 102,
    }
}

#[test]
fn an_mbr_partition_goes_by_signature_and_number() {
    let mut buf = [0u8; 512];
    let args = BootKind::Alpine.linux_extra(false, Some(&on_partition(true, 1)), &mut buf).unwrap();
    assert_eq!(
        core::str::from_utf8(args).unwrap(),
        " init=/init.choosable modules=loop,iso9660 choosable.part_guid=aabbccdd-01 choosable.part_num=1 choosable.iso_offset=1024 choosable.iso_path=a.iso choosable.iso_size=4096",
    );
}

#[test]
fn a_location_that_does_not_fit_gives_nothing() {
    for number in [0, 7] {
        let mut buf = [0u8; 50];
        assert!(BootKind::Casper.linux_extra(false, Some(&on_partition(false, number)), &mut buf).is_none());
    }
    let mut buf = [0u8; 50];
    assert!(BootKind::Casper.linux_extra(false, None, &mut buf).is_some());
}

#[test]
fn an_unknown_family_is_hooked_like_casper() {
    assert_eq!(BootKind::Unknown.hook_targets(), BootKind::Casper.hook_targets());
    assert!(BootKind::Unknown.hook_targets().casper_bottom);
}

#[test]
fn names_differ_in_what_is_no_letter() {
    assert!(!name_matches(b"@", b"`"));
    assert!(!name_matches(b"[", b"{"));
    assert!(name_matches(b"A_b", b"a_B"));
}
