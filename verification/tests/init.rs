//! The early init of a live system.

use choosable::efi::boot_kind::BootKind;
use choosable::efi::locator::IsoLocation;
use choosable::efi::protocol::Guid;
use choosable::init::cmdline::{parse_cmdline, CmdlineParams};
use choosable::init::mount::{
    check_distro, CdromProbe, Distro, Event, LoopMount, Premount, SetupStep,
};
use choosable::init::target::{
    by_partnum, by_partuuid, partuuid_link, scan_all, Link, SysPartition,
};

#[test]
fn parameters_are_taken_from_the_command_line() {
    let p = parse_cmdline(b"quiet choosable.iso_offset=1024 choosable.part_guid=ABCD-12 choosable.part_num=2\tchoosable.iso_path=a/b.iso choosable.iso_size=4096\n");
    assert_eq!(p.iso_offset, Some(1024));
    assert_eq!(p.part_guid, Some(String::from("abcd-12")));
    assert_eq!(p.part_num, Some(2));
    assert_eq!(p.iso_path, Some(String::from("a/b.iso")));
    assert_eq!(p.iso_size, Some(4096));
}

#[test]
fn unfit_parameters_are_passed_over() {
    let p = parse_cmdline(b"choosable.iso_offset=0 choosable.part_guid=../x choosable.part_num=x choosable.iso_size=");
    assert_eq!((p.iso_offset, p.part_guid, p.part_num, p.iso_size), (None, None, None, None));
    assert_eq!(parse_cmdline(b"choosable.iso_offset=99999999999999999999").iso_offset, None);
    assert_eq!(parse_cmdline(b"choosable.iso_path=\xFF").iso_path, None);
    assert_eq!(parse_cmdline(b"choosable.iso_path=\xC3\xA9").iso_path, Some(String::from("\u{e9}")));
    assert!(CmdlineParams::default().part_num.is_none());
}

#[test]
fn what_the_loader_says_is_what_the_init_hears() {
    let mut file_path = [0u8; 256];
    file_path[..6].copy_from_slice(b"/a.iso");
    let loc = IsoLocation {
        partition_guid: Guid { d1: 0xABCDEF01, d2: 2, d3: 3, d4: [4; 8] },
        partition_number: 7,
        is_mbr: false,
        file_path,
        file_path_len: 6,
        file_size: 12345,
        part1_lba: 2048,
        iso_lba: 4096,
    };
    let mut buf = [0u8; 1024];
    let extra = BootKind::FedoraLive.linux_extra(false, Some(&loc), &mut buf).unwrap();
    let p = parse_cmdline(extra);
    assert_eq!(p.iso_offset, Some(2048 * 512));
    assert_eq!(p.part_guid, Some(String::from("abcdef01-0002-0003-0404-040404040404")));
    assert_eq!((p.part_num, p.iso_size), (Some(7), Some(12345)));
    assert_eq!(p.iso_path, Some(String::from("a.iso")));
}

fn told(name: &str, uuid: Option<&str>) -> SysPartition {
    SysPartition { name: String::from(name), uuid: uuid.map(String::from) }
}

#[test]
fn partitions_are_found_by_their_uuid() {
    let parts = vec![told("sda1", None), told("sdb1", Some("ABCD-12\n")), told("sdb2", Some("abcd-12"))];
    assert_eq!(partuuid_link("ab"), "/dev/disk/by-partuuid/ab");
    assert_eq!(by_partuuid("abcd-12", &Link::Missing, &parts), Some(String::from("/dev/sdb1")));
    assert_eq!(by_partuuid("ffff", &Link::Missing, &parts), None);
    assert_eq!(
        by_partuuid("ab", &Link::Target(String::from("../../sdb1")), &parts),
        Some(String::from("/dev/disk/by-partuuid/../../sdb1")),
    );
    assert_eq!(
        by_partuuid("ab", &Link::Target(String::from("/dev/sdb1")), &parts),
        Some(String::from("/dev/sdb1")),
    );
    assert_eq!(
        by_partuuid("ab", &Link::Unreadable, &parts),
        Some(String::from("/dev/disk/by-partuuid/ab")),
    );
    assert_eq!(
        by_partuuid("STRASSE", &Link::Missing, &[told("sdc1", Some("stra\u{df}e"))]),
        Some(String::from("/dev/sdc1")),
    );
}

#[test]
fn partitions_are_guessed_by_their_number() {
    let disks: Vec<String> = ["sda", "nvme0n1", "mmcblk0"].iter().map(|s| String::from(*s)).collect();
    let devs = by_partnum(&disks, 2);
    assert!(devs.contains(&String::from("/dev/sda2")), "{:?}", devs);
    assert!(devs.contains(&String::from("/dev/nvme0n1p2")), "{:?}", devs);
}

#[test]
fn virtual_devices_are_left_out() {
    let list = "major minor  #blocks  name\n\n   8  0  100 sda\n   8  1  90 sda1\n   7  0  5 loop0\n   1  0  5 ram0\n 253 0 5 dm-0\n";
    let devs = scan_all(list);
    assert!(devs.contains(&String::from("/dev/sda1")));
    assert!(devs.iter().all(|d| !d.contains("loop") && !d.contains("ram") && !d.contains("dm-")));
}

#[test]
fn loop_devices_are_tried_and_released() {
    let mut s = LoopMount::OpenDevice.try_mount_iso(512, true);
    assert_eq!(s, LoopMount::Attach { number: 0 });
    s = s.try_mount_iso(512, false);
    assert_eq!(s, LoopMount::Attach { number: 1 });
    s = s.try_mount_iso(512, true);
    assert_eq!(s, LoopMount::SetOffset { number: 1 });
    s = s.try_mount_iso(512, true);
    assert_eq!(s, LoopMount::MountFs { number: 1 });
    assert_eq!(s.try_mount_iso(512, true), LoopMount::Done(Some(1)));
    s = s.try_mount_iso(512, false);
    assert_eq!(s, LoopMount::Clear { number: 1 });
    assert_eq!(s.try_mount_iso(512, true), LoopMount::Done(None));
    assert_eq!(LoopMount::Attach { number: 7 }.try_mount_iso(512, false), LoopMount::Done(None));
}

fn probe() -> CdromProbe {
    CdromProbe { casper: false, live: false, live_os: false, arch: false, alpine_release: false, apks: false }
}

#[test]
fn distributions_are_told_apart() {
    let mut p = probe();
    assert!(matches!(check_distro(&p), (true, Distro::Unknown, _)));
    p.apks = true;
    assert!(matches!(check_distro(&p), (true, Distro::Alpine, _)));
    p.arch = true;
    let (_, d, steps) = check_distro(&p);
    assert_eq!((d, steps.len()), (Distro::ArchIso, 3));
    assert!(matches!(steps[2], SetupStep::Bind("/cdrom", "/run/archiso/bootmnt")));
    p.live_os = true;
    assert!(matches!(check_distro(&p), (true, Distro::LiveOs, s) if s.len() == 4));
    p.live = true;
    assert!(matches!(check_distro(&p), (true, Distro::DebianLive, _)));
    p.casper = true;
    assert!(matches!(check_distro(&p), (true, Distro::Casper, _)));
}

#[test]
fn the_image_is_mounted_where_it_was_said_to_be() {
    let p = parse_cmdline(b"choosable.part_guid=ab choosable.part_num=3");
    let mut s = Premount::start(&p);
    assert!(matches!(&s, Premount::FindByUuid { guid, or_num: Some(3) } if guid == "ab"));
    s = s.step(Event::Found(None));
    assert!(matches!(s, Premount::FindByNumber { num: 3 }));
    s = s.step(Event::Found(Some(String::from("/dev/sdb3"))));
    assert!(matches!(&s, Premount::Mount { dev } if dev == "/dev/sdb3"));
    s = s.step(Event::Outcome(true));
    assert!(matches!(s, Premount::Check));
    assert!(matches!(s.step(Event::Outcome(true)), Premount::ExecInit { mounted: true }));
}

#[test]
fn every_partition_is_tried_before_the_init_goes_on_alone() {
    let mut s = Premount::start(&CmdlineParams::default());
    assert!(matches!(s, Premount::ListPartitions));
    s = s.step(Event::List(Some(String::from("major\n\n 8 1 9 sda1\n 8 2 9 sda2\n"))));
    let mut tried = 0;
    while let Premount::TryMount { .. } = s {
        tried += 1;
        s = s.step(Event::Outcome(false));
    }
    assert_eq!(tried, 2);
    assert!(matches!(s, Premount::ExecInit { mounted: false }));
    let s = Premount::start(&CmdlineParams::default()).step(Event::List(None));
    assert!(matches!(s, Premount::ExecInit { mounted: false }));
}
