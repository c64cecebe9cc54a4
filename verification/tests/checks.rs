//! Whether a disk may be written to.

use choosable::checks::{
    check_swap, check_tool_work_ok, check_umount, check_umount_disk, formatter_tools,
    is_partition_of, missing_nodes_error, mounts_to_undo, parse_mounts, partition_nodes,
    remove_partition_nodes, NodeWait, ToolReport,
};
use choosable::installer::FilesystemType;

#[test]
fn test_is_partition_of_standard() {
    assert!(is_partition_of("/dev/sda1", "/dev/sda"));
    assert!(is_partition_of("/dev/sda12", "/dev/sda"));
    assert!(!is_partition_of("/dev/sda", "/dev/sda"));
    assert!(!is_partition_of("/dev/sdb1", "/dev/sda"));
}

#[test]
fn test_is_partition_of_nvme() {
    assert!(is_partition_of("/dev/nvme0n1p1", "/dev/nvme0n1"));
    assert!(is_partition_of("/dev/nvme0n1p12", "/dev/nvme0n1"));
    assert!(!is_partition_of("/dev/nvme0n1", "/dev/nvme0n1"));
    assert!(!is_partition_of("/dev/nvme0n1p1", "/dev/nvme1n1"));
}

#[test]
fn letters_behind_a_disk_are_no_partition() {
    assert!(!is_partition_of("/dev/sdab", "/dev/sda"));
    assert!(!is_partition_of("/dev/sda", "/dev/sdaa"));
    assert!(!is_partition_of("/dev/nvme0n11", "/dev/nvme0n1"));
    assert!(!is_partition_of("/dev/nvme0n1px", "/dev/nvme0n1"));
    assert!(is_partition_of("/dev/mmcblk0p2", "/dev/mmcblk0"));
}

const MOUNTS: &str = "/dev/sda1 / ext4 rw 0 0\n/dev/sdb1 /mnt vfat rw 0 0\nproc /proc proc rw 0 0\n/dev/sdb /whole vfat rw 0 0\n\nshort\n";

#[test]
fn mounts_are_parsed_line_by_line() {
    let all = parse_mounts(MOUNTS);
    let shown: Vec<(&str, &str)> =
        all.iter().map(|m| (m.dev.as_str(), m.mount_point.as_str())).collect();
    assert_eq!(
        shown,
        vec![("/dev/sda1", "/"), ("/dev/sdb1", "/mnt"), ("proc", "/proc"), ("/dev/sdb", "/whole")],
    );
}

#[test]
fn a_disk_and_its_partitions_are_unmounted() {
    let undo = mounts_to_undo(MOUNTS, "/dev/sdb");
    let shown: Vec<&str> = undo.iter().map(|m| m.dev.as_str()).collect();
    assert_eq!(shown, vec!["/dev/sdb1", "/dev/sdb"]);
    assert!(mounts_to_undo(MOUNTS, "/dev/sdc").is_empty());
}

#[test]
fn a_disk_that_stays_mounted_is_refused() {
    assert!(check_umount_disk(MOUNTS, "/dev/sdc").is_ok());
    match check_umount_disk(MOUNTS, "/dev/sdb") {
        Err(e) => assert_eq!(e.message(), "/dev/sdb is still mounted, please unmount it first!"),
        Ok(()) => panic!("still mounted"),
    }
}

#[test]
fn mounts_of_a_partition_are_counted() {
    assert_eq!(check_umount(MOUNTS, "/dev/sdb1"), 1);
    assert_eq!(check_umount(MOUNTS, "/dev/sdb"), 2);
    assert_eq!(check_umount(MOUNTS, "/dev/sdc1"), 0);
    assert_eq!(check_umount("/dev/sdb1\n", "/dev/sdb1"), 0);
}

#[test]
fn swap_on_the_disk_is_refused() {
    assert!(check_swap(None, "/dev/sdb").is_ok());
    assert!(check_swap(Some("/dev/sda2 partition 8G 0B -2\n"), "/dev/sdb").is_ok());
    match check_swap(Some("/dev/sdb2 partition 8G 0B -2\n"), "/dev/sdb") {
        Err(e) => assert_eq!(e.message(), "/dev/sdb is used as swap, please swapoff it first!"),
        Ok(()) => panic!("used as swap"),
    }
    assert!(check_swap(Some("  /dev/sdb\n"), "/dev/sdb").is_err());
}

fn report(hexdump: bool, formatters: Vec<bool>, xzcat: bool) -> ToolReport {
    ToolReport { hexdump, formatters, xzcat }
}

fn tool_error(fs: FilesystemType, r: &ToolReport) -> String {
    match check_tool_work_ok(fs, r) {
        Ok(()) => String::new(),
        Err(e) => e.message(),
    }
}

#[test]
fn missing_tools_are_named() {
    assert_eq!(tool_error(FilesystemType::ExFat, &report(true, vec![false, false, true], true)), "");
    assert_eq!(
        tool_error(FilesystemType::ExFat, &report(false, vec![true, true, true], true)),
        "Required tool not found: hexdump",
    );
    assert_eq!(
        tool_error(FilesystemType::ExFat, &report(true, vec![false, false, false], true)),
        "Required tool not found: mkexfatfs or mkfs.exfat is required for exFAT formatting",
    );
    assert_eq!(
        tool_error(FilesystemType::Fat32, &report(true, vec![false], true)),
        "Required tool not found: mkfs.vfat",
    );
    assert_eq!(
        tool_error(FilesystemType::Ntfs, &report(true, vec![false], true)),
        "Required tool not found: mkfs.ntfs does not work on this system",
    );
    assert_eq!(
        tool_error(FilesystemType::Ntfs, &report(true, vec![true], false)),
        "Required tool not found: xzcat",
    );
}

#[test]
fn formatters_are_tried_in_order() {
    let tools = formatter_tools(FilesystemType::ExFat);
    let names: Vec<(&str, Option<&str>)> = tools.iter().map(|t| (t.cmd, t.arg)).collect();
    assert_eq!(
        names,
        vec![("mkexfatfs", Some("-V")), ("mkfs.exfat", None), ("/usr/sbin/mkfs.exfat", None)],
    );
    assert_eq!(formatter_tools(FilesystemType::Ntfs)[0].arg, Some("-V"));
    assert_eq!(formatter_tools(FilesystemType::Fat32).len(), 1);
}

#[test]
fn waiting_for_nodes_ends() {
    let mut w = NodeWait::Look { attempt: 0 };
    let mut looks = 0;
    let mut probes = 0;
    for _ in 0..100 {
        match w {
            NodeWait::Look { .. } => looks += 1,
            NodeWait::Pause { probe: true, .. } => probes += 1,
            NodeWait::Missing => break,
            _ => {}
        }
        w = w.wait_for_partitions(false);
    }
    assert_eq!((looks, probes, w), (10, 1, NodeWait::Missing));
    assert_eq!(NodeWait::Look { attempt: 9 }.wait_for_partitions(true), NodeWait::Present);
    assert_eq!(NodeWait::LastLook.wait_for_partitions(true), NodeWait::Present);
}

#[test]
fn partition_nodes_are_named() {
    assert_eq!(
        partition_nodes("/dev/nvme0n1"),
        (String::from("/dev/nvme0n1p1"), String::from("/dev/nvme0n1p2")),
    );
    assert_eq!(
        missing_nodes_error("/dev/sdb").message(),
        "Partitions /dev/sdb1 / /dev/sdb2 do not exist after waiting",
    );
    assert!(remove_partition_nodes(false, true));
    assert!(!remove_partition_nodes(false, false));
}
