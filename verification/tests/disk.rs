//! Disks and what is known of them.

use choosable::constants::{GPT_ATTR_VTOYEFI, SIZE_1GB};
use choosable::disk::{
    detect_choosable, detect_gpt, device_name, enumerate_disks, get_disk_model, get_disk_size,
    get_partition_name, get_partition_size_sectors, get_partition_start_sector,
    get_sector_size_logical, get_sector_size_physical, human_readable_gb, is_4k_native,
    is_removable_disk, is_usb_disk, is_whole_disk, read_choosable_version, start_file, sysfs_file,
    BlockDevice, DetectStep, Detected, PartitionSlice, SeekTo, Span,
};
use choosable::disk_io::{read_sectors, write_sectors, write_zeros, DiskRead};
use choosable::disk_layout::{GptInfo, Mbr};

#[test]
fn partitions_are_named_after_their_disk() {
    assert_eq!(get_partition_name("/dev/sda", 1), "/dev/sda1");
    assert_eq!(get_partition_name("/dev/nvme0n1", 12), "/dev/nvme0n1p12");
    assert_eq!(get_partition_name("/dev/mmcblk0", 2), "/dev/mmcblk0p2");
    assert_eq!(device_name("/dev/sda"), "sda");
    assert_eq!(device_name("sda"), "sda");
    assert_eq!(sysfs_file("/dev/sda", "/size"), "/sys/class/block/sda/size");
    assert_eq!(start_file("/dev/sda1"), "/sys/class/block/sda1/start");
    assert!(is_whole_disk(false));
    assert!(!is_whole_disk(true));
}

fn message<T>(r: Result<T, choosable::error::ChoosableError>) -> String {
    match r {
        Ok(_) => String::new(),
        Err(e) => e.message(),
    }
}

#[test]
fn sizes_come_in_sectors() {
    assert!(matches!(get_disk_size("/dev/sda", Some("2048\n")), Ok(1048576)));
    assert_eq!(
        message(get_disk_size("/dev/sda", None)),
        "Disk not found: Cannot read size for disk /dev/sda",
    );
    assert_eq!(message(get_disk_size("/dev/sda", Some("x"))), "Invalid size for disk /dev/sda");
    assert!(get_disk_size("/dev/sda", Some("18446744073709551615")).is_err());
    assert!(matches!(get_partition_start_sector("/dev/sda1", Some("2048\n")), Ok(2048)));
    assert_eq!(
        message(get_partition_start_sector("/dev/sda1", None)),
        "Cannot read start sector for partition /dev/sda1",
    );
    assert_eq!(
        message(get_partition_start_sector("/dev/sda1", Some(""))),
        "Invalid start sector for /dev/sda1",
    );
    assert!(matches!(get_partition_size_sectors("/dev/sda1", Some("99")), Ok(99)));
    assert_eq!(
        message(get_partition_size_sectors("/dev/sda1", None)),
        "Cannot read size for partition /dev/sda1",
    );
    assert_eq!(message(get_partition_size_sectors("/dev/sda1", Some("-1"))), "Invalid size for /dev/sda1");
    assert_eq!(human_readable_gb(3 * SIZE_1GB - 1), 2);
}

#[test]
fn what_cannot_be_read_has_a_default() {
    assert_eq!(get_disk_model(Some(" SanDisk Ultra \n")), "SanDisk Ultra");
    assert_eq!(get_disk_model(None), "Unknown");
    assert!(is_usb_disk(Some("/sys/devices/pci0000:00/usb1/1-1")));
    assert!(!is_usb_disk(Some("/sys/devices/pci0000:00/ata1")));
    assert!(!is_usb_disk(None));
    assert!(is_removable_disk(Some("1\n")));
    assert!(!is_removable_disk(Some("0\n")));
    assert!(!is_removable_disk(None));
    assert_eq!(get_sector_size_logical(Some("4096\n")), 4096);
    assert_eq!(get_sector_size_logical(Some("4294967296")), 512);
    assert_eq!(get_sector_size_physical(None), 512);
    assert!(is_4k_native(Some("4096"), Some("4096")));
    assert!(!is_4k_native(Some("512"), Some("4096")));
}

fn device(name: &str, sectors: &str, usb: bool, removable: bool) -> BlockDevice {
    BlockDevice {
        name: String::from(name),
        present: true,
        has_start_file: false,
        sectors: Some(String::from(sectors)),
        model: Some(String::from("M ")),
        removable: Some(String::from(if removable { "1" } else { "0" })),
        canonical: Some(String::from(if usb { "/sys/devices/usb1" } else { "/sys/devices/ata1" })),
        logical: None,
        physical: None,
    }
}

#[test]
fn disks_are_listed_usb_first() {
    let mut partition = device("sda1", "100", false, false);
    partition.has_start_file = true;
    let mut gone = device("sdz", "100", false, false);
    gone.present = false;
    let devices = vec![
        device("loop0", "8", false, false),
        device("sda", "1000", false, false),
        partition,
        gone,
        device("sr0", "8", false, true),
        device("dm-0", "8", false, false),
        device("ram0", "8", false, false),
        device("sdb", "200", true, true),
        device("sdc", "300", true, true),
        device("sdd", "400", true, false),
        device("nvme0n1", "1000", false, false),
        device("sdx", "?", true, true),
    ];
    let disks = enumerate_disks(&devices);
    let paths: Vec<&str> = disks.iter().map(|d| d.disk_path.as_str()).collect();
    assert_eq!(paths, vec!["/dev/sdc", "/dev/sdb", "/dev/sdd", "/dev/sda", "/dev/nvme0n1"]);
    let numbers: Vec<usize> = disks.iter().map(|d| d.phy_drive).collect();
    assert_eq!(numbers, vec![0, 1, 2, 3, 4]);
    assert_eq!(disks[0].size_bytes, 300 * 512);
    assert_eq!(disks[0].model, "M");
    assert!(disks[0].mbr.is_none() && disks[0].partition_style.is_none());
}

fn sector(mbr: &Mbr) -> [u8; 512] {
    let bytes = mbr.write();
    let mut s = [0u8; 512];
    s.copy_from_slice(&bytes);
    s
}

#[test]
fn choosable_is_detected_by_its_partitions() {
    let mut mbr = Mbr::new_empty();
    mbr.partitions[0].start_lba = 2048;
    mbr.partitions[0].sector_count = 10000;
    mbr.partitions[1].start_lba = 12048;
    mbr.partitions[1].sector_count = 65536;
    match detect_choosable(&sector(&mbr)) {
        DetectStep::Settled { found, .. } => {
            assert_eq!(found, Some(Detected { part2_start: 12048 * 512, gpt_attr: None }))
        }
        _ => panic!("an MBR"),
    }
    mbr.partitions[1].sector_count = 65535;
    assert!(matches!(detect_choosable(&sector(&mbr)), DetectStep::Settled { found: None, .. }));
    mbr.partitions[0].fs_flag = 0xEE;
    assert!(matches!(detect_choosable(&sector(&mbr)), DetectStep::ReadGpt { .. }));
    mbr.signature_aa = 0;
    assert!(matches!(detect_choosable(&sector(&mbr)), DetectStep::NoSignature { .. }));
}

#[test]
fn detection_on_a_gpt_goes_by_the_name() {
    let size = 8 * SIZE_1GB;
    let g = GptInfo::new_choosable(size, [1; 16], [2; 16], [3; 16]);
    let start = (size / 512 - 65536 - 34) * 512;
    assert_eq!(
        detect_gpt(&g),
        Some(Detected { part2_start: start, gpt_attr: Some(GPT_ATTR_VTOYEFI) }),
    );
    assert_eq!(detect_gpt(&GptInfo::new_ventoy(size, [1; 16], [2; 16], [3; 16])), None);
    let mut moved = g;
    moved.partitions[0].start_lba = 4096;
    assert_eq!(detect_gpt(&moved), None);
    let mut longer = g;
    longer.partitions[1].end_lba += 1;
    assert_eq!(detect_gpt(&longer), None);
}

#[test]
fn the_version_stands_in_the_configuration() {
    let cfg = "set x=1\nset CHOOSABLE_VERSION=\nset CHOOSABLE_VERSION=\"1.2.3\"\n";
    assert_eq!(read_choosable_version(cfg), Some(String::from("1.2.3")));
    assert_eq!(read_choosable_version("CHOOSABLE_VERSION= '7' \n"), Some(String::from("7")));
    assert_eq!(read_choosable_version("nothing here"), None);
}

#[test]
fn a_slice_reads_and_writes_within_the_partition() {
    let mut p = PartitionSlice::new((), 1000, 100);
    assert_eq!(p.read_span(10), Some(Span { at: 1000, len: 10 }));
    p.advance(95);
    assert_eq!(p.read_span(10), Some(Span { at: 1095, len: 5 }));
    assert_eq!(p.write_span(3), Some(Span { at: 1095, len: 3 }));
    p.advance(5);
    assert_eq!(p.read_span(10), None);
    assert_eq!(p.write_span(10), None);
}

#[test]
fn a_slice_seeks_from_its_partition() {
    let mut p = PartitionSlice::new((), 1000, 100);
    assert_eq!(p.seek_target(SeekTo::Start(40)), Some(1040));
    assert_eq!(p.seek_target(SeekTo::End(-10)), Some(1090));
    p.advance(50);
    assert_eq!(p.seek_target(SeekTo::Current(-20)), Some(1030));
    assert_eq!(p.seek_target(SeekTo::Current(-1051)), None);
    assert_eq!(p.sought(1030), 30);
    assert_eq!(p.current_pos, 30);
    assert_eq!(p.sought(10), 0);
}

#[test]
fn sectors_have_512_bytes() {
    let z = write_zeros(3, 2);
    assert_eq!((z.offset, z.data), (1536, vec![0; 1024]));
    let w = write_sectors(5, vec![7, 8, 9]);
    assert_eq!((w.offset, w.data), (2560, vec![7, 8, 9]));
    assert_eq!(read_sectors(5, 4), DiskRead { offset: 2560, len: 2048 });
}

#[test]
fn written_sectors_are_read_back() {
    let mut disk = vec![0xEE; 4096];
    let data: Vec<u8> = (0..512).map(|i| (i % 251) as u8).collect();
    let w = write_sectors(6, data.clone());
    disk[w.offset as usize..][..w.data.len()].copy_from_slice(&w.data);
    let r = read_sectors(6, 1);
    assert_eq!(disk[r.offset as usize..][..r.len], data);
    assert_eq!(disk[3071], 0xEE);
    assert_eq!(disk[3584], 0xEE);
}
