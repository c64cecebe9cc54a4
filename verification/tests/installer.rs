//! What an installation writes.

use choosable::constants::{SIZE_1GB, SIZE_1MB, SIZE_1TB};
use choosable::disk::{detect_choosable, detect_gpt, DetectStep, Detected};
use choosable::disk_io::DiskWrite;
use choosable::disk_layout::{
    write_table, GptHeader, GptInfo, GptRead, Mbr, PartitionTableEntry,
};
use choosable::error::ChoosableError;
use choosable::install_flow::{Operation, Outcome};
use choosable::installer::{
    align_to_4k, check_installed, check_not_installed, check_partition1, check_whole_disk,
    confirmed, crc32_checksum, fill_mbr_chs_entry, finalize_gpt_crcs, install_preflight,
    judge_detection, make_backup_gpt_header, write_boot_images, write_gpt_f, write_install,
    write_mbr_f, BootImages, FilesystemType, GptGuids, InstallOptions,
};
use choosable::partition_update::{
    check_part1_start, check_room, find_next_partition_start, fix_gpt_attributes,
    plan_non_destructive, write_non_destructive,
    write_update, NonDestructivePlan, Survey, RESERVED_OFFSET,
};

fn message<T>(r: Result<T, ChoosableError>) -> String {
    match r {
        Ok(_) => String::new(),
        Err(e) => e.message(),
    }
}

fn options(use_gpt: bool, reserve_space_mb: u64) -> InstallOptions {
    InstallOptions { use_gpt, secure_boot: true, reserve_space_mb, force: false, yes: true }
}

fn apply(disk: &mut Vec<u8>, writes: &[DiskWrite]) {
    for w in writes {
        let at = w.offset as usize;
        disk[at..at + w.data.len()].copy_from_slice(&w.data);
    }
}

fn read_gpt(disk: &[u8]) -> GptInfo {
    let mut step = GptRead::Mbr;
    while let Some((at, n)) = step.wanted() {
        step = GptInfo::read_from_disk(step, &disk[at as usize..at as usize + n]);
    }
    match step {
        GptRead::Done(g) => g,
        _ => panic!("no GPT"),
    }
}

fn detected(disk: &[u8]) -> Option<Detected> {
    let mut sector = [0u8; 512];
    sector.copy_from_slice(&disk[..512]);
    match detect_choosable(&sector) {
        DetectStep::NoSignature { .. } => None,
        DetectStep::ReadGpt { .. } => detect_gpt(&read_gpt(disk)),
        DetectStep::Settled { found, .. } => found,
    }
}

#[test]
fn filesystem_names_are_read_back() {
    for fs in [FilesystemType::ExFat, FilesystemType::Ntfs, FilesystemType::Fat32] {
        assert!(matches!(FilesystemType::from_str(fs.as_str()), Ok(f) if f == fs));
    }
    assert!(matches!(FilesystemType::from_str("NtFs"), Ok(FilesystemType::Ntfs)));
    assert_eq!(
        message(FilesystemType::from_str("Ext4")),
        "Unsupported filesystem: Ext4. Supported: exfat, ntfs, fat32",
    );
}

#[test]
fn checksums_are_those_of_crc32() {
    assert_eq!(crc32_checksum(b"123456789"), 0xCBF4_3926);
    assert_eq!(crc32_checksum(b""), 0);
}

#[test]
fn gpt_headers_bear_their_checksums() {
    let mut g = GptInfo::new_choosable(8 * SIZE_1GB, [1; 16], [2; 16], [3; 16]);
    finalize_gpt_crcs(&mut g);
    assert_eq!(g.header.part_table_crc32, crc32_checksum(&write_table(&g.partitions)));
    let mut bare = g.header;
    bare.header_crc32 = 0;
    assert_eq!(g.header.header_crc32, crc32_checksum(&bare.write()));
    let backup = make_backup_gpt_header(&g);
    assert_eq!(backup.efi_start_lba, g.header.efi_backup_lba);
    assert_eq!(backup.efi_backup_lba, 1);
    assert_eq!(backup.part_table_start_lba, g.header.efi_backup_lba - 32);
    let mut bare = backup;
    bare.header_crc32 = 0;
    assert_eq!(backup.header_crc32, crc32_checksum(&bare.write()));
}

#[test]
fn sectors_are_aligned_upwards() {
    assert_eq!(align_to_4k(2048), 2048);
    assert_eq!(align_to_4k(2049), 2056);
    assert_eq!(align_to_4k(2055), 2056);
}

#[test]
fn entries_bear_cylinder_head_and_sector() {
    let mut e = PartitionTableEntry::empty();
    e.active = 0x80;
    fill_mbr_chs_entry(&mut e, 2048, 16128);
    assert_eq!((e.start_lba, e.sector_count, e.active), (2048, 16128, 0x80));
    assert_eq!((e.start_head, e.start_sector_cylinder), (32, 33));
    assert_eq!((e.end_head, e.end_sector_cylinder), (33, 0x0100 | 33 - 1));
    fill_mbr_chs_entry(&mut e, 16450560, 1);
    assert_eq!((e.start_head, e.start_sector_cylinder), (254, 0xFFFF));
    assert_eq!((e.end_head, e.end_sector_cylinder), (254, 0xFFFF));
}

#[test]
fn unfit_disks_are_refused() {
    let o = options(false, 0);
    let ok = |n: u64| -> Result<u64, ChoosableError> { Ok(n) };
    assert!(matches!(install_preflight("/dev/sdb", true, ok(SIZE_1GB), false, &o), Ok(SIZE_1GB)));
    assert_eq!(
        message(install_preflight("/dev/sdb1", false, ok(SIZE_1GB), false, &o)),
        "Disk is a partition, not a whole disk: /dev/sdb1",
    );
    let lost = Err(ChoosableError::DiskNotFound(String::from("x")));
    assert_eq!(message(install_preflight("/dev/sdb", true, lost, false, &o)), "Disk not found: x");
    assert_eq!(
        message(install_preflight("/dev/sdb", true, ok(SIZE_1GB), true, &o)),
        "4K native sector disk detected. Choosable does not support 4K native disks",
    );
    assert_eq!(
        message(install_preflight("/dev/sdb", true, ok(2 * SIZE_1TB + 1), false, &o)),
        "MBR disk over 2TB. MBR does not support disks > 2TB. Use -g for GPT",
    );
    assert!(install_preflight("/dev/sdb", true, ok(2 * SIZE_1TB + 1), false, &options(true, 0)).is_ok());
    let need = (2048 + 33 * 2048) * 512;
    assert_eq!(
        message(install_preflight("/dev/sdb", true, ok(need - 1), false, &o)),
        format!("Disk is too small. Required: {} bytes, available: {} bytes", need, need - 1),
    );
    assert!(install_preflight("/dev/sdb", true, ok(need), false, &o).is_ok());
    assert_eq!(
        message(install_preflight("/dev/sdb", true, ok(SIZE_1GB), false, &options(false, 991))),
        "Cannot reserve 991 MiB on disk",
    );
    assert!(install_preflight("/dev/sdb", true, ok(SIZE_1GB), false, &options(false, 990)).is_ok());
    assert!(install_preflight("/dev/sdb", true, ok(SIZE_1GB), false, &options(false, u64::MAX)).is_err());
}

#[test]
fn a_second_installation_takes_force() {
    assert!(check_not_installed(false, None, false).is_ok());
    assert!(check_not_installed(true, None, true).is_ok());
    assert_eq!(
        message(check_not_installed(true, Some(String::from("1.0")), false)),
        "Disk already contains Choosable (version 1.0). Use -u to update or -I to force install",
    );
    assert_eq!(
        message(check_not_installed(true, None, false)),
        "Disk already contains Choosable (version ?). Use -u to update or -I to force install",
    );
}

#[test]
fn only_y_confirms() {
    assert!(confirmed("y\n"));
    assert!(confirmed(" Y "));
    assert!(!confirmed("yes"));
    assert!(!confirmed(""));
}

const GUIDS: GptGuids = GptGuids { disk: [0xD1; 16], part1: [0xA1; 16], part2: [0xB1; 16] };

#[test]
fn an_mbr_is_laid_out_with_its_boot_images() {
    let boot = vec![0x90u8; 600];
    let core = vec![0xC0u8; 3];
    let images = BootImages { boot: &boot, core: &core };
    let plan = write_mbr_f(SIZE_1GB, 0, &GUIDS.disk, &images);
    let p2 = SIZE_1GB / 512 - 65536;
    assert_eq!(plan.part2_start, p2 * 512);
    assert_eq!(plan.writes.len(), 2);
    assert_eq!((plan.writes[0].offset, plan.writes[1].offset), (0, 512));
    assert_eq!(plan.writes[1].data, core);
    let s = &plan.writes[0].data;
    assert_eq!(s.len(), 512);
    assert_eq!(s[383], 0x90);
    assert_eq!(&s[384..400], &[0xD1; 16]);
    assert_eq!(&s[440..446], &[0xD1, 0xD1, 0xD1, 0xD1, 0, 0]);
    assert_eq!((s[446], s[450], s[466]), (0x80, 0x07, 0xEF));
    assert_eq!((s[510], s[511]), (0x55, 0xAA));
    let reserved = write_mbr_f(SIZE_1GB, 100, &GUIDS.disk, &images);
    assert_eq!(reserved.part2_start, (p2 - 100 * 2048) * 512);
}

#[test]
fn boot_images_are_cut_to_their_room() {
    let boot = vec![1u8; 600];
    let core = vec![2u8; 1_100_000];
    let images = BootImages { boot: &boot, core: &core };
    let mbr = write_boot_images(false, &images);
    assert_eq!(mbr.len(), 2);
    assert_eq!((mbr[0].offset, mbr[0].data.len()), (0, 440));
    assert_eq!((mbr[1].offset, mbr[1].data.len()), (512, 2047 * 512));
    let gpt = write_boot_images(true, &images);
    let shape: Vec<(u64, usize)> = gpt.iter().map(|w| (w.offset, w.data.len())).collect();
    assert_eq!(shape, vec![(0, 440), (92, 1), (17408, 2014 * 512), (17908, 1)]);
    assert_eq!((gpt[1].data[0], gpt[3].data[0]), (0x22, 0x23));
}

#[test]
fn an_installation_with_an_mbr_is_detected() {
    let size = 64 * SIZE_1MB;
    let images = BootImages { boot: &[1, 2, 3], core: &[4, 5, 6] };
    let plan = write_install(size, &options(false, 0), &GUIDS, &images);
    let mut disk = vec![0xFFu8; size as usize];
    apply(&mut disk, &plan.writes);
    assert_eq!(detected(&disk), Some(Detected { part2_start: plan.part2_start, gpt_attr: None }));
    assert_eq!(disk[32768 - 1], 0);
    assert_eq!(disk[32768], 0xFF);
    assert!(disk[2048 * 512..].iter().all(|b| *b == 0xFF));
}

#[test]
fn an_installation_with_a_gpt_is_detected() {
    let size = 64 * SIZE_1MB;
    let images = BootImages { boot: &[1, 2, 3], core: &[4, 5, 6] };
    let plan = write_install(size, &options(true, 0), &GUIDS, &images);
    let mut disk = vec![0xFFu8; size as usize];
    apply(&mut disk, &plan.writes);
    let found = detected(&disk);
    assert!(matches!(found, Some(Detected { gpt_attr: Some(_), .. })));
    assert_eq!(found.map(|f| f.part2_start), Some(plan.part2_start));
    assert_eq!(&disk[..3], &[1, 2, 3]);
    let g = read_gpt(&disk);
    assert_eq!((g.partitions[0].unique_part_guid, g.partitions[1].unique_part_guid), ([0xA1; 16], [0xB1; 16]));
    assert_eq!(g.partitions[1].start_lba % 8, 0);
    let mut bare: GptHeader = g.header;
    bare.header_crc32 = 0;
    assert_eq!(g.header.header_crc32, crc32_checksum(&bare.write()));
    assert_eq!(write_gpt_f(size, 0, &GUIDS, &images).part2_start, plan.part2_start);
}

fn partitioned(part1_sectors: u32) -> Mbr {
    let mut m = Mbr::new_empty();
    m.partitions[0].start_lba = 2048;
    m.partitions[0].sector_count = part1_sectors;
    m.partitions[0].fs_flag = 7;
    m
}

#[test]
fn the_next_partition_bounds_the_room() {
    let mut m = partitioned(1000);
    assert_eq!(find_next_partition_start(&m, None, SIZE_1GB), SIZE_1GB);
    m.partitions[3].start_lba = 9000;
    m.partitions[3].sector_count = 1;
    m.partitions[2].start_lba = 5000;
    assert_eq!(find_next_partition_start(&m, None, SIZE_1GB), 9000 * 512);
    let g = GptInfo::new_choosable(SIZE_1GB, [1; 16], [2; 16], [3; 16]);
    assert_eq!(find_next_partition_start(&m, Some(&g), SIZE_1GB), g.partitions[1].start_lba * 512);
    let mut free = g;
    free.partitions[1].unique_part_guid = [0; 16];
    assert_eq!(
        find_next_partition_start(&m, Some(&free), SIZE_1GB),
        (g.header.part_area_end_lba + 1) * 512,
    );
}

fn survey(part1_sectors: u64, next: u64) -> Survey {
    Survey { size_bytes: SIZE_1GB, part1_start: 2048, part1_sectors, next_start: next }
}

#[test]
fn room_is_found_or_made() {
    assert!(matches!(
        plan_non_destructive(&survey(100001, SIZE_1GB)),
        Ok(NonDestructivePlan { part2_start_sector: 102056, shrink_to_mb: None })
    ));
    let full = SIZE_1GB / 512 - 2048;
    assert!(matches!(
        plan_non_destructive(&survey(full, SIZE_1GB)),
        Ok(NonDestructivePlan { part2_start_sector, shrink_to_mb: Some(991) })
            if part2_start_sector == SIZE_1GB / 512 - 65536
    ));
    assert_eq!(
        message(plan_non_destructive(&survey(65536, 68000 * 512))),
        "Partition 1 is too small (32 MiB) to be shrunk by 32 MiB",
    );
    let mut s = survey(100001, SIZE_1GB);
    s.part1_start = 63;
    assert_eq!(message(plan_non_destructive(&s)), "Partition 1 does not start at 1 MiB");
    s.part1_start = u64::MAX;
    assert_eq!(message(plan_non_destructive(&s)), "Partition 1 does not start at 1 MiB");
    s.size_bytes = (2048 + 65536) * 512;
    assert_eq!(
        message(plan_non_destructive(&s)),
        "Disk is too small. Required: 34603008 bytes, available: 34603008 bytes",
    );
    assert_eq!(message(check_room(s.size_bytes)), message(plan_non_destructive(&s)));
    assert!(check_room(s.size_bytes + 512).is_ok());
    assert_eq!(message(check_part1_start(2047)), "Partition 1 does not start at 1 MiB");
    assert!(check_part1_start(2048).is_ok());
}

#[test]
fn a_non_destructive_installation_is_detected_and_keeps_the_data() {
    let size = 64 * SIZE_1MB;
    let m = partitioned(40000);
    let mut disk = vec![0xEEu8; size as usize];
    disk[..512].copy_from_slice(&m.write());
    let images = BootImages { boot: &[1; 500], core: &[2; 700] };
    match write_non_destructive(&m, None, 42048, [5; 16], [6; 16], &images) {
        Ok(w) => apply(&mut disk, &w),
        Err(e) => panic!("{}", e.message()),
    }
    assert_eq!(detected(&disk), Some(Detected { part2_start: 42048 * 512, gpt_attr: None }));
    assert!(disk[2048 * 512..].iter().all(|b| *b == 0xEE));
    let far = 0x1_0000_0000 + 42048;
    match write_non_destructive(&m, None, far, [5; 16], [6; 16], &images) {
        Ok(w) => apply(&mut disk, &w),
        Err(e) => panic!("{}", e.message()),
    }
    assert_eq!(detected(&disk), Some(Detected { part2_start: 42048 * 512, gpt_attr: None }));
    let mut full = m;
    for i in 1..4 {
        full.partitions[i].sector_count = 1;
    }
    assert_eq!(
        message(write_non_destructive(&full, None, 42048, [5; 16], [6; 16], &images)),
        "No free partition slot available in MBR",
    );
}

#[test]
fn a_non_destructive_installation_on_a_gpt_is_detected() {
    let size = 80 * SIZE_1MB;
    let mut g = GptInfo::new_choosable(size, [1; 16], [2; 16], [3; 16]);
    g.partitions[1].unique_part_guid = [0; 16];
    finalize_gpt_crcs(&mut g);
    let mut disk = vec![0u8; size as usize];
    apply(&mut disk, &g.write_to_disk());
    let images = BootImages { boot: &[1; 500], core: &[2; 700] };
    match write_non_destructive(&g.protective_mbr, Some(&g), 42048, [5; 16], [6; 16], &images) {
        Ok(w) => apply(&mut disk, &w),
        Err(e) => panic!("{}", e.message()),
    }
    assert_eq!(detected(&disk).map(|d| d.part2_start), Some(42048 * 512));
    let mut full = g;
    for i in 1..128 {
        full.partitions[i].unique_part_guid = [9; 16];
    }
    assert_eq!(
        message(write_non_destructive(&g.protective_mbr, Some(&full), 42048, [5; 16], [6; 16], &images)),
        "No free partition slot available in GPT",
    );
}

#[test]
fn attributes_are_fixed_where_they_are_wrong() {
    let mut g = GptInfo::new_choosable(SIZE_1GB, [1; 16], [2; 16], [3; 16]);
    assert!(fix_gpt_attributes(&g).is_none());
    g.partitions[1].attributes = 0;
    match fix_gpt_attributes(&g) {
        None => panic!("wrong attributes"),
        Some(w) => {
            assert_eq!(w.len(), 7);
            assert_eq!(w[5].offset, g.header.efi_backup_lba * 512);
            assert_eq!(w[6].offset, (g.header.efi_backup_lba - 32) * 512);
        }
    }
    assert!(fix_gpt_attributes(&GptInfo::new_ventoy(SIZE_1GB, [1; 16], [2; 16], [3; 16])).is_none());
}

#[test]
fn an_update_keeps_the_disk() {
    let size = 64 * SIZE_1MB;
    let plan = write_install(
        size,
        &options(false, 0),
        &GUIDS,
        &BootImages { boot: &[1; 440], core: &[2; 1000] },
    );
    let mut disk = vec![0x77u8; size as usize];
    apply(&mut disk, &plan.writes);
    let before = disk.clone();
    let mut sector = [0u8; 512];
    sector.copy_from_slice(&disk[..512]);
    let mbr = match Mbr::read(&sector) {
        Ok(m) => m,
        Err(e) => panic!("{}", e.message()),
    };
    let at = RESERVED_OFFSET as usize;
    let reserved: Vec<u8> = disk[at..at + 4096].to_vec();
    let core = vec![8u8; 3_000_000];
    let writes = write_update(&mbr, &[0xD1; 16], &reserved, &BootImages { boot: &[7; 440], core: &core });
    apply(&mut disk, &writes);
    assert_eq!(detected(&disk), detected(&before));
    assert_eq!(&disk[384..400], &before[384..400]);
    assert_eq!(&disk[at..], &before[at..]);
    assert_eq!((disk[0], disk[512]), (7, 8));
    let mut swapped = mbr;
    swapped.partitions[0].active = 0;
    swapped.partitions[1].active = 0x80;
    let writes = write_update(&swapped, &[0xD1; 16], &reserved, &BootImages { boot: &[7; 440], core: &core });
    assert!(writes.iter().any(|w| w.offset == 446 && w.data == vec![0x80]));
    assert!(writes.iter().any(|w| w.offset == 462 && w.data == vec![0]));
}

#[test]
fn a_disk_with_a_gpt_keeps_its_guid_in_the_boot_sector() {
    let size = 80 * SIZE_1MB;
    let o = options(true, 0);
    let guids = GptGuids { disk: [0xD1; 16], part1: [2; 16], part2: [3; 16] };
    let mut disk = vec![0xEEu8; size as usize];
    apply(&mut disk, &write_install(size, &o, &guids, &BootImages { boot: &[1; 440], core: &[2; 700] }).writes);
    assert_eq!(disk[384..400], [0xD1; 16]);
    assert_eq!(disk[440..444], [0xD1; 4]);
    assert_eq!(disk[512 + 56..512 + 72], [0xD1; 16]);
    assert_eq!((disk[0], disk[383], disk[400], disk[439], disk[444]), (1, 1, 1, 1, 0));
}

#[test]
fn disks_are_refused_for_what_is_wrong_with_them() {
    let found = Some(Detected { part2_start: 4096, gpt_attr: None });
    assert_eq!(check_installed(found).ok(), found);
    assert_eq!(message(check_installed(None)), "Disk does not contain Choosable. Use -i to install");
    assert!(check_whole_disk("/dev/sda", true).is_ok());
    assert_eq!(
        message(check_whole_disk("/dev/sda1", false)),
        "Disk is a partition, not a whole disk: /dev/sda1",
    );
    assert!(check_partition1(true).is_ok());
    assert_eq!(message(check_partition1(false)), "Partition 1 not found on disk");
}

#[test]
fn each_operation_judges_what_is_on_the_disk() {
    let found = Some(Detected { part2_start: 4096, gpt_attr: None });
    assert!(judge_detection(Operation::Install, found, None, false).is_err());
    assert_eq!(judge_detection(Operation::Install, found, None, true).ok(), Some(Outcome::Worked));
    assert_eq!(
        judge_detection(Operation::NonDestructive, found, None, false).ok(),
        Some(Outcome::AlreadyThere),
    );
    assert_eq!(
        judge_detection(Operation::NonDestructive, None, None, false).ok(),
        Some(Outcome::Worked),
    );
    assert_eq!(judge_detection(Operation::Update, found, None, false).ok(), Some(Outcome::Worked));
    assert_eq!(
        message(judge_detection(Operation::Update, None, None, false)),
        "Disk does not contain Choosable. Use -i to install",
    );
}

#[test]
fn a_boot_record_is_stored_as_it_was_read() {
    let mut s = [0u8; 512];
    for i in 0..510 {
        s[i] = (i * 7 % 251) as u8;
    }
    s[510] = 0x55;
    s[511] = 0xAA;
    match Mbr::read(&s) {
        Ok(m) => assert_eq!(m.write(), s),
        Err(e) => panic!("{}", e.message()),
    }
}
