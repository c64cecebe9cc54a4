//! Looking for images on a partition, under both firmwares.

use choosable::bpb::{exfat_layout, fat32_layout, ntfs_layout, NtfsFault};
use choosable::efi::boot_context::BootContext;
use choosable::efi::boot_stage::{
    mount, BootError, BootPipeline, DiscoverDiskStage, DiscoverPartitionStage,
    DiscoverPayloadStage, ExecuteBootStage, MountFilesystemStage, NetworkPayloadLocatorStage,
    SelectPayloadStage, StageResult, StageStep,
};
use choosable::efi::disk::{
    find_disk_handle, find_gpt_data_partition, find_partition_by_lba, read_mbr_guid,
    read_partition_guid,
};
use choosable::efi::fs::{begin_scan, FsType, PayloadType};
use choosable::efi::iso::MenuAction;
use choosable::efi::locator::FileBackedIsoLocator;
use choosable::efi::protocol::Key;
use choosable::gpt_search::{Search, Target};
use choosable::kernel::part::{Partition, PartitionRead};
use choosable::kernel::start::{entries, Halt, Start};
use choosable::scan::dir::ScanAction;
use choosable::scan::exfat::utf16le_to_ascii;
use choosable::scan::ntfs::{
    get_ntfs_file_info, parse_varlen_le, parse_varlen_le_signed, NtfsGeometry,
};

type Sectors = Vec<[u8; 512]>;

fn put(disk: &mut Sectors, lba: usize, at: usize, data: &[u8]) {
    disk[lba][at..at + data.len()].copy_from_slice(data);
}

/// A disk whose partition 1 starts at sector 100.
fn blank() -> Sectors {
    let mut disk = vec![[0u8; 512]; 300];
    put(&mut disk, 0, 446 + 4, &[0x07]);
    put(&mut disk, 0, 446 + 8, &100u32.to_le_bytes());
    put(&mut disk, 0, 446 + 12, &200u32.to_le_bytes());
    put(&mut disk, 0, 510, &[0x55, 0xAA]);
    disk
}

/// FAT at 102, root directory at 103, and an image in cluster 5.
fn fat32() -> Sectors {
    let mut disk = blank();
    put(&mut disk, 100, 0x52, b"FAT32   ");
    put(&mut disk, 100, 13, &[1]);
    put(&mut disk, 100, 14, &2u16.to_le_bytes());
    put(&mut disk, 100, 16, &[1]);
    put(&mut disk, 100, 36, &1u32.to_le_bytes());
    put(&mut disk, 100, 44, &2u32.to_le_bytes());
    put(&mut disk, 102, 8, &0x0FFF_FFF8u32.to_le_bytes());
    put(&mut disk, 103, 0, b"TEST    ISO\x20");
    put(&mut disk, 103, 26, &5u16.to_le_bytes());
    put(&mut disk, 103, 28, &4096u32.to_le_bytes());
    put(&mut disk, 103, 32, b"NOTES   TXT\x20");
    disk
}

/// FAT at 110, heap at 120, root directory in cluster 4.
fn exfat() -> Sectors {
    let mut disk = blank();
    put(&mut disk, 100, 3, b"EXFAT   ");
    put(&mut disk, 100, 80, &10u32.to_le_bytes());
    put(&mut disk, 100, 84, &1u32.to_le_bytes());
    put(&mut disk, 100, 88, &20u32.to_le_bytes());
    put(&mut disk, 100, 96, &4u32.to_le_bytes());
    put(&mut disk, 100, 109, &[1]);
    put(&mut disk, 110, 16, &0xFFFF_FFFFu32.to_le_bytes());
    put(&mut disk, 124, 0, &[0x83]);
    put(&mut disk, 124, 32, &[0x85, 2]);
    put(&mut disk, 124, 64, &[0xC0, 0, 0, 8]);
    put(&mut disk, 124, 64 + 20, &7u32.to_le_bytes());
    put(&mut disk, 124, 64 + 24, &123456u64.to_le_bytes());
    let name: Vec<u8> = "live.IsO".encode_utf16().flat_map(|u| u.to_le_bytes()).collect();
    put(&mut disk, 124, 96, &[0xC1, 0]);
    put(&mut disk, 124, 98, &name);
    disk
}

/// Records of 1024 bytes from sector 116 on: the root directory in record 5,
/// and an image in record 9.
fn ntfs() -> Sectors {
    let mut disk = blank();
    put(&mut disk, 100, 3, b"NTFS    ");
    put(&mut disk, 100, 13, &[8]);
    put(&mut disk, 100, 0x30, &2u64.to_le_bytes());
    put(&mut disk, 100, 0x40, &[0xF6]);
    let root = 116 + 5 * 2;
    put(&mut disk, root, 0, b"FILE");
    put(&mut disk, root, 0x14, &0x38u16.to_le_bytes());
    let attr = 0x38;
    put(&mut disk, root, attr, &0x90u32.to_le_bytes());
    put(&mut disk, root, attr + 4, &200u32.to_le_bytes());
    put(&mut disk, root, attr + 9, &[4, 24]);
    put(&mut disk, root, attr + 16, &160u32.to_le_bytes());
    put(&mut disk, root, attr + 20, &32u16.to_le_bytes());
    put(&mut disk, root, attr + 24, b"$\0I\x003\x000\0");
    let content = attr + 32;
    put(&mut disk, root, content, &0x30u32.to_le_bytes());
    let header = content + 16;
    put(&mut disk, root, header, &16u32.to_le_bytes());
    put(&mut disk, root, header + 4, &140u32.to_le_bytes());
    put(&mut disk, root, header + 8, &140u32.to_le_bytes());
    let entry = header + 16;
    put(&mut disk, root, entry, &9u64.to_le_bytes());
    put(&mut disk, root, entry + 8, &100u16.to_le_bytes());
    put(&mut disk, root, entry + 10, &76u16.to_le_bytes());
    put(&mut disk, root, entry + 16 + 64, &[5, 1]);
    let name: Vec<u8> = "a.iso".encode_utf16().flat_map(|u| u.to_le_bytes()).collect();
    put(&mut disk, root, entry + 16 + 66, &name);
    put(&mut disk, root, entry + 100 + 8, &16u16.to_le_bytes());
    put(&mut disk, root, entry + 100 + 12, &2u32.to_le_bytes());
    put(&mut disk, root, attr + 200, &0xFFFF_FFFFu32.to_le_bytes());
    let file = 116 + 9 * 2;
    put(&mut disk, file, 0, b"FILE");
    put(&mut disk, file, 0x14, &0x38u16.to_le_bytes());
    put(&mut disk, file, 0x38, &0x80u32.to_le_bytes());
    put(&mut disk, file, 0x38 + 4, &80u32.to_le_bytes());
    put(&mut disk, file, 0x38 + 8, &[1]);
    put(&mut disk, file, 0x38 + 0x20, &64u16.to_le_bytes());
    put(&mut disk, file, 0x38 + 0x30, &99999u64.to_le_bytes());
    put(&mut disk, file, 0x38 + 64, &[0x21, 3, 0x10, 0x00]);
    disk
}

#[test]
fn the_ends_of_record_sectors_are_put_back() {
    let g = NtfsGeometry {
        part1_lba: 100,
        mft_start_lba: 116,
        sectors_per_cluster: 8,
        mft_record_size: 1024,
    };
    let mut rec = vec![0u8; 1024];
    rec[4..8].copy_from_slice(&[0x30, 0, 3, 0]);
    rec[0x14] = 0x38;
    rec[0x30..0x36].copy_from_slice(&[9, 9, 0x10, 0x00, 0, 0]);
    rec[0x38] = 0x10;
    rec[0x3C..0x3E].copy_from_slice(&(507u16 - 0x38 - 64).to_le_bytes());
    let data = 507 - 64;
    rec[data] = 0x80;
    rec[data + 4] = 80;
    rec[data + 8] = 1;
    rec[data + 0x20] = 64;
    rec[data + 0x30] = 77;
    rec[507..512].copy_from_slice(&[0x31, 3, 0x20, 9, 9]);
    rec[1022..].copy_from_slice(&[9, 9]);
    assert_eq!(get_ntfs_file_info(&g, &rec), Some((100 + 0x1020 * 8, 77)));
}

fn start(disk: &Sectors) -> Start {
    let mut s = Start::new();
    while let ScanAction::ReadSector(lba) = s.wanted() {
        s = s.step(disk.get(lba as usize));
    }
    s
}

fn listed(disk: &Sectors) -> Vec<(String, u64, u64)> {
    match start(disk) {
        Start::Menu { files, .. } => entries(&files)
            .iter()
            .map(|e| (String::from_utf8_lossy(&e.name[..e.name_len]).into_owned(), e.file_start_lba, e.file_size))
            .collect(),
        Start::Halted(h) => panic!("{:?}", h),
        _ => panic!("not settled"),
    }
}

#[test]
fn the_kernel_lists_the_images_of_a_fat32_partition() {
    assert_eq!(listed(&fat32()), vec![(String::from("TEST.ISO"), 106, 4096)]);
}

#[test]
fn the_kernel_lists_the_images_of_an_exfat_partition() {
    assert_eq!(listed(&exfat()), vec![(String::from("live.IsO"), 130, 123456)]);
}

#[test]
fn the_kernel_lists_the_images_of_an_ntfs_partition() {
    assert_eq!(listed(&ntfs()), vec![(String::from("a.iso"), 100 + 16 * 8, 99999)]);
}

#[test]
fn the_kernel_halts_where_it_finds_nothing() {
    assert!(matches!(start(&vec![]), Start::Halted(Halt::NoPartitions)));
    let mut disk = blank();
    assert!(matches!(start(&disk), Start::Halted(Halt::Mount(_))));
    disk.truncate(50);
    assert!(matches!(start(&disk), Start::Halted(Halt::BootRecordRead)));
}

#[test]
fn the_kernel_reads_a_gpt_behind_its_placeholder() {
    let mut disk = vec![[0u8; 512]; 10];
    put(&mut disk, 0, 446 + 4, &[0xEE]);
    put(&mut disk, 0, 446 + 12, &[1]);
    put(&mut disk, 1, 0, b"EFI PART");
    put(&mut disk, 1, 72, &2u64.to_le_bytes());
    put(&mut disk, 1, 80, &128u32.to_le_bytes());
    put(&mut disk, 1, 84, &128u32.to_le_bytes());
    let basic = [0xA2, 0xA0, 0xD0, 0xEB, 0xE5, 0xB9, 0x33, 0x44, 0x87, 0xC0, 0x68, 0xB6, 0xB7, 0x26, 0x99, 0xC7];
    put(&mut disk, 2, 128, &basic);
    put(&mut disk, 2, 128 + 32, &2048u64.to_le_bytes());
    put(&mut disk, 2, 128 + 40, &4095u64.to_le_bytes());
    let mut read = PartitionRead::Mbr;
    while let ScanAction::ReadSector(lba) = read.wanted() {
        read.read_partitions(disk.get(lba as usize));
    }
    match read {
        PartitionRead::Done { parts, count } => {
            assert_eq!(count, 1);
            assert_eq!(parts[0], Partition { start_lba: 2048, sector_count: 2048, fs_type: 7 });
        }
        _ => panic!("settled"),
    }
}

fn uefi(disk: &Sectors) -> Result<BootContext, BootError> {
    let mut ctx = BootContext::new();
    let mut stage = DiscoverPartitionStage::new();
    let mut lba = 0;
    loop {
        match stage.execute(&mut ctx, disk.get(lba as usize)) {
            StageStep::ReadSector(n) => lba = n,
            StageStep::Finished(_) => break,
            StageStep::Fatal(e) => return Err(e),
        }
    }
    let vbr = disk.get(ctx.partition_start_lba as usize);
    if let StageStep::Fatal(e) = MountFilesystemStage.execute(&mut ctx, vbr) {
        return Err(e);
    }
    let fs = ctx.fs_ctx.unwrap();
    let mut scan = begin_scan(&fs);
    let mut sector = None;
    if let ScanAction::ReadSector(n) = scan.wanted(&fs.volume()) {
        sector = disk.get(n as usize);
    }
    loop {
        match DiscoverPayloadStage.execute(&mut ctx, &mut scan, sector) {
            StageStep::ReadSector(n) => sector = disk.get(n as usize),
            StageStep::Finished(_) => return Ok(ctx),
            StageStep::Fatal(e) => return Err(e),
        }
    }
}

#[test]
fn the_firmware_finds_the_images() {
    for (disk, name, lba) in [
        (fat32(), &b"TEST.ISO"[..], 106),
        (exfat(), &b"live.IsO"[..], 130),
        (ntfs(), &b"a.iso"[..], 228),
    ] {
        match uefi(&disk) {
            Ok(ctx) => {
                assert_eq!(ctx.payload_count, 1);
                let p = &ctx.payloads[0];
                assert_eq!((&p.name[..p.name_len], p.file_start_lba), (name, lba));
            }
            Err(e) => panic!("{:?}", e),
        }
    }
}

#[test]
fn the_partition_of_an_mbr_disk_is_known_by_number_and_signature() {
    let mut disk = exfat();
    put(&mut disk, 0, 440, &[4, 3, 2, 1]);
    let ctx = uefi(&disk).unwrap();
    assert!(ctx.is_mbr);
    assert_eq!((ctx.partition_number, ctx.partition_guid.d1), (1, 0x01020304));
    let entry = disk[0][446..462].to_vec();
    put(&mut disk, 0, 446, &[0; 16]);
    put(&mut disk, 0, 446 + 32, &entry);
    assert_eq!(uefi(&disk).unwrap().partition_number, 3);
}

#[test]
fn every_bootable_file_is_listed_as_what_it_is() {
    let kinds = [
        (&b"A       WIM\x20"[..], PayloadType::Wim),
        (&b"B       IMG\x20"[..], PayloadType::Img),
        (&b"C       VHD\x20"[..], PayloadType::Vhd),
        (&b"D       EFI\x20"[..], PayloadType::Efi),
        (&b"E       iso\x20"[..], PayloadType::Iso),
        (&b"F       TXT\x20"[..], PayloadType::Iso),
    ];
    let mut disk = fat32();
    for (i, (entry, _)) in kinds.iter().enumerate() {
        put(&mut disk, 103, i * 32, entry);
        put(&mut disk, 103, i * 32 + 26, &5u16.to_le_bytes());
    }
    let ctx = uefi(&disk).unwrap();
    assert_eq!(ctx.payload_count, 5);
    for (i, (_, kind)) in kinds[..5].iter().enumerate() {
        assert_eq!(ctx.payloads[i].payload_type, *kind);
        assert_eq!(ctx.payloads[i].file_start_lba, 106);
    }
    assert_eq!(listed(&disk).len(), 5);
    let mut disk = exfat();
    let name: Vec<u8> = "win.vHdX".encode_utf16().flat_map(|u| u.to_le_bytes()).collect();
    put(&mut disk, 124, 98, &name);
    assert_eq!(uefi(&disk).unwrap().payloads[0].payload_type, PayloadType::Vhdx);
}

#[test]
fn a_fat32_root_is_listed_along_its_chain() {
    let mut disk = fat32();
    let chain = [2u32, 6, 7, 8, 9];
    for w in chain.windows(2) {
        put(&mut disk, 102, w[0] as usize * 4, &w[1].to_le_bytes());
    }
    put(&mut disk, 102, 9 * 4, &0x0FFF_FFF8u32.to_le_bytes());
    for i in 0..80usize {
        let lba = 101 + chain[i / 16] as usize;
        let entry = if i < 16 {
            format!("F{i:<7}TXT\x20")
        } else {
            format!("F{i:<7}ISO\x20")
        };
        put(&mut disk, lba, i % 16 * 32, entry.as_bytes());
        put(&mut disk, lba, i % 16 * 32 + 26, &[i as u8, 0]);
        put(&mut disk, lba, i % 16 * 32 + 28, &[i as u8, 0, 0, 0]);
    }
    let files = listed(&disk);
    assert_eq!(files.len(), 64);
    for (k, file) in files.iter().enumerate() {
        let i = k as u64 + 16;
        assert_eq!(*file, (format!("F{i}.ISO"), 101 + i, i));
    }
    put(&mut disk, 108, 0, &[0]);
    assert_eq!(listed(&disk).len(), 16);
}

fn put_set(disk: &mut Sectors, at: &[(usize, usize); 3], name: &str) {
    put(disk, at[0].0, at[0].1, &[0x85, 2]);
    put(disk, at[1].0, at[1].1, &[0xC0, 0, 0, name.len() as u8]);
    put(disk, at[1].0, at[1].1 + 20, &7u32.to_le_bytes());
    put(disk, at[1].0, at[1].1 + 24, &123456u64.to_le_bytes());
    let units: Vec<u8> = name.encode_utf16().flat_map(|u| u.to_le_bytes()).collect();
    put(disk, at[2].0, at[2].1, &[0xC1, 0]);
    put(disk, at[2].0, at[2].1 + 2, &units);
}

#[test]
fn an_exfat_root_is_listed_across_its_sectors() {
    let mut disk = exfat();
    disk[124] = [0; 512];
    for i in 0..15 {
        put(&mut disk, 124, i * 32, &[0x83]);
    }
    put_set(&mut disk, &[(124, 480), (125, 0), (125, 32)], "cut.iso");
    assert_eq!(listed(&disk), [("cut.iso".to_string(), 130, 123456)]);

    let mut disk = exfat();
    put(&mut disk, 110, 16, &5u32.to_le_bytes());
    put(&mut disk, 110, 20, &0xFFFF_FFFFu32.to_le_bytes());
    disk[124] = [0; 512];
    put(&mut disk, 124, 0, &[0x85, 40]);
    put_set(&mut disk, &[(126, 0), (126, 32), (126, 64)], "next.iso");
    assert_eq!(listed(&disk), [("next.iso".to_string(), 130, 123456)]);
}

#[test]
fn an_ntfs_root_is_listed_past_unreadable_records() {
    let mut disk = ntfs();
    let root = 116 + 5 * 2;
    let attr = 0x38;
    let entry = attr + 32 + 32;
    let good = disk[root][entry..entry + 100].to_vec();
    put(&mut disk, root, attr + 4, &300u32.to_le_bytes());
    put(&mut disk, root, attr + 16, &260u32.to_le_bytes());
    put(&mut disk, root, attr + 32 + 20, &240u32.to_le_bytes());
    put(&mut disk, root, attr + 32 + 24, &240u32.to_le_bytes());
    put(&mut disk, root, entry, &1000u64.to_le_bytes());
    put(&mut disk, root, entry + 100, &good);
    put(&mut disk, root, entry + 200, &[0; 12]);
    put(&mut disk, root, entry + 200 + 8, &16u16.to_le_bytes());
    put(&mut disk, root, entry + 200 + 12, &2u32.to_le_bytes());
    put(&mut disk, root, attr + 300, &0xFFFF_FFFFu32.to_le_bytes());
    assert_eq!(listed(&disk), listed(&ntfs()));
    assert_eq!(listed(&disk).len(), 1);
}

#[test]
fn a_refresh_lists_each_image_once() {
    let disk = exfat();
    match start(&disk) {
        Start::Menu { ctx, files } => {
            assert_eq!(files.len(), 1);
            let mut s = Start::rescan(ctx);
            while let ScanAction::ReadSector(lba) = s.wanted() {
                s = s.step(disk.get(lba as usize));
            }
            assert!(matches!(s, Start::Menu { files, .. } if files.len() == 1));
        }
        _ => panic!("an image"),
    }
}

#[test]
fn the_firmware_tells_why_it_stops() {
    assert!(matches!(uefi(&vec![]), Err(BootError::MbrUnreadable)));
    assert!(matches!(uefi(&vec![[0u8; 512]; 3]), Err(BootError::NoPartition)));
    assert!(matches!(uefi(&blank()), Err(BootError::UnknownFilesystem)));
    let mut short = blank();
    short.truncate(50);
    assert!(matches!(uefi(&short), Err(BootError::PartitionUnreadable)));
    let mut empty = fat32();
    put(&mut empty, 103, 8, b"TXT");
    assert!(matches!(uefi(&empty), Err(BootError::NoPayloads)));
    let mut bad = fat32();
    put(&mut bad, 100, 13, &[0]);
    assert!(matches!(uefi(&bad), Err(BootError::InvalidSectorsPerCluster)));
    let mut bad = exfat();
    put(&mut bad, 100, 109, &[17]);
    assert!(matches!(uefi(&bad), Err(BootError::InvalidClusterShift)));
    let mut bad = ntfs();
    put(&mut bad, 100, 0x40, &[0xF0]);
    assert!(matches!(uefi(&bad), Err(BootError::InvalidMftRecordSize)));
}

#[test]
fn a_selection_is_booted_from_where_it_lies() {
    let mut ctx = uefi(&exfat()).unwrap();
    ctx.partition_number = 3;
    assert_eq!(SelectPayloadStage.execute(&mut ctx, &Key { sc: 0, uc: 0x35 }), MenuAction::Ignore);
    assert_eq!(SelectPayloadStage.execute(&mut ctx, &Key { sc: 0, uc: 0x31 }), MenuAction::Boot(0));
    assert_eq!(ctx.selected_index, Some(0));
    assert_eq!(ctx.selected_payload().map(|p| p.file_size), Some(123456));
    let boot = ExecuteBootStage { selected_index: 0 };
    assert_eq!(boot.execute(&mut ctx), StageStep::Finished(StageResult::Continue));
    let payload = ctx.selected_payload().unwrap();
    let loc = FileBackedIsoLocator::from_payload_entry(
        payload,
        ctx.partition_guid,
        ctx.partition_number,
        ctx.partition_start_lba,
        ctx.is_mbr,
    )
    .location;
    assert_eq!((loc.partition_number, loc.part1_lba, loc.iso_lba), (3, 100, 130));
    assert_eq!(loc.offset_bytes(), 30 * 512);
    let none = ExecuteBootStage { selected_index: 5 };
    assert_eq!(none.execute(&mut ctx), StageStep::Fatal(BootError::InvalidSelection));
    let net = NetworkPayloadLocatorStage { url: None };
    assert_eq!(net.execute(&ctx), StageStep::Finished(StageResult::Continue));
}

#[test]
fn stages_run_in_turn_until_one_halts() {
    let mut p = BootPipeline::new(3);
    assert_eq!(p.run(None), Some(0));
    assert_eq!(p.run(Some(StageResult::Continue)), Some(1));
    assert_eq!(p.run(Some(StageResult::Halt)), None);
    let mut p = BootPipeline::new(1);
    assert_eq!(p.run(None), Some(0));
    assert_eq!(p.run(Some(StageResult::Continue)), None);
}

#[test]
fn the_first_whole_disk_is_taken() {
    assert_eq!(find_disk_handle(&[Some(1), None, Some(0), Some(0)]), Some(2));
    assert_eq!(find_disk_handle(&[Some(1)]), None);
    let mut ctx = BootContext::new();
    assert_eq!(DiscoverDiskStage.execute(&mut ctx, &[Some(1), Some(0)], &[7, 8]), Some(1));
    assert_eq!(ctx.media_id, 8);
}

#[test]
fn guids_are_read_in_their_byte_order() {
    let mut s = [0u8; 512];
    for i in 0..512 {
        s[i] = i as u8;
    }
    let g = read_partition_guid(&s, 0);
    assert_eq!((g.d1, g.d2, g.d3), (0x13121110, 0x1514, 0x1716));
    assert_eq!(g.d4, [0x18, 0x19, 0x1A, 0x1B, 0x1C, 0x1D, 0x1E, 0x1F]);
    let mut mbr = [0u8; 512];
    mbr[440..444].copy_from_slice(&[0xDD, 0xCC, 0xBB, 0xAA]);
    mbr[444] = 1;
    mbr[446] = 0x80;
    let g = read_mbr_guid(&mbr);
    assert_eq!((g.d1, g.d2, g.d3, g.d4), (0xAABBCCDD, 0, 0, [0, 0, 0, 0, 1, 0, 0, 0]));
}

#[test]
fn layouts_are_read_from_boot_records() {
    let f = fat32_layout(&fat32()[100], 100).unwrap();
    assert_eq!((f.spc, f.fat_start, f.heap_start, f.root_cluster), (1, 102, 103, 2));
    let e = exfat_layout(&exfat()[100], 100, 24).unwrap();
    assert_eq!((e.spc, e.fat_start, e.heap_start, e.root_cluster), (2, 110, 120, 4));
    assert!(exfat_layout(&exfat()[100], 100, 0).is_none());
    let n = ntfs_layout(&ntfs()[100], 100, -10).unwrap();
    assert_eq!((n.spc, n.mft_start_lba, n.mft_record_size), (8, 116, 1024));
    assert_eq!(ntfs_layout(&ntfs()[100], 100, 2), Err(NtfsFault::RecordSize));
    assert_eq!(ntfs_layout(&[0; 512], 100, 1), Err(NtfsFault::EmptyClusters));
    assert!(matches!(mount(FsType::Fat32, 100, &fat32()[100]), Ok(c) if c.heap_start == 103));
}

#[test]
fn numbers_of_any_width_are_read() {
    assert_eq!(parse_varlen_le(&[1, 2, 3], 2), 0x0201);
    assert_eq!(parse_varlen_le(&[], 4), 0);
    assert_eq!(parse_varlen_le_signed(&[0xFF], 1), -1);
    assert_eq!(parse_varlen_le_signed(&[0x00, 0x80], 2), -32768);
    assert_eq!(parse_varlen_le_signed(&[0x7F], 1), 127);
    assert_eq!(parse_varlen_le_signed(&[1; 9], 9), 0);
    assert_eq!(utf16le_to_ascii(&[0x41, 0, 0xE9, 0, 0, 1, 0, 0, 0x42, 0], 10, 10), b"A??");
}

#[test]
fn a_partition_is_found_by_where_it_starts() {
    let mut disk = vec![[0u8; 512]; 10];
    put(&mut disk, 1, 0, b"EFI PART");
    put(&mut disk, 1, 72, &2u64.to_le_bytes());
    put(&mut disk, 1, 80, &128u32.to_le_bytes());
    put(&mut disk, 1, 84, &128u32.to_le_bytes());
    put(&mut disk, 2, 256, &[1; 16]);
    put(&mut disk, 2, 256 + 16, &[9; 16]);
    put(&mut disk, 2, 256 + 32, &4096u64.to_le_bytes());
    let run = |target: Target| -> Search {
        let mut search = Search::start(40);
        while let ScanAction::ReadSector(lba) = search.wanted() {
            search.supply(target, disk.get(lba as usize));
        }
        search
    };
    let (guid, number) = find_partition_by_lba(&run(Target::StartLba(4096))).unwrap();
    assert_eq!((guid.d1, number), (0x09090909, 3));
    assert!(find_partition_by_lba(&run(Target::StartLba(2048))).is_none());
    assert!(find_gpt_data_partition(&run(Target::BasicData)).is_none());
}

#[test]
fn the_selected_payload_can_be_changed() {
    let mut ctx = uefi(&exfat()).unwrap();
    assert!(ctx.selected_payload_mut().is_none());
    ctx.selected_index = Some(0);
    ctx.selected_payload_mut().unwrap().file_size = 1;
    assert_eq!(ctx.payloads[0].file_size, 1);
}
