//! MBR and GPT on disk.

use choosable::constants::{GPT_SIGNATURE, SIZE_1GB, SIZE_1MB};
use choosable::disk_io::DiskWrite;
use choosable::disk_layout::{
    generate_guid, sector_offset, GptHeader, GptInfo, GptRead, Mbr, PartitionTableEntry,
};

#[test]
fn test_mbr_new_empty() {
    let mbr = Mbr::new_empty();
    assert_eq!(mbr.signature_55, 0x55);
    assert_eq!(mbr.signature_aa, 0xAA);
}

#[test]
fn test_mbr_partition_style() {
    let mut mbr = Mbr::new_empty();
    assert_eq!(mbr.partition_style(), 0); // MBR

    mbr.partitions[0].fs_flag = 0xEE;
    assert!(mbr.is_gpt_protective());
    assert_eq!(mbr.partition_style(), 1); // GPT
}

#[test]
fn test_gpt_header_creation() {
    let guid = [0u8; 16];
    let header = GptHeader::new(64 * SIZE_1GB, guid);
    assert_eq!(&header.signature, GPT_SIGNATURE);
}

#[test]
fn a_master_boot_record_is_read_back() {
    let mut mbr = Mbr::new_empty();
    mbr.boot_code[0] = 0xEB;
    mbr.boot_code[445] = 0x7F;
    mbr.partitions[0] = PartitionTableEntry {
        active: 0x80,
        start_head: 32,
        start_sector_cylinder: 0x0021,
        fs_flag: 7,
        end_head: 254,
        end_sector_cylinder: 0xFFFF,
        start_lba: 2048,
        sector_count: 0x0102_0304,
    };
    let bytes = mbr.write();
    assert_eq!(bytes.len(), 512);
    assert_eq!(&bytes[446..462], &[
        0x80, 32, 0x21, 0x00, 7, 254, 0xFF, 0xFF, 0x00, 0x08, 0, 0, 0x04, 0x03, 0x02, 0x01,
    ]);
    let mut sector = [0u8; 512];
    sector.copy_from_slice(&bytes);
    match Mbr::read(&sector) {
        Ok(m) => {
            assert_eq!(m.boot_code, mbr.boot_code);
            assert_eq!(m.partitions, mbr.partitions);
            assert_eq!((m.part1_start_lba(), m.part1_sector_count()), (2048, 0x0102_0304));
            assert_eq!((m.part1_active(), m.part2_active()), (0x80, 0));
            assert_eq!((m.part2_start_lba(), m.part2_sector_count()), (0, 0));
        }
        Err(e) => panic!("{}", e.message()),
    }
    sector[510] = 0x12;
    match Mbr::read(&sector) {
        Ok(_) => panic!("no signature"),
        Err(e) => assert_eq!(e.message(), "Invalid MBR signature: expected 0x55AA, got 0x12AA"),
    }
}

#[test]
fn a_gpt_header_is_read_back() {
    let h = GptHeader::new(SIZE_1GB, [7; 16]);
    assert_eq!(h.efi_start_lba, 1);
    assert_eq!(h.efi_backup_lba, SIZE_1GB / 512 - 1);
    assert_eq!(h.part_area_start_lba, 2048);
    assert_eq!(h.part_area_end_lba, SIZE_1GB / 512 - 34);
    assert_eq!((h.part_table_start_lba, h.part_table_num_entries), (2, 128));
    assert_eq!((h.part_table_entry_size, h.header_size), (128, 92));
    let stored = h.write();
    assert_eq!(stored.len(), 92);
    assert_eq!(h.padded().len(), 512);
    let mut buf = [0u8; 92];
    buf.copy_from_slice(&stored);
    match GptHeader::read(&buf) {
        Ok(r) => assert_eq!((r.disk_guid, r.efi_backup_lba), ([7; 16], h.efi_backup_lba)),
        Err(e) => panic!("{}", e.message()),
    }
    buf[0] = 0;
    match GptHeader::read(&buf) {
        Ok(_) => panic!("no signature"),
        Err(e) => assert_eq!(e.message(), "Invalid GPT signature: expected 'EFI PART'"),
    }
}

fn apply(disk: &mut Vec<u8>, writes: &[DiskWrite]) {
    for w in writes {
        let at = w.offset as usize;
        disk[at..at + w.data.len()].copy_from_slice(&w.data);
    }
}

fn read_gpt(disk: &[u8]) -> GptRead {
    let mut step = GptRead::Mbr;
    while let Some((at, n)) = step.wanted() {
        step = GptInfo::read_from_disk(step, &disk[at as usize..at as usize + n]);
    }
    step
}

#[test]
fn a_gpt_is_read_back_from_the_disk() {
    let size = 64 * SIZE_1MB;
    let g = GptInfo::new_ventoy(size, [1; 16], [2; 16], [3; 16]);
    let mut disk = vec![0u8; size as usize];
    apply(&mut disk, &g.write_to_disk());
    match read_gpt(&disk) {
        GptRead::Done(r) => {
            assert!(r.protective_mbr.is_gpt_protective());
            assert_eq!(r.header.disk_guid, [1; 16]);
            assert_eq!(r.partitions[0].unique_part_guid, [2; 16]);
            assert_eq!(r.partitions[1].name, g.partitions[1].name);
            assert_eq!(r.partitions[1].start_lba, g.partitions[0].end_lba + 1);
            assert_eq!(r.partitions[2].part_type_guid, [0; 16]);
        }
        _ => panic!("a GPT"),
    }
    disk[512] = 0;
    assert!(matches!(read_gpt(&disk), GptRead::Failed(_)));
    disk[511] = 0;
    assert!(matches!(read_gpt(&disk), GptRead::Failed(_)));
    assert_eq!(sector_offset(3), 1536);
}

#[test]
fn a_guid_is_made_from_the_time() {
    let g = generate_guid(0x0123_4567_89AB_CDEF);
    assert_eq!(&g[..8], &[0xEF, 0xCD, 0xAB, 0x89, 0x67, 0x45, 0x23, 0x01]);
    assert_eq!(g[8] & 0xC0, 0x80);
    assert_eq!(g[10] & 0xF0, 0x40);
    assert_eq!(generate_guid(0)[8], 0x80);
}
