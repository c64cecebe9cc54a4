//! Images: their directories, the volume made from them and the virtual drive.

use choosable::efi::boot_kind::{BootKind, BootloaderType};
use choosable::efi::fs::IsoEntry;
use choosable::efi::iso::{
    build_iso_device_path, collect_cfg_entries, find_efi_boot, find_in_dir, find_in_dir_with_loc,
    menu_key, patch_grub_cfg_blockio, show_menu, BootImage, ChainError, ChainStep, MenuAction,
};
use choosable::efi::iso9660::{
    iso_name_effective_len, lookup_in_dir, match_iso_name, parse_pvd, read_extent_data,
    resolve_path, sector_count, Extent,
};
use choosable::efi::iso_fs::{
    create_iso_fs, file_get_info, file_get_position, file_open, file_read_dir, file_read_file,
    file_set_position, file_write_ro, path_component_matches, sfs_open_volume, FileStatus,
    IsoFsCtx, FILE_INFO_D1, FILE_INFO_D2, FILE_INFO_D3, FILE_INFO_D4, INFO_SIZE,
};
use choosable::efi::iso_source::{
    read_iso_sector, BlockIoIsoSource, RamIsoSource, ReadPlan,
};
use choosable::efi::protocol::{Guid, Key};
use choosable::efi::virtual_blockio::{
    cdrom_device_path, patch_dir_entry, read_block_at, serve_memory_sector, BlockError,
    EntryPlace, IsoMedia, RawMedia, SetupStep, VhdMedia, VirtualBlockIo, VirtualMedia,
};

const ROOT: u32 = 20;
const CONFIG: &[u8] = b"menuentry a {\nlinux /casper/vmlinuz quiet\ninitrd /casper/initrd.lz\n}\n";

fn record(name: &[u8], lba: u32, size: u32, dir: bool) -> Vec<u8> {
    let mut len = 33 + name.len();
    if len % 2 == 1 {
        len += 1;
    }
    let mut r = vec![0u8; len];
    r[0] = len as u8;
    r[2..6].copy_from_slice(&lba.to_le_bytes());
    r[6..10].copy_from_slice(&lba.to_be_bytes());
    r[10..14].copy_from_slice(&size.to_le_bytes());
    r[14..18].copy_from_slice(&size.to_be_bytes());
    r[25] = if dir { 2 } else { 0 };
    r[32] = name.len() as u8;
    r[33..33 + name.len()].copy_from_slice(name);
    r
}

fn put_dir(data: &mut Vec<u8>, lba: u32, records: &[Vec<u8>]) {
    let mut at = lba as usize * 2048;
    let own = [record(&[0], lba, 2048, true), record(&[1], ROOT, 2048, true)];
    for r in own.iter().chain(records.iter()) {
        data[at..at + r.len()].copy_from_slice(r);
        at += r.len();
    }
}

/// /EFI/BOOT/BOOTX64.EFI, /BOOT/GRUB/GRUB.CFG and /README.TXT
fn image() -> RamIsoSource {
    let mut data = vec![0u8; 40 * 2048];
    let pvd = 16 * 2048;
    data[pvd] = 1;
    data[pvd + 1..pvd + 6].copy_from_slice(b"CD001");
    let root = record(&[0], ROOT, 2048, true);
    data[pvd + 156..pvd + 156 + root.len()].copy_from_slice(&root);
    put_dir(&mut data, ROOT, &[
        record(b"BOOT", 21, 2048, true),
        record(b"EFI", 22, 2048, true),
        record(b"README.TXT;1", 26, 3000, false),
    ]);
    put_dir(&mut data, 21, &[record(b"GRUB", 23, 2048, true)]);
    put_dir(&mut data, 22, &[record(b"BOOT", 24, 2048, true)]);
    put_dir(&mut data, 23, &[record(b"GRUB.CFG;1", 25, CONFIG.len() as u32, false)]);
    put_dir(&mut data, 24, &[record(b"BOOTX64.EFI;1", 30, 5000, false)]);
    data[25 * 2048..25 * 2048 + CONFIG.len()].copy_from_slice(CONFIG);
    for i in 0..3000 {
        data[26 * 2048 + i] = (i % 251) as u8;
    }
    RamIsoSource { data }
}

fn wide(s: &str) -> Vec<u16> {
    s.encode_utf16().collect()
}

fn info_kind() -> Guid {
    Guid { d1: FILE_INFO_D1, d2: FILE_INFO_D2, d3: FILE_INFO_D3, d4: FILE_INFO_D4 }
}

#[test]
fn the_volume_descriptor_leads_to_the_root() {
    let src = image();
    assert_eq!(parse_pvd(&src), Some((ROOT, 2048)));
    let mut broken = image();
    broken.data[16 * 2048 + 1] = b'X';
    assert_eq!(parse_pvd(&broken), None);
    assert_eq!(parse_pvd(&RamIsoSource { data: vec![0; 2048] }), None);
}

#[test]
fn names_are_taken_without_their_version() {
    assert_eq!(iso_name_effective_len(b"GRUB.CFG;1"), 8);
    assert_eq!(iso_name_effective_len(b"EFI"), 3);
    assert!(match_iso_name(b"GRUB.CFG;1", &wide("grub.cfg")));
    assert!(!match_iso_name(b"GRUB.CFG;1", &wide("grub.cf")));
    assert!(path_component_matches(&wide("boot\\premount.cpio"), b"PREMOUNT.CPIO"));
    assert_eq!(sector_count(0), 0);
    assert_eq!(sector_count(2049), 2);
}

#[test]
fn paths_are_resolved() {
    let src = image();
    let cfg = Extent { lba: 25, size: CONFIG.len() as u32, is_dir: false };
    assert_eq!(resolve_path(&src, ROOT, 2048, &wide("\\boot\\grub\\grub.cfg")), Some(cfg));
    assert_eq!(lookup_in_dir(&src, 23, 2048, &wide("GRUB.CFG")), Some(cfg));
    assert_eq!(resolve_path(&src, ROOT, 2048, &wide("\\boot\\none")), None);
    assert_eq!(resolve_path(&src, ROOT, 2048, &wide("readme.txt\\x")), None);
    assert_eq!(find_in_dir(&src, ROOT, 2048, b"EFI"), Some((22, 2048)));
    assert_eq!(find_efi_boot(&src), Some((30, 5000)));
    let found = find_in_dir_with_loc(&src, 23, 2048, b"grub.cfg").unwrap();
    assert_eq!((found.lba, found.dir_sector, found.dir_offset), (25, 23, 68));
}

#[test]
fn extents_are_read_up_to_their_end() {
    let src = image();
    let all = read_extent_data(&src, 26, 3000, 0, 9999);
    assert_eq!(all.len(), 3000);
    assert_eq!((all[0], all[2999]), (0, (2999 % 251) as u8));
    assert_eq!(read_extent_data(&src, 26, 3000, 2040, 20), all[2040..2060].to_vec());
    assert!(read_extent_data(&src, 26, 3000, 3000, 1).is_empty());
    let mut buf = [0u8; 2048];
    assert!(read_iso_sector(&src, 26, &mut buf));
    assert_eq!(buf[..], all[..2048]);
    assert!(!read_iso_sector(&src, 40, &mut buf));
}

#[test]
fn reads_from_a_device_are_split_into_sectors() {
    let src = BlockIoIsoSource::new(7, 1000, 10000);
    assert_eq!((src.media_id(), src.iso_lba(), src.size()), (7, 1000, 10000));
    assert_eq!(src.read_at(512, 1024), ReadPlan::Whole { lba: 1001, len: 1024 });
    assert_eq!(
        src.read_at(100, 1000),
        ReadPlan::Split { first: 1000, from: 100, copy: 412, rest: Some((1001, 588)) },
    );
    assert_eq!(src.read_at(10000, 1), ReadPlan::Nothing);
    let plan = src.read_at(100, 1000);
    assert_eq!(plan.bytes_read(true, true), 1000);
    assert_eq!(plan.bytes_read(true, false), 412);
    assert_eq!(plan.bytes_read(false, true), 0);
}

#[test]
fn configurations_are_collected_once() {
    let found = collect_cfg_entries(&image());
    assert_eq!(found.len(), 1);
    assert_eq!(found[0].file.lba, 25);
    assert_eq!(found[0].path, b"/boot/grub/grub.cfg");
}

fn boot_image<'a>() -> BootImage<'a> {
    BootImage { kind: BootKind::Casper, name: b"/u.iso", location: None, premount_target: b"" }
}

#[test]
fn a_patched_configuration_is_served_in_place_of_its_file() {
    let src = image();
    let mut vbio = VirtualBlockIo::new(5000, 40 * 2048);
    assert_eq!(patch_grub_cfg_blockio(&src, &boot_image(), &mut vbio, &mut None), Some(0));
    let file = vbio.replaced.as_ref().unwrap();
    assert!(file.extent as u64 > vbio.last_block - (file.data.len() / 2048) as u64);
    let (extent, size) = (file.extent, file.size);
    let mut raw = [0u8; 2048];
    assert!(read_iso_sector(&src, 23, &mut raw));
    let dir = vbio.read_block(23, Some(&raw)).unwrap();
    assert_eq!(dir[70..74], extent.to_le_bytes());
    assert_eq!(dir[78..82], size.to_le_bytes());
    assert!(!vbio.needs_image(extent as u64));
    let content = vbio.read_block(extent as u64, None).unwrap();
    let text = core::str::from_utf8(&content[..size as usize]).unwrap();
    assert!(text.contains("vmlinuz boot=casper maybe-ubiquity init=/init.choosable quiet\n"), "{}", text);
    assert!(text.contains("initrd.lz /PREMOUNT.CPIO\n"));
    assert_eq!(vbio.read_block(26, Some(&raw)), Some(raw));
    assert_eq!(vbio.read_block(26, None), None);
}

#[test]
fn a_patched_configuration_is_seen_on_the_volume() {
    let src = image();
    let mut vbio = VirtualBlockIo::new(5000, 40 * 2048);
    let mut volume = create_iso_fs(&src, b"/u.iso", &[0; 10], Vec::new());
    assert_eq!(patch_grub_cfg_blockio(&src, &boot_image(), &mut vbio, &mut volume), Some(0));
    let ctx = volume.unwrap();
    let r = ctx.redirect.as_ref().unwrap();
    let file = vbio.replaced.as_ref().unwrap();
    assert_eq!((r.old_extent, r.new_extent, r.new_size), (25, file.extent, file.size));
    let root = sfs_open_volume(&ctx);
    let mut f = match file_open(&src, &ctx, &root, &wide("\\boot\\grub\\grub.cfg")) {
        Ok(f) => f,
        Err(_) => panic!("a file"),
    };
    assert_eq!((f.extent_lba, f.extent_size), (file.extent, file.size));
    match file_read_file(&src, &ctx, &mut f, 100000) {
        Ok(v) => assert_eq!(v, file.data[..file.size as usize]),
        Err(_) => panic!("contents"),
    }
}

#[test]
fn names_match_up_to_the_case_of_letters() {
    assert!(path_component_matches(&wide("\\BOOT\\A_B.TXT;1"), b"a_b.txt"));
    assert!(path_component_matches(&wide("[x]@"), b"[X]@"));
    assert!(!path_component_matches(&wide("{x}`"), b"[x]@"));
    assert!(!path_component_matches(&wide("\\BOOT\\"), b""));
}

#[test]
fn the_virtual_drive_reads_block_by_block() {
    let vbio = VirtualBlockIo::new(5000, 40 * 2048);
    let a = [1u8; 2048];
    let b = [2u8; 2048];
    match vbio.vblock_read(0, 4096, &[Some(a), Some(b)]) {
        Ok(v) => assert_eq!((v[0], v[2048], v.len()), (1, 2, 4096)),
        Err(_) => panic!("two blocks"),
    }
    assert!(matches!(vbio.vblock_read(0, 100, &[]), Err(BlockError::BadBufferSize)));
    assert!(matches!(vbio.vblock_read(0, 2048, &[None]), Err(BlockError::Device)));
    assert!(vbio.needs_image(3));
    let mut changed = VirtualBlockIo::new(5000, 40 * 2048);
    changed.replace_file(EntryPlace { sector: 20, offset: 0 }, &[9; 3000]);
    assert_eq!(changed.read_block(changed.replaced.as_ref().unwrap().extent as u64 + 1, None).unwrap()[951], 9);
}

#[test]
fn media_translate_their_blocks() {
    let iso = IsoMedia { iso_lba: 100, total_blocks: 10 };
    assert_eq!((iso.block_size(), iso.block_count()), (2048, 10));
    assert_eq!(iso.read_block(2, 512, 2048, 0), Some(108));
    let raw = RawMedia { start_lba: 100, total_blocks: 10, sector_size: 512 };
    assert_eq!(raw.block_size(), 512);
    let vhd = VhdMedia { data_lba: 100, total_blocks: 10, sector_size: 512 };
    assert_eq!((vhd.block_count(), iso.media_type()), (10, "ISO"));
    assert_eq!(read_block_at(2, 100, 2048, 10, 512, 2048, 0), Some(108));
    assert_eq!(read_block_at(10, 100, 2048, 10, 512, 2048, 0), None);
    assert_eq!(serve_memory_sector(&[3; 4096], 1), [3; 2048]);
}

#[test]
fn directory_entries_are_patched_in_both_byte_orders() {
    let mut entry = [0u8; 40];
    patch_dir_entry(&mut entry, 0, 0x01020304, 0x0A0B0C0D);
    assert_eq!(entry[2..10], [4, 3, 2, 1, 1, 2, 3, 4]);
    assert_eq!(entry[10..18], [0x0D, 0x0C, 0x0B, 0x0A, 0x0A, 0x0B, 0x0C, 0x0D]);
}

fn volume(src: &RamIsoSource, premount: &[u8]) -> IsoFsCtx {
    create_iso_fs(src, b"/u.iso", &[0; 10], premount.to_vec()).unwrap()
}

#[test]
fn files_are_opened_and_read() {
    let src = image();
    let ctx = volume(&src, b"");
    assert_eq!(ctx.bootloader_type, BootloaderType::Grub);
    let root = sfs_open_volume(&ctx);
    assert!(root.is_dir);
    let mut f = match file_open(&src, &ctx, &root, &wide("readme.txt")) {
        Ok(f) => f,
        Err(_) => panic!("a file"),
    };
    assert_eq!((f.extent_size, f.is_dir), (3000, false));
    assert!(matches!(file_read_file(&src, &ctx, &mut f, 2000), Ok(v) if v.len() == 2000));
    assert_eq!(file_get_position(&f), 2000);
    assert!(matches!(file_read_file(&src, &ctx, &mut f, 2000), Ok(v) if v.len() == 1000));
    assert!(matches!(file_read_file(&src, &ctx, &mut f, 2000), Ok(v) if v.is_empty()));
    f.position = u64::MAX - 1;
    assert!(matches!(file_read_file(&src, &ctx, &mut f, 2000), Ok(v) if v.is_empty()));
    assert_eq!(f.position, u64::MAX - 1);
    assert_eq!(file_set_position(&ctx, &mut f, u64::MAX), FileStatus::Success);
    assert_eq!(file_get_position(&f), 3000);
    assert_eq!(file_set_position(&ctx, &mut f, 10), FileStatus::Success);
    assert_eq!(file_get_position(&f), 10);
    assert!(matches!(file_open(&src, &ctx, &root, &wide("none.txt")), Err(FileStatus::NotFound)));
    assert_eq!(file_write_ro(), FileStatus::WriteProtected);
}

#[test]
fn configurations_are_marked_for_patching() {
    let src = image();
    let ctx = volume(&src, b"");
    let root = sfs_open_volume(&ctx);
    let mut f = match file_open(&src, &ctx, &root, &wide("\\boot\\grub\\grub.cfg")) {
        Ok(f) => f,
        Err(_) => panic!("a file"),
    };
    assert!(f.needs_grub_patch);
    assert!(matches!(file_read_file(&src, &ctx, &mut f, 100000), Ok(v) if v == CONFIG));
    f.patched = Some(b"patched".to_vec());
    f.position = 2;
    assert!(matches!(file_read_file(&src, &ctx, &mut f, 100000), Ok(v) if v == b"tched"));
}

#[test]
fn the_premount_archive_appears_as_a_file() {
    let src = image();
    let ctx = volume(&src, b"archive");
    let root = sfs_open_volume(&ctx);
    let mut f = match file_open(&src, &ctx, &root, &wide("\\PREMOUNT.CPIO")) {
        Ok(f) => f,
        Err(_) => panic!("synthetic"),
    };
    assert!(f.is_synthetic);
    assert!(matches!(file_read_file(&src, &ctx, &mut f, 100), Ok(v) if v == b"archive"));
    let without = volume(&src, b"");
    assert!(file_open(&src, &without, &root, &wide("\\PREMOUNT.CPIO")).is_err());
}

#[test]
fn file_information_has_its_size() {
    let src = image();
    let ctx = volume(&src, b"");
    let root = sfs_open_volume(&ctx);
    match file_get_info(&ctx, &root, &info_kind(), 1000) {
        Ok(v) => assert_eq!(v.len(), INFO_SIZE + 2),
        Err(_) => panic!("enough room"),
    }
    assert!(matches!(
        file_get_info(&ctx, &root, &info_kind(), 10),
        Err((FileStatus::BufferTooSmall, n)) if n == INFO_SIZE + 2
    ));
    let other = Guid { d1: 0, d2: 0, d3: 0, d4: [0; 8] };
    assert!(matches!(file_get_info(&ctx, &root, &other, 1000), Err((FileStatus::Unsupported, _))));
}

#[test]
fn directories_are_read_entry_by_entry() {
    let src = image();
    let ctx = volume(&src, b"");
    let mut root = sfs_open_volume(&ctx);
    let first = file_read_dir(&src, &ctx, &mut root, 4096);
    assert!(matches!(&first, Ok(v) if !v.is_empty()));
    assert!(matches!(file_read_dir(&src, &ctx, &mut root, 4096), Ok(v) if v.is_empty()));
    let mut root = sfs_open_volume(&ctx);
    assert!(matches!(file_read_dir(&src, &ctx, &mut root, 5), Ok(v) if v.is_empty()));
    assert!(matches!(file_read_dir(&src, &ctx, &mut root, 82), Err((FileStatus::BufferTooSmall, 88))));
}

#[test]
fn setting_up_the_drive_leaves_nothing_behind_on_failure() {
    let mut s = SetupStep::AllocatePath;
    for _ in 0..20 {
        s = s.next(true);
    }
    assert_eq!(s, SetupStep::Done { with_fs: true });
    assert_eq!(SetupStep::AllocatePath.next(false), SetupStep::Failed);
    let mut s = SetupStep::InstallBlockIo.next(false);
    for _ in 0..5 {
        s = s.next(true);
    }
    assert_eq!(s, SetupStep::Failed);
    assert_eq!(SetupStep::QueryFs.next(false), SetupStep::DoneHidden);
    assert_eq!(SetupStep::DoneHidden.next(true), SetupStep::DoneHidden);
    assert_eq!(cdrom_device_path().len(), 28);
}

#[test]
fn chain_loading_ends_in_the_loader_or_an_error() {
    let mut s = ChainStep::DisableWatchdog;
    let mut started = false;
    for _ in 0..20 {
        started = started || s == ChainStep::StartImage;
        s = s.uefi_chainload_iso(true);
    }
    assert!(started);
    assert_eq!(s, ChainStep::Returned);
    assert_eq!(ChainStep::CreateCdrom.uefi_chainload_iso(false), ChainStep::Failed(ChainError::NoCdrom));
    assert_eq!(ChainStep::FindLoader.uefi_chainload_iso(false), ChainStep::Failed(ChainError::NoLoader));
    assert_eq!(ChainStep::ReadLoader.uefi_chainload_iso(false), ChainStep::Failed(ChainError::LoaderUnreadable));
}

#[test]
fn device_paths_end() {
    let p = build_iso_device_path(4096);
    assert_eq!(p[p.len() - 4..], [0x7F, 0xFF, 4, 0]);
}

fn listed(name: &[u8], size: u64) -> IsoEntry {
    let mut n = [0u8; 256];
    n[..name.len()].copy_from_slice(name);
    IsoEntry { name: n, name_len: name.len(), file_start_lba: 0, file_size: size }
}

#[test]
fn the_menu_numbers_its_images() {
    let lines = show_menu(&[listed(b"/a.iso", 3 * 1048576), listed(b"", 0)]);
    assert!(lines.iter().any(|l| l == b" 1. /a.iso (3 MiB)\r\n"), "{:?}", lines);
    assert!(lines.iter().any(|l| l == b" 2.  (0 MiB)\r\n"), "{:?}", lines);
    assert_eq!(menu_key(&Key { sc: 0, uc: 0x31 }, 2), MenuAction::Boot(0));
    assert_eq!(menu_key(&Key { sc: 0, uc: 0x33 }, 2), MenuAction::Ignore);
    assert_eq!(menu_key(&Key { sc: 0, uc: 0x72 }, 2), MenuAction::Rescan);
}
