//! Sizes, signatures and names of the disk layout.

use vstd::prelude::*;

verus! {

pub const SIZE_1KB: u64 = 1024;

pub const SIZE_1MB: u64 = 0x10_0000;

pub const SIZE_2MB: u64 = 0x20_0000;

pub const SIZE_1GB: u64 = 0x4000_0000;

pub const SIZE_1TB: u64 = 0x100_0000_0000;

/// The largest FAT32 partition: 32 GiB.
pub const FAT32_MAX_LIMIT: u64 = 0x8_0000_0000;

/// The size of the EFI partition: 32 MiB.
pub const CHOOSABLE_EFI_PART_SIZE: u64 = 0x200_0000;

/// The first sector of partition 1.
pub const CHOOSABLE_PART1_START_SECTOR: u64 = 2048;

/// The GPT attribute of the EFI partition.
pub const CHOOSABLE_EFI_PART_ATTR: u64 = 0x8000_0000_0000_0000;

/// The sectors of the EFI partition.
pub const CHOOSABLE_SECTOR_NUM: u64 = 65536;

/// What both partitions take at least, in MiB.
pub const CHOOSABLE_PART_SIZE_MB: u64 = 33;

pub const CHOOSABLE_MAX_PHY_DRIVE: usize = 128;

pub const SECTOR_SIZE: u64 = 512;

pub const MBR_SIGNATURE_55: u8 = 0x55;

pub const MBR_SIGNATURE_AA: u8 = 0xAA;

pub const PART_TYPE_GPT_PROTECTIVE: u8 = 0xEE;

pub const PART_TYPE_EFI_SYSTEM: u8 = 0xEF;

/// The type of the data partition.
pub const PART_TYPE_DATA: u8 = 0x07;

pub const CHOOSABLE_FILE_BOOT_IMG: &'static str = "boot/boot.img";

pub const CHOOSABLE_FILE_STG1_IMG: &'static str = "boot/core.img.xz";

pub const CHOOSABLE_FILE_DISK_IMG: &'static str = "choosable/choosable.disk.img.xz";

pub const CHOOSABLE_FILE_VERSION: &'static str = "choosable/version";

pub const CHOOSABLE_FILE_LOG: &'static str = "log.txt";

/// "CZBLEFI", as GPT names are stored.
pub const GPT_PART1_NAME: [u16; 36] = [
    0x43, 0x5A, 0x42, 0x4C, 0x45, 0x46, 0x49, 0, 0, 0, 0, 0,
    0, 0, 0, 0, 0, 0, 0, 0, 0, 0, 0, 0,
    0, 0, 0, 0, 0, 0, 0, 0, 0, 0, 0, 0,
];

/// "VTOYEFI", as GPT names are stored.
pub const GPT_PART2_NAME: [u16; 36] = [
    0x56, 0x54, 0x4F, 0x59, 0x45, 0x46, 0x49, 0, 0, 0, 0, 0,
    0, 0, 0, 0, 0, 0, 0, 0, 0, 0, 0, 0,
    0, 0, 0, 0, 0, 0, 0, 0, 0, 0, 0, 0,
];

pub const GPT_TYPE_EFI_SYSTEM: [u8; 16] = [
    0x28, 0x73, 0x2A, 0xC1, 0x1F, 0xF8, 0xD2, 0x11,
    0xBA, 0x4B, 0x00, 0xA0, 0xC9, 0x3E, 0xC9, 0x3B,
];

pub const GPT_TYPE_BASIC_DATA: [u8; 16] = [
    0xA2, 0xA0, 0xD0, 0xEB, 0xE5, 0xB9, 0x33, 0x44,
    0x87, 0xC0, 0x68, 0xB6, 0xB7, 0x26, 0x99, 0xC7,
];

pub const VTSI_IMG_MAGIC: u64 = 0x0000_594F_544E_4556;

pub const VTSI_IMG_MAX_SEG: usize = 128;

pub const VTSI_FOOTER_SIZE: usize = 512;

pub const PART_ACTIVE: u8 = 0x80;

pub const PART_INACTIVE: u8 = 0x00;

/// The GPT attribute of the EFI partition.
pub const GPT_ATTR_VTOYEFI: u64 = 0x8000_0000_0000_0000;

/// "EFI PART".
pub const GPT_SIGNATURE: &'static [u8; 8] = &[0x45, 0x46, 0x49, 0x20, 0x50, 0x41, 0x52, 0x54];

pub const DEFAULT_CHOOSABLE_LABEL: &'static str = "Choosable";

/// Boot code that goes in front of the MBR's partition table.
pub const BOOT_CODE_SIZE: usize = 440;

} // verus!
