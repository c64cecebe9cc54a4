//! Finding disk images in the root directory of an exFAT, FAT32 or NTFS volume.

pub mod chain;
pub mod dir;
pub mod exfat;
pub mod fat32;
pub mod found;
pub mod laws;
pub mod ntfs;
pub mod root_laws;
