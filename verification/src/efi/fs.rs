//! The data partition as the UEFI stage sees it.

use vstd::prelude::*;
use crate::bytes;
use crate::bytes::ends_with_ignore_case;
use crate::scan::chain;
use crate::scan::chain::Geometry;
use crate::scan::dir;
use crate::scan::dir::{DirScan, Reader, ScanAction, Volume, VolumeKind};
use crate::scan::found;
use crate::scan::found::{FileView, FoundFile};
use crate::scan::ntfs::NtfsGeometry;

verus! {

/// The menu has room for this many payloads.
pub const PAYLOAD_SLOT_COUNT: usize = 64;

#[derive(Clone, Copy, PartialEq, Eq, Structural, Debug)]
pub enum FsType {
    Exfat,
    Fat32,
    Ntfs,
}

#[derive(Clone, Copy, PartialEq, Eq, Structural, Debug)]
pub struct FsCtx {
    pub fs: FsType,
    pub part1_lba: u64,
    pub spc: u32,
    pub fat_start: u64,
    pub fat_len: u64,
    pub heap_start: u64,
    pub root_cluster: u32,
    pub mft_start_lba: u64,
    pub sectors_per_cluster: u32,
    pub bytes_per_cluster: u64,
    pub mft_record_size: u64,
}

/// A disk image found on the data partition.
#[derive(Clone, Copy)]
pub struct IsoEntry {
    pub name: [u8; 256],
    pub name_len: usize,
    pub file_start_lba: u64,
    pub file_size: u64,
}

#[derive(Clone, Copy, PartialEq, Eq, Structural, Debug)]
pub enum PayloadType {
    Iso,
    Wim,
    Img,
    Vhd,
    Vhdx,
    Efi,
}

/// Something that can be booted from the data partition.
#[derive(Clone, Copy)]
pub struct PayloadEntry {
    pub name: [u8; 256],
    pub name_len: usize,
    pub file_start_lba: u64,
    pub file_size: u64,
    pub payload_type: PayloadType,
}

impl FsCtx {
    pub open spec fn spec_volume(&self) -> Volume {
        Volume {
            kind: match self.fs {
                FsType::Exfat => VolumeKind::Exfat,
                FsType::Fat32 => VolumeKind::Fat32,
                FsType::Ntfs => VolumeKind::Ntfs,
            },
            geometry: Geometry {
                heap_start: self.heap_start,
                fat_start: self.fat_start,
                spc: self.spc,
            },
            root_cluster: self.root_cluster,
            ntfs: NtfsGeometry {
                part1_lba: self.part1_lba,
                mft_start_lba: self.mft_start_lba,
                sectors_per_cluster: self.sectors_per_cluster,
                mft_record_size: self.mft_record_size,
            },
        }
    }

    pub fn volume(&self) -> (r: Volume)
        ensures
            r == self.spec_volume(),
    {
        Volume {
            kind: match self.fs {
                FsType::Exfat => VolumeKind::Exfat,
                FsType::Fat32 => VolumeKind::Fat32,
                FsType::Ntfs => VolumeKind::Ntfs,
            },
            geometry: Geometry {
                heap_start: self.heap_start,
                fat_start: self.fat_start,
                spc: self.spc,
            },
            root_cluster: self.root_cluster,
            ntfs: NtfsGeometry {
                part1_lba: self.part1_lba,
                mft_start_lba: self.mft_start_lba,
                sectors_per_cluster: self.sectors_per_cluster,
                mft_record_size: self.mft_record_size,
            },
        }
    }
}

impl View for IsoEntry {
    type V = FileView;

    open spec fn view(&self) -> FileView {
        FileView {
            name: self.name@.subrange(0, self.name_len as int),
            lba: self.file_start_lba,
            size: self.file_size,
        }
    }
}

impl View for PayloadEntry {
    type V = FileView;

    open spec fn view(&self) -> FileView {
        FileView {
            name: self.name@.subrange(0, self.name_len as int),
            lba: self.file_start_lba,
            size: self.file_size,
        }
    }
}

impl IsoEntry {
    pub fn from_found(f: &FoundFile) -> (r: IsoEntry)
        ensures
            r@ == f@,
            r.name@ == f.name@,
            r.name_len == f.name_len,
    {
        IsoEntry {
            name: f.name,
            name_len: f.name_len,
            file_start_lba: f.file_start_lba,
            file_size: f.file_size,
        }
    }
}

impl PayloadEntry {
    pub open spec fn wf(&self) -> bool {
        self.name_len <= 256
    }

    /// The payload that a listed disk image is.
    pub fn from_iso(e: &IsoEntry) -> (r: PayloadEntry)
        requires
            e.name_len <= 256,
        ensures
            r@ == e@,
            r.name@ == e.name@,
            r.name_len == e.name_len,
            r.payload_type == type_of(e@.name),
    {
        let name: &[u8] = &e.name;
        PayloadEntry {
            name: e.name,
            name_len: e.name_len,
            file_start_lba: e.file_start_lba,
            file_size: e.file_size,
            payload_type: read_type(&name[0..e.name_len]),
        }
    }
}

/// What a file is, by the end of its name.
pub open spec fn type_of(name: Seq<u8>) -> PayloadType {
    if bytes::has_suffix(name, bytes::text(".wim")) {
        PayloadType::Wim
    } else if bytes::has_suffix(name, bytes::text(".img")) {
        PayloadType::Img
    } else if bytes::has_suffix(name, bytes::text(".vhd")) {
        PayloadType::Vhd
    } else if bytes::has_suffix(name, bytes::text(".vhdx")) {
        PayloadType::Vhdx
    } else if bytes::has_suffix(name, bytes::text(".efi")) {
        PayloadType::Efi
    } else {
        PayloadType::Iso
    }
}

fn read_type(name: &[u8]) -> (r: PayloadType)
    ensures
        r == type_of(name@),
{
    if ends_with_ignore_case(name, ".wim".as_bytes()) {
        PayloadType::Wim
    } else if ends_with_ignore_case(name, ".img".as_bytes()) {
        PayloadType::Img
    } else if ends_with_ignore_case(name, ".vhd".as_bytes()) {
        PayloadType::Vhd
    } else if ends_with_ignore_case(name, ".vhdx".as_bytes()) {
        PayloadType::Vhdx
    } else if ends_with_ignore_case(name, ".efi".as_bytes()) {
        PayloadType::Efi
    } else {
        PayloadType::Iso
    }
}

/// Starts listing the disk images in the root directory of the partition.
pub fn begin_scan(ctx: &FsCtx) -> (r: DirScan)
    ensures
        r.wf(ctx.spec_volume()),
        r@ == dir::scan_start(ctx.spec_volume(), Seq::empty()),
{
    let none: Vec<FoundFile> = Vec::new();
    assert(found::views(none@) =~= Seq::empty());
    DirScan::start(&ctx.volume(), none)
}

/// Goes on with a scan: takes in the sector that it wanted, `None` where that
/// sector cannot be read, and says what it wants next.
pub fn scan_directory(ctx: &FsCtx, scan: &mut DirScan, sector: Option<&[u8; 512]>) -> (r:
    ScanAction)
    requires
        old(scan).wf(ctx.spec_volume()),
    ensures
        final(scan).wf(ctx.spec_volume()),
        final(scan)@ == dir::scan_next(
            ctx.spec_volume(),
            Reader::Uefi,
            old(scan)@,
            chain::opt_view(sector),
        ),
        r == dir::scan_wanted(ctx.spec_volume(), final(scan)@.step),
{
    let vol: Volume = ctx.volume();
    scan.supply(&vol, Reader::Uefi, sector);
    scan.wanted(&vol)
}

} // verus!
