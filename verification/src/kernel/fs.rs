//! The data partition as the BIOS stage sees it.

use vstd::prelude::*;
use crate::bpb;
use crate::bpb::{FatLayout, NtfsFault, NtfsLayout};
use crate::bytes;
use crate::scan::chain;
use crate::scan::chain::Geometry;
use crate::scan::dir;
use crate::scan::dir::{DirScan, Reader, ScanAction, Volume, VolumeKind};
use crate::scan::found;
use crate::scan::found::{FileView, FoundFile};
use crate::scan::ntfs::NtfsGeometry;

verus! {

#[derive(Clone, Copy, PartialEq, Eq, Structural, Debug)]
pub enum FsType {
    Exfat,
    Fat32,
    Ntfs,
}

#[derive(Clone, Copy, PartialEq, Eq, Structural, Debug)]
pub struct FsCtx {
    pub fs: FsType,
    pub part1_lba: u32,
    pub spc: u32,
    pub fat_start: u64,
    pub fat_len: u64,
    pub heap_start: u64,
    pub root_cluster: u32,
    pub mft_start_lba: u64,
    pub sectors_per_cluster: u32,
    pub mft_record_size: u64,
}

/// A disk image found on the data partition.
#[derive(Clone, Copy)]
pub struct DirEntry {
    pub name: [u8; 256],
    pub name_len: usize,
    pub file_start_lba: u64,
    pub file_size: u64,
}

impl View for DirEntry {
    type V = FileView;

    open spec fn view(&self) -> FileView {
        FileView {
            name: self.name@.subrange(0, self.name_len as int),
            lba: self.file_start_lba,
            size: self.file_size,
        }
    }
}

impl DirEntry {
    pub fn zero() -> (r: Self)
        ensures
            r.name@ == bytes::zeros(256),
            r.name_len == 0,
            r.file_start_lba == 0,
            r.file_size == 0,
    {
        let name: [u8; 256] = [0; 256];
        assert(name@ =~= bytes::zeros(256));
        DirEntry { name, name_len: 0, file_start_lba: 0, file_size: 0 }
    }

    pub fn from_found(f: &FoundFile) -> (r: Self)
        ensures
            r@ == f@,
            r.name@ == f.name@,
            r.name_len == f.name_len,
    {
        DirEntry {
            name: f.name,
            name_len: f.name_len,
            file_start_lba: f.file_start_lba,
            file_size: f.file_size,
        }
    }
}

impl FsCtx {
    pub open spec fn spec_volume(&self) -> Volume {
        Volume {
            kind: match self.fs {
                FsType::Exfat => VolumeKind::Exfat,
                FsType::Fat32 => VolumeKind::Fat32,
                FsType::Ntfs => VolumeKind::Ntfs,
            },
            geometry: Geometry {
                heap_start: self.heap_start,
                fat_start: self.fat_start,
                spc: self.spc,
            },
            root_cluster: self.root_cluster,
            ntfs: NtfsGeometry {
                part1_lba: self.part1_lba as u64,
                mft_start_lba: self.mft_start_lba,
                sectors_per_cluster: self.sectors_per_cluster,
                mft_record_size: self.mft_record_size,
            },
        }
    }

    pub fn volume(&self) -> (r: Volume)
        ensures
            r == self.spec_volume(),
    {
        Volume {
            kind: match self.fs {
                FsType::Exfat => VolumeKind::Exfat,
                FsType::Fat32 => VolumeKind::Fat32,
                FsType::Ntfs => VolumeKind::Ntfs,
            },
            geometry: Geometry {
                heap_start: self.heap_start,
                fat_start: self.fat_start,
                spc: self.spc,
            },
            root_cluster: self.root_cluster,
            ntfs: NtfsGeometry {
                part1_lba: self.part1_lba as u64,
                mft_start_lba: self.mft_start_lba,
                sectors_per_cluster: self.sectors_per_cluster,
                mft_record_size: self.mft_record_size,
            },
        }
    }
}

/// Starts listing the disk images in the root directory of the partition.
pub fn begin_scan(ctx: &FsCtx) -> (r: DirScan)
    ensures
        r.wf(ctx.spec_volume()),
        r@ == dir::scan_start(ctx.spec_volume(), Seq::empty()),
{
    let none: Vec<FoundFile> = Vec::new();
    assert(found::views(none@) =~= Seq::empty());
    DirScan::start(&ctx.volume(), none)
}

/// Goes on with a scan: takes in the sector that it wanted, `None` where that
/// sector cannot be read, and says what it wants next.
pub fn scan_filesystem(ctx: &FsCtx, scan: &mut DirScan, sector: Option<&[u8; 512]>) -> (r:
    ScanAction)
    requires
        old(scan).wf(ctx.spec_volume()),
    ensures
        final(scan).wf(ctx.spec_volume()),
        final(scan)@ == dir::scan_next(
            ctx.spec_volume(),
            Reader::Bios,
            old(scan)@,
            chain::opt_view(sector),
        ),
        r == dir::scan_wanted(ctx.spec_volume(), final(scan)@.step),
{
    let vol: Volume = ctx.volume();
    scan.supply(&vol, Reader::Bios, sector);
    scan.wanted(&vol)
}

// ---------------------------------------------------------------------------
// Boot records
// ---------------------------------------------------------------------------

/// Why a partition cannot be used.
#[derive(Clone, Copy, PartialEq, Eq, Structural, Debug)]
pub enum MountError {
    UnknownFilesystem,
    InvalidClusterShift,
    InvalidSectorsPerCluster,
    InvalidMftRecordSize,
}

/// The largest cluster shift that the stage accepts.
pub const MAX_CLUSTER_SHIFT: u8 = 24;

pub open spec fn fat_ctx(fs: FsType, part: u32, l: FatLayout) -> FsCtx {
    FsCtx {
        fs,
        part1_lba: part,
        spc: l.spc,
        fat_start: l.fat_start,
        fat_len: l.fat_len,
        heap_start: l.heap_start,
        root_cluster: l.root_cluster,
        mft_start_lba: 0,
        sectors_per_cluster: 0,
        mft_record_size: 0,
    }
}

pub open spec fn ntfs_ctx(part: u32, l: NtfsLayout) -> FsCtx {
    FsCtx {
        fs: FsType::Ntfs,
        part1_lba: part,
        spc: l.spc,
        fat_start: 0,
        fat_len: 0,
        heap_start: part as u64,
        root_cluster: 0,
        mft_start_lba: l.mft_start_lba,
        sectors_per_cluster: l.spc,
        mft_record_size: l.mft_record_size,
    }
}

/// The filesystem context that a boot record gives rise to.
pub open spec fn spec_mount(part: u32, vbr: Seq<u8>) -> Result<FsCtx, MountError> {
    match bpb::spec_detect(vbr) {
        None => Err(MountError::UnknownFilesystem),
        Some(VolumeKind::Exfat) => match bpb::spec_exfat_layout(
            vbr,
            part as u64,
            MAX_CLUSTER_SHIFT,
        ) {
            None => Err(MountError::InvalidClusterShift),
            Some(l) => Ok(fat_ctx(FsType::Exfat, part, l)),
        },
        Some(VolumeKind::Fat32) => match bpb::spec_fat32_layout(vbr, part as u64) {
            None => Err(MountError::InvalidSectorsPerCluster),
            Some(l) => Ok(fat_ctx(FsType::Fat32, part, l)),
        },
        Some(VolumeKind::Ntfs) => match bpb::spec_ntfs_layout(
            vbr,
            part as u64,
            bpb::signed_byte(vbr, 0x40),
        ) {
            Err(NtfsFault::EmptyClusters) => Err(MountError::InvalidSectorsPerCluster),
            Err(NtfsFault::RecordSize) => Err(MountError::InvalidMftRecordSize),
            Ok(l) => Ok(ntfs_ctx(part, l)),
        },
    }
}

fn make_fat_ctx(fs: FsType, part: u32, l: FatLayout) -> (r: FsCtx)
    ensures
        r == fat_ctx(fs, part, l),
{
    FsCtx {
        fs,
        part1_lba: part,
        spc: l.spc,
        fat_start: l.fat_start,
        fat_len: l.fat_len,
        heap_start: l.heap_start,
        root_cluster: l.root_cluster,
        mft_start_lba: 0,
        sectors_per_cluster: 0,
        mft_record_size: 0,
    }
}

pub fn mount(part: u32, vbr: &[u8; 512]) -> (r: Result<FsCtx, MountError>)
    ensures
        r == spec_mount(part, vbr@),
{
    match bpb::detect(vbr) {
        None => Err(MountError::UnknownFilesystem),
        Some(VolumeKind::Exfat) => match bpb::exfat_layout(vbr, part as u64, MAX_CLUSTER_SHIFT) {
            None => Err(MountError::InvalidClusterShift),
            Some(l) => Ok(make_fat_ctx(FsType::Exfat, part, l)),
        },
        Some(VolumeKind::Fat32) => match bpb::fat32_layout(vbr, part as u64) {
            None => Err(MountError::InvalidSectorsPerCluster),
            Some(l) => Ok(make_fat_ctx(FsType::Fat32, part, l)),
        },
        Some(VolumeKind::Ntfs) => {
            match bpb::ntfs_layout(vbr, part as u64, bpb::read_signed_byte(vbr[0x40])) {
                Err(NtfsFault::EmptyClusters) => Err(MountError::InvalidSectorsPerCluster),
                Err(NtfsFault::RecordSize) => Err(MountError::InvalidMftRecordSize),
                Ok(l) => Ok(
                    FsCtx {
                        fs: FsType::Ntfs,
                        part1_lba: part,
                        spc: l.spc,
                        fat_start: 0,
                        fat_len: 0,
                        heap_start: part as u64,
                        root_cluster: 0,
                        mft_start_lba: l.mft_start_lba,
                        sectors_per_cluster: l.spc,
                        mft_record_size: l.mft_record_size,
                    },
                ),
            }
        },
    }
}

} // verus!
