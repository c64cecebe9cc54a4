//! Volume boot records: which filesystem a partition holds and how it is laid
//! out.

use vstd::prelude::*;
use crate::bytes;
use crate::bytes::{bytes_eq, le16, le32, le64, WORD};
use crate::scan::chain;
use crate::scan::dir::VolumeKind;

verus! {

/// Placement of a FAT-style volume.
#[derive(Clone, Copy, PartialEq, Eq, Structural, Debug)]
pub struct FatLayout {
    pub spc: u32,
    pub fat_start: u64,
    pub fat_len: u64,
    pub heap_start: u64,
    pub root_cluster: u32,
}

/// Placement of an NTFS volume.
#[derive(Clone, Copy, PartialEq, Eq, Structural, Debug)]
pub struct NtfsLayout {
    pub spc: u32,
    pub mft_start_lba: u64,
    pub mft_record_size: u64,
}

pub open spec fn pow2(n: nat) -> nat
    decreases n,
{
    if n == 0 {
        1
    } else {
        2 * pow2((n - 1) as nat)
    }
}

/// The filesystem that a boot record announces.
pub open spec fn spec_detect(vbr: Seq<u8>) -> Option<VolumeKind> {
    if vbr.subrange(3, 11) == bytes::text("EXFAT   ") {
        Some(VolumeKind::Exfat)
    } else if vbr.subrange(3, 11) == bytes::text("NTFS    ") {
        Some(VolumeKind::Ntfs)
    } else if vbr.subrange(0x52, 0x5A) == bytes::text("FAT32   ") {
        Some(VolumeKind::Fat32)
    } else {
        None
    }
}

/// The layout of an exFAT volume at `part`, unless its cluster shift exceeds
/// `max_shift`. Cluster sizes are 32-bit byte counts.
pub open spec fn spec_exfat_layout(vbr: Seq<u8>, part: u64, max_shift: u8) -> Option<FatLayout> {
    if vbr[109] > max_shift {
        None
    } else {
        Some(
            FatLayout {
                spc: (pow2(vbr[109] as nat) * 512 % 0x1_0000_0000 / 512) as u32,
                fat_start: chain::wrap64(part + bytes::spec_le32(vbr, 80)),
                fat_len: bytes::spec_le32(vbr, 84) as u64,
                heap_start: chain::wrap64(part + bytes::spec_le32(vbr, 88)),
                root_cluster: bytes::spec_le32(vbr, 96),
            },
        )
    }
}

/// The layout of a FAT32 volume at `part`, unless its clusters are empty.
pub open spec fn spec_fat32_layout(vbr: Seq<u8>, part: u64) -> Option<FatLayout> {
    let fat_start = chain::wrap64(part + bytes::spec_le16(vbr, 14));
    if vbr[13] == 0 {
        None
    } else {
        Some(
            FatLayout {
                spc: vbr[13] as u32,
                fat_start,
                fat_len: bytes::spec_le32(vbr, 36) as u64,
                heap_start: chain::wrap64(fat_start + vbr[16] * bytes::spec_le32(vbr, 36)),
                root_cluster: bytes::spec_le32(vbr, 44),
            },
        )
    }
}

/// The size of a file record: a count of clusters, or the negated logarithm of
/// a byte count.
pub open spec fn record_size(c: int, cluster_bytes: int) -> int {
    if c > 0 {
        c * cluster_bytes
    } else {
        pow2((-c) as nat) as int
    }
}

/// The layout of an NTFS volume at `part` with file records of size code `c`.
/// The clusters must not be empty, nor records longer than 4096 bytes.
pub open spec fn spec_ntfs_layout(vbr: Seq<u8>, part: u64, c: int) -> Result<
    NtfsLayout,
    NtfsFault,
> {
    let size = record_size(c, vbr[13] * 512);
    if vbr[13] == 0 {
        Err(NtfsFault::EmptyClusters)
    } else if size > 4096 {
        Err(NtfsFault::RecordSize)
    } else {
        Ok(
            NtfsLayout {
                spc: vbr[13] as u32,
                mft_start_lba: chain::wrap64(part + bytes::spec_le64(vbr, 0x30) * vbr[13]),
                mft_record_size: size as u64,
            },
        )
    }
}

#[derive(Clone, Copy, PartialEq, Eq, Structural, Debug)]
pub enum NtfsFault {
    EmptyClusters,
    RecordSize,
}

proof fn pow2_grows(a: nat, b: nat)
    requires
        a <= b,
    ensures
        0 < pow2(a) <= pow2(b),
    decreases b,
{
    if a < b {
        pow2_grows(a, (b - 1) as nat);
    } else if b > 0 {
        pow2_grows((b - 1) as nat, (b - 1) as nat);
    }
}

proof fn pow2_values()
    ensures
        pow2(12) == 4096,
        pow2(13) == 8192,
        pow2(24) == 16777216,
{
    reveal_with_fuel(pow2, 14);
    assert(pow2(24) == 4096 * pow2(12)) by {
        reveal_with_fuel(pow2, 14);
    }
}

fn power_of_two(n: u32) -> (r: u64)
    requires
        n <= 24,
    ensures
        r == pow2(n as nat),
        r <= 16777216,
{
    let mut r: u64 = 1;
    let mut i: u32 = 0;
    while i < n
        invariant
            i <= n <= 24,
            r == pow2(i as nat),
        decreases n - i,
    {
        proof {
            pow2_grows((i + 1) as nat, 24);
            pow2_values();
        }
        r = 2 * r;
        i += 1;
    }
    proof {
        pow2_grows(n as nat, 24);
        pow2_values();
    }
    r
}

fn add_wrapping(a: u64, b: u64) -> (r: u64)
    ensures
        r == chain::wrap64(a + b),
{
    ((a as u128 + b as u128) % WORD) as u64
}

pub fn detect(vbr: &[u8; 512]) -> (r: Option<VolumeKind>)
    ensures
        r == spec_detect(vbr@),
{
    let s: &[u8] = vbr;
    if bytes_eq(&s[3..11], "EXFAT   ".as_bytes()) {
        Some(VolumeKind::Exfat)
    } else if bytes_eq(&s[3..11], "NTFS    ".as_bytes()) {
        Some(VolumeKind::Ntfs)
    } else if bytes_eq(&s[0x52..0x5A], "FAT32   ".as_bytes()) {
        Some(VolumeKind::Fat32)
    } else {
        None
    }
}

pub fn exfat_layout(vbr: &[u8; 512], part: u64, max_shift: u8) -> (r: Option<FatLayout>)
    requires
        max_shift <= 24,
    ensures
        r == spec_exfat_layout(vbr@, part, max_shift),
{
    if vbr[109] > max_shift {
        return None;
    }
    let cluster_bytes: u64 = power_of_two(vbr[109] as u32) * 512 % 0x1_0000_0000;
    Some(
        FatLayout {
            spc: (cluster_bytes / 512) as u32,
            fat_start: add_wrapping(part, le32(vbr, 80) as u64),
            fat_len: le32(vbr, 84) as u64,
            heap_start: add_wrapping(part, le32(vbr, 88) as u64),
            root_cluster: le32(vbr, 96),
        },
    )
}

pub fn fat32_layout(vbr: &[u8; 512], part: u64) -> (r: Option<FatLayout>)
    ensures
        r == spec_fat32_layout(vbr@, part),
{
    if vbr[13] == 0 {
        return None;
    }
    let fat_start: u64 = add_wrapping(part, le16(vbr, 14) as u64);
    let fats: u64 = vbr[16] as u64;
    let len: u64 = le32(vbr, 36) as u64;
    assert(0 <= fats * len <= 255 * 0xFFFF_FFFFu32) by (nonlinear_arith)
        requires
            fats <= 255,
            len <= 0xFFFF_FFFFu32,
    ;
    Some(
        FatLayout {
            spc: vbr[13] as u32,
            fat_start,
            fat_len: len,
            heap_start: add_wrapping(fat_start, fats * len),
            root_cluster: le32(vbr, 44),
        },
    )
}

pub fn ntfs_layout(vbr: &[u8; 512], part: u64, c: i32) -> (r: Result<NtfsLayout, NtfsFault>)
    ensures
        r == spec_ntfs_layout(vbr@, part, c as int),
{
    if vbr[13] == 0 {
        return Err(NtfsFault::EmptyClusters);
    }
    let spc: u64 = vbr[13] as u64;
    let size: u64 = if c > 0 {
        assert(0 <= c * (spc * 512) <= 0x7FFF_FFFF * 130560) by (nonlinear_arith)
            requires
                0 < c <= 0x7FFF_FFFF,
                spc <= 255,
        ;
        c as u64 * (spc * 512)
    } else if c >= -12 {
        power_of_two((-c) as u32)
    } else {
        proof {
            pow2_grows(13, (-c) as nat);
            pow2_values();
        }
        return Err(NtfsFault::RecordSize);
    };
    if size > 4096 {
        return Err(NtfsFault::RecordSize);
    }
    let lcn: u64 = le64(vbr, 0x30);
    assert(0 <= lcn * spc <= 0xFFFF_FFFF_FFFF_FFFFu64 * 255) by (nonlinear_arith)
        requires
            spc <= 255,
            lcn <= 0xFFFF_FFFF_FFFF_FFFFu64,
    ;
    Ok(
        NtfsLayout {
            spc: vbr[13] as u32,
            mft_start_lba: ((part as u128 + lcn as u128 * spc as u128) % WORD) as u64,
            mft_record_size: size,
        },
    )
}

/// A layout is only given for file records that fit the record buffer.
pub proof fn ntfs_records_fit(vbr: Seq<u8>, part: u64, c: int)
    ensures
        spec_ntfs_layout(vbr, part, c) matches Ok(l) ==> 1 <= l.mft_record_size <= 4096 && l.spc > 0,
{
    if c <= 0 {
        pow2_grows(0, (-c) as nat);
    } else if vbr[13] > 0 {
        assert(c * (vbr[13] * 512) >= 1) by (nonlinear_arith)
            requires
                c >= 1,
                vbr[13] >= 1,
        ;
    }
}

/// The signed byte at `at`.
pub open spec fn signed_byte(s: Seq<u8>, at: int) -> int {
    if s[at] < 128 {
        s[at] as int
    } else {
        s[at] - 256
    }
}

pub fn read_signed_byte(b: u8) -> (r: i32)
    ensures
        r == signed_byte(seq![b], 0),
{
    if b < 128 {
        b as i32
    } else {
        b as i32 - 256
    }
}

} // verus!
