//! Walking a chain of clusters through a file allocation table, one sector at
//! a time.

use vstd::prelude::*;
use crate::bytes;
use crate::bytes::{le32, WORD};

verus! {

/// Which end-of-chain convention the allocation table follows.
#[derive(Clone, Copy, PartialEq, Eq, Structural, Debug)]
pub enum ChainKind {
    Exfat,
    Fat32,
}

/// The next sector a walk is waiting for: sector `sector` of the data of
/// `cluster`, or the table sector that links `cluster` to its successor.
#[derive(Clone, Copy, PartialEq, Eq, Structural, Debug)]
pub enum ChainPos {
    Data { cluster: u32, sector: u32 },
    Link { cluster: u32 },
}

/// Placement of clusters on the disk. Addresses are 64-bit words and wrap.
#[derive(Clone, Copy, PartialEq, Eq, Structural, Debug)]
pub struct Geometry {
    pub heap_start: u64,
    pub fat_start: u64,
    pub spc: u32,
}

/// `x` reduced to a 64-bit word.
pub open spec fn wrap64(x: int) -> u64 {
    (x % (WORD as int)) as u64
}

/// The sector `sector` of cluster `cluster`; data clusters are numbered from 2.
pub open spec fn spec_cluster_lba(g: Geometry, cluster: u32, sector: u32) -> u64 {
    wrap64(g.heap_start + wrap64(cluster - 2) * g.spc + sector)
}

/// The table sector that holds the 4-byte link of `cluster`.
pub open spec fn spec_fat_lba(fat_start: u64, cluster: u32) -> u64 {
    wrap64(fat_start + cluster as int * 4 / 512)
}

/// The link of `cluster` in its table sector; all ones where it cannot be read.
pub open spec fn spec_fat_entry(sector: Option<Seq<u8>>, cluster: u32) -> u32 {
    match sector {
        None => 0xFFFF_FFFFu32,
        Some(s) => bytes::spec_le32(s, cluster as int * 4 % 512),
    }
}

/// The successor that a link names, if the chain goes on.
pub open spec fn spec_next_cluster(kind: ChainKind, entry: u32) -> Option<u32> {
    match kind {
        ChainKind::Exfat => if entry < 2 || entry >= 0xFFFF_FFF8 {
            None
        } else {
            Some(entry)
        },
        ChainKind::Fat32 => {
            let low = (entry % 0x1000_0000) as u32;
            if low < 2 || low >= 0x0FFF_FFF0 {
                None
            } else {
                Some(low)
            }
        },
    }
}

/// Where a walk stands on entering `cluster`.
pub open spec fn spec_enter(g: Geometry, cluster: u32) -> ChainPos {
    if g.spc == 0 {
        ChainPos::Link { cluster }
    } else {
        ChainPos::Data { cluster, sector: 0 }
    }
}

/// Where a walk stands once it has read sector `sector` of `cluster`.
pub open spec fn spec_after_data(g: Geometry, cluster: u32, sector: u32) -> ChainPos {
    if sector + 1 < g.spc {
        ChainPos::Data { cluster, sector: (sector + 1) as u32 }
    } else {
        ChainPos::Link { cluster }
    }
}

/// The sector that a walk at `pos` waits for.
pub open spec fn spec_wanted(g: Geometry, pos: ChainPos) -> u64 {
    match pos {
        ChainPos::Data { cluster, sector } => spec_cluster_lba(g, cluster, sector),
        ChainPos::Link { cluster } => spec_fat_lba(g.fat_start, cluster),
    }
}

pub fn cluster_lba(g: &Geometry, cluster: u32, sector: u32) -> (r: u64)
    ensures
        r == spec_cluster_lba(*g, cluster, sector),
{
    let index: u128 = (cluster as u128 + WORD - 2) % WORD;
    assert(index == wrap64(cluster - 2)) by {
        if cluster >= 2 {
            assert(index == cluster - 2);
        }
    }
    assert(index * g.spc <= 0xFFFF_FFFF_FFFF_FFFFu64 * 0xFFFF_FFFFu32) by (nonlinear_arith)
        requires
            index <= 0xFFFF_FFFF_FFFF_FFFFu64,
            g.spc <= 0xFFFF_FFFFu32,
    ;
    assert(0 <= index * g.spc) by (nonlinear_arith);
    ((g.heap_start as u128 + index * g.spc as u128 + sector as u128) % WORD) as u64
}

pub fn fat_lba(fat_start: u64, cluster: u32) -> (r: u64)
    ensures
        r == spec_fat_lba(fat_start, cluster),
{
    ((fat_start as u128 + cluster as u128 * 4 / 512) % WORD) as u64
}

/// Reads the link of `cluster` out of its table sector.
pub fn read_fat_entry(sector: Option<&[u8; 512]>, cluster: u32) -> (r: u32)
    ensures
        r == spec_fat_entry(opt_view(sector), cluster),
{
    match sector {
        None => 0xFFFF_FFFF,
        Some(s) => le32(s, (cluster as u64 * 4 % 512) as usize),
    }
}

pub open spec fn opt_view(sector: Option<&[u8; 512]>) -> Option<Seq<u8>> {
    match sector {
        None => None,
        Some(s) => Some(s@),
    }
}

pub fn exfat_next_cluster(sector: Option<&[u8; 512]>, cluster: u32) -> (r: Option<u32>)
    ensures
        r == spec_next_cluster(ChainKind::Exfat, spec_fat_entry(opt_view(sector), cluster)),
{
    let entry: u32 = read_fat_entry(sector, cluster);
    if entry < 2 || entry >= 0xFFFF_FFF8 {
        None
    } else {
        Some(entry)
    }
}

pub fn fat32_next_cluster(sector: Option<&[u8; 512]>, cluster: u32) -> (r: Option<u32>)
    ensures
        r == spec_next_cluster(ChainKind::Fat32, spec_fat_entry(opt_view(sector), cluster)),
{
    let low: u32 = read_fat_entry(sector, cluster) % 0x1000_0000;
    if low < 2 || low >= 0x0FFF_FFF0 {
        None
    } else {
        Some(low)
    }
}

pub fn enter(g: &Geometry, cluster: u32) -> (r: ChainPos)
    ensures
        r == spec_enter(*g, cluster),
{
    if g.spc == 0 {
        ChainPos::Link { cluster }
    } else {
        ChainPos::Data { cluster, sector: 0 }
    }
}

pub fn after_data(g: &Geometry, cluster: u32, sector: u32) -> (r: ChainPos)
    ensures
        r == spec_after_data(*g, cluster, sector),
{
    if (sector as u64) + 1 < g.spc as u64 {
        ChainPos::Data { cluster, sector: sector + 1 }
    } else {
        ChainPos::Link { cluster }
    }
}

pub fn wanted(g: &Geometry, pos: &ChainPos) -> (r: u64)
    ensures
        r == spec_wanted(*g, *pos),
{
    match *pos {
        ChainPos::Data { cluster, sector } => cluster_lba(g, cluster, sector),
        ChainPos::Link { cluster } => fat_lba(g.fat_start, cluster),
    }
}

/// Inside a volume whose clusters fit below 2^64 sectors no address wraps.
pub proof fn cluster_lba_exact(g: Geometry, cluster: u32, sector: u32)
    requires
        cluster >= 2,
        g.heap_start + (cluster - 2) * g.spc + sector <= u64::MAX,
    ensures
        spec_cluster_lba(g, cluster, sector) == g.heap_start + (cluster - 2) * g.spc + sector,
{
    assert((cluster - 2) * g.spc >= 0) by (nonlinear_arith)
        requires
            cluster >= 2,
    ;
}

} // verus!
