//! Picking the disk and identifying its partitions.

use vstd::prelude::*;
use crate::bytes;
use crate::bytes::{le16, le32, le64};
use crate::efi::protocol::{Guid, GuidView};
use crate::gpt_search::{Search, SearchView};

verus! {

/// Which of the block devices is the whole disk. A device comes with its
/// logical-partition flag, or `None` where it has no usable medium.
#[verifier::loop_isolation(false)]
pub fn find_disk_handle(devices: &[Option<u8>]) -> (r: Option<usize>)
    ensures
        match r {
            Some(i) => {
                &&& i < devices@.len()
                &&& devices@[i as int] == Some(0u8)
                &&& forall|j: int| 0 <= j < i ==> devices@[j] != Some(0u8)
            },
            None => forall|j: int| 0 <= j < devices@.len() ==> devices@[j] != Some(0u8),
        },
{
    let mut i: usize = 0;
    while i < devices.len()
        invariant
            i <= devices@.len(),
            forall|j: int| 0 <= j < i ==> devices@[j] != Some(0u8),
        decreases devices@.len() - i,
    {
        if let Some(flag) = devices[i] {
            if flag == 0 {
                return Some(i);
            }
        }
        i += 1;
    }
    None
}

/// The GUID stored at byte `at`, in firmware form.
pub open spec fn guid_at(s: Seq<u8>, at: int) -> GuidView {
    GuidView {
        d1: bytes::spec_le32(s, at),
        d2: bytes::spec_le16(s, at + 4),
        d3: bytes::spec_le16(s, at + 6),
        d4: s.subrange(at + 8, at + 16),
    }
}

/// The unique GUID of the partition whose entry starts at `boff`.
pub fn read_partition_guid(sec: &[u8; 512], boff: usize) -> (r: Guid)
    requires
        boff + 32 <= 512,
    ensures
        r@ == guid_at(sec@, boff + 16),
{
    let mut d4: [u8; 8] = [0; 8];
    let s: &[u8] = sec;
    bytes::put(&mut d4, 0, &s[boff + 24..boff + 32]);
    assert(d4@ =~= sec@.subrange(boff + 24, boff + 32));
    Guid { d1: le32(s, boff + 16), d2: le16(s, boff + 20), d3: le16(s, boff + 22), d4 }
}

/// The GUID that stands for the partition of an MBR disk: the disk signature
/// at 0x1B8 and the partition number at 0x1BC.
pub open spec fn mbr_guid(mbr: Seq<u8>) -> GuidView {
    GuidView {
        d1: bytes::spec_le32(mbr, 440),
        d2: 0,
        d3: 0,
        d4: seq![0u8, 0, 0, 0, mbr[444], 0, 0, 0],
    }
}

pub fn read_mbr_guid(mbr: &[u8; 512]) -> (r: Guid)
    ensures
        r@ == mbr_guid(mbr@),
{
    let mut d4: [u8; 8] = [0; 8];
    d4[4] = mbr[444];
    assert(d4@ =~= seq![0u8, 0, 0, 0, mbr@[444], 0, 0, 0]);
    Guid { d1: le32(mbr, 440), d2: 0, d3: 0, d4 }
}

/// What a finished search for the data partition found: where the partition
/// starts, its GUID and its number, which counts table entries from 1.
pub fn find_gpt_data_partition(search: &Search) -> (r: Option<(u64, Guid, u32)>)
    requires
        search.wf(),
    ensures
        match (search@, r) {
            (SearchView::Found { index, at, sector }, Some((lba, guid, number))) => {
                &&& lba == bytes::spec_le64(sector, at + 32)
                &&& guid@ == guid_at(sector, at + 16)
                &&& number == index + 1
            },
            (SearchView::Found { .. }, None) => false,
            (_, r) => r is None,
        },
{
    match search {
        Search::Found { index, at, sector } => Some(
            (le64(sector, *at + 32), read_partition_guid(sector, *at), *index + 1),
        ),
        _ => None,
    }
}

/// What a finished search by start sector found: the partition's GUID and its
/// number, which counts table entries from 1.
pub fn find_partition_by_lba(search: &Search) -> (r: Option<(Guid, u32)>)
    requires
        search.wf(),
    ensures
        match (search@, r) {
            (SearchView::Found { index, at, sector }, Some((guid, number))) => {
                &&& guid@ == guid_at(sector, at + 16)
                &&& number == index + 1
            },
            (SearchView::Found { .. }, None) => false,
            (_, r) => r is None,
        },
{
    match search {
        Search::Found { index, at, sector } => Some(
            (read_partition_guid(sector, *at), *index + 1),
        ),
        _ => None,
    }
}

} // verus!
