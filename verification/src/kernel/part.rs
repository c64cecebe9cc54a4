//! The partitions of the boot disk, from its MBR or its GPT.

use vstd::prelude::*;
use crate::bytes;
use crate::bytes::{le32, le64, WORD};
use crate::gpt_search;
use crate::gpt_search::{Search, SearchView, Target};
use crate::scan::chain;
use crate::scan::dir::ScanAction;

verus! {

#[derive(Clone, Copy, PartialEq, Eq, Structural, Debug)]
pub struct Partition {
    pub start_lba: u32,
    pub sector_count: u32,
    pub fs_type: u8,
}

pub open spec fn no_partition() -> Partition {
    Partition { start_lba: 0, sector_count: 0, fs_type: 0 }
}

impl Default for Partition {
    fn default() -> (r: Self)
        ensures
            r == no_partition(),
    {
        Partition { start_lba: 0, sector_count: 0, fs_type: 0 }
    }
}

/// A GPT entry must have its first 48 bytes in one sector to be read.
pub const ENTRY_BYTES: usize = 48;

/// The type of a protective MBR entry.
pub const PROTECTIVE: u8 = 0xEE;

/// The type that a data partition of a GPT is given.
pub const DATA_TYPE: u8 = 0x07;

/// Entry `i` of the MBR in sector `s`.
pub open spec fn mbr_entry(s: Seq<u8>, i: int) -> Partition {
    Partition {
        start_lba: bytes::spec_le32(s, 446 + i * 16 + 8),
        sector_count: bytes::spec_le32(s, 446 + i * 16 + 12),
        fs_type: s[446 + i * 16 + 4],
    }
}

/// The entries of the MBR from `i` on that have sectors, in order.
pub open spec fn mbr_partitions(s: Seq<u8>, i: int) -> Seq<Partition>
    decreases 4 - i,
{
    if i >= 4 {
        Seq::empty()
    } else if mbr_entry(s, i).sector_count > 0 {
        seq![mbr_entry(s, i)] + mbr_partitions(s, i + 1)
    } else {
        mbr_partitions(s, i + 1)
    }
}

/// Whether the MBR only stands in for a GPT.
pub open spec fn is_protective(s: Seq<u8>) -> bool {
    exists|i: int| 0 <= i < 4 && #[trigger] mbr_entry(s, i).fs_type == PROTECTIVE
}

/// The partition that the GPT entry at byte `at` of a sector describes, if it
/// has any sectors.
pub open spec fn gpt_partitions(s: Seq<u8>, at: int) -> Seq<Partition> {
    let start = bytes::spec_le64(s, at + 32);
    let end = chain::wrap64(bytes::spec_le64(s, at + 40) + 1);
    if end > start {
        seq![
            Partition {
                start_lba: (start as int % 0x1_0000_0000) as u32,
                sector_count: ((end - start) % 0x1_0000_0000) as u32,
                fs_type: DATA_TYPE,
            },
        ]
    } else {
        Seq::empty()
    }
}

/// How far the partitions have been read.
#[derive(Clone, Copy)]
pub enum PartitionRead {
    Mbr,
    Gpt(Search),
    Done { parts: [Partition; 4], count: usize },
}

pub enum PartitionReadView {
    Mbr,
    Gpt(SearchView),
    Done(Seq<Partition>),
}

impl View for PartitionRead {
    type V = PartitionReadView;

    open spec fn view(&self) -> PartitionReadView {
        match *self {
            PartitionRead::Mbr => PartitionReadView::Mbr,
            PartitionRead::Gpt(s) => PartitionReadView::Gpt(s@),
            PartitionRead::Done { parts, count } => PartitionReadView::Done(
                parts@.subrange(0, count as int),
            ),
        }
    }
}

/// What is known once a search of the GPT has come this far.
pub open spec fn gpt_settled(search: SearchView) -> PartitionReadView {
    match search {
        SearchView::Found { at, sector, .. } => PartitionReadView::Done(
            gpt_partitions(sector, at),
        ),
        SearchView::Absent => PartitionReadView::Done(Seq::empty()),
        _ => PartitionReadView::Gpt(search),
    }
}

pub open spec fn read_wanted(read: PartitionReadView) -> ScanAction {
    match read {
        PartitionReadView::Mbr => ScanAction::ReadSector(0),
        PartitionReadView::Gpt(s) => gpt_search::search_wanted(s),
        PartitionReadView::Done(_) => ScanAction::Done,
    }
}

/// The state after the sector that was wanted is at hand, or `None` where it
/// cannot be read.
pub open spec fn read_next(
    read: PartitionReadView,
    sector: Option<Seq<u8>>,
) -> PartitionReadView {
    match read {
        PartitionReadView::Mbr => match sector {
            None => PartitionReadView::Done(Seq::empty()),
            Some(s) => if is_protective(s) {
                PartitionReadView::Gpt(SearchView::Header { needed: ENTRY_BYTES as int })
            } else {
                PartitionReadView::Done(mbr_partitions(s, 0))
            },
        },
        PartitionReadView::Gpt(search) => gpt_settled(
            gpt_search::search_next(Target::BasicData, search, sector),
        ),
        PartitionReadView::Done(_) => read,
    }
}

fn entry_of(s: &[u8], i: usize) -> (r: Partition)
    requires
        s@.len() == 512,
        i < 4,
    ensures
        r == mbr_entry(s@, i as int),
{
    let off: usize = 446 + i * 16;
    Partition {
        start_lba: le32(s, off + 8),
        sector_count: le32(s, off + 12),
        fs_type: s[off + 4],
    }
}

fn protective(s: &[u8]) -> (r: bool)
    requires
        s@.len() == 512,
    ensures
        r == is_protective(s@),
{
    let mut i: usize = 0;
    while i < 4
        invariant
            s@.len() == 512,
            i <= 4,
            forall|j: int| 0 <= j < i ==> (#[trigger] mbr_entry(s@, j)).fs_type != PROTECTIVE,
        decreases 4 - i,
    {
        if entry_of(s, i).fs_type == PROTECTIVE {
            assert(mbr_entry(s@, i as int).fs_type == PROTECTIVE);
            return true;
        }
        i += 1;
    }
    false
}

proof fn mbr_partitions_len(s: Seq<u8>, i: int)
    requires
        0 <= i <= 4,
    ensures
        mbr_partitions(s, i).len() <= 4 - i,
    decreases 4 - i,
{
    if i < 4 {
        mbr_partitions_len(s, i + 1);
    }
}

/// Whether the places past `count` are unused.
pub open spec fn padded(parts: Seq<Partition>, count: int) -> bool {
    forall|i: int| count <= i < parts.len() ==> #[trigger] parts[i] == no_partition()
}

#[verifier::loop_isolation(false)]
fn from_mbr(s: &[u8]) -> (r: ([Partition; 4], usize))
    requires
        s@.len() == 512,
    ensures
        r.1 <= 4,
        r.0@.subrange(0, r.1 as int) == mbr_partitions(s@, 0),
        padded(r.0@, r.1 as int),
{
    let none: Partition = Partition::default();
    let mut parts: [Partition; 4] = [none, none, none, none];
    let mut count: usize = 0;
    let mut i: usize = 0;
    assert(parts@.subrange(0, 0) + mbr_partitions(s@, 0) =~= mbr_partitions(s@, 0));
    while i < 4
        invariant
            i <= 4,
            count <= i,
            parts@.subrange(0, count as int) + mbr_partitions(s@, i as int) == mbr_partitions(
                s@,
                0,
            ),
            padded(parts@, count as int),
        decreases 4 - i,
    {
        let p: Partition = entry_of(s, i);
        if p.sector_count > 0 {
            let ghost before = parts@;
            parts[count] = p;
            assert(parts@.subrange(0, count + 1) =~= before.subrange(0, count as int).push(p));
            assert(before.subrange(0, count as int) + (seq![p] + mbr_partitions(s@, i + 1))
                =~= parts@.subrange(0, count + 1) + mbr_partitions(s@, i + 1));
            count += 1;
        }
        i += 1;
    }
    assert(parts@.subrange(0, count as int) + mbr_partitions(s@, 4) =~= parts@.subrange(
        0,
        count as int,
    ));
    (parts, count)
}

fn from_gpt_entry(s: &[u8], at: usize) -> (r: ([Partition; 4], usize))
    requires
        s@.len() == 512,
        at + 48 <= 512,
    ensures
        r.1 <= 4,
        r.0@.subrange(0, r.1 as int) == gpt_partitions(s@, at as int),
        padded(r.0@, r.1 as int),
{
    let none: Partition = Partition::default();
    let mut parts: [Partition; 4] = [none, none, none, none];
    let start: u64 = le64(s, at + 32);
    let end: u64 = ((le64(s, at + 40) as u128 + 1) % WORD) as u64;
    if end > start {
        parts[0] = Partition {
            start_lba: (start % 0x1_0000_0000) as u32,
            sector_count: ((end - start) % 0x1_0000_0000) as u32,
            fs_type: DATA_TYPE,
        };
        assert(parts@.subrange(0, 1) =~= gpt_partitions(s@, at as int));
        return (parts, 1);
    }
    assert(parts@.subrange(0, 0) =~= gpt_partitions(s@, at as int));
    (parts, 0)
}

impl PartitionRead {
    pub open spec fn wf(&self) -> bool {
        match *self {
            PartitionRead::Mbr => true,
            PartitionRead::Gpt(s) => s.wf() && s.holds(ENTRY_BYTES as int),
            PartitionRead::Done { parts, count } => count <= 4 && padded(parts@, count as int),
        }
    }

    pub fn wanted(&self) -> (r: ScanAction)
        requires
            self.wf(),
        ensures
            r == read_wanted(self@),
    {
        match self {
            PartitionRead::Mbr => ScanAction::ReadSector(0),
            PartitionRead::Gpt(s) => s.wanted(),
            PartitionRead::Done { .. } => ScanAction::Done,
        }
    }

    fn settle(search: Search) -> (r: Self)
        requires
            search.wf(),
            search.holds(ENTRY_BYTES as int),
        ensures
            r.wf(),
            r@ == gpt_settled(search@),
    {
        match search {
            Search::Found { at, sector, .. } => {
                let (parts, count) = from_gpt_entry(&sector, at);
                PartitionRead::Done { parts, count }
            },
            Search::Absent => {
                let none: Partition = Partition::default();
                let parts: [Partition; 4] = [none, none, none, none];
                assert(parts@.subrange(0, 0) =~= Seq::empty());
                PartitionRead::Done { parts, count: 0 }
            },
            other => PartitionRead::Gpt(other),
        }
    }

    /// Takes in the sector that was wanted, or `None` where it cannot be read.
    /// `Done` holds the partitions and how many there are.
    pub fn read_partitions(&mut self, sector: Option<&[u8; 512]>)
        requires
            old(self).wf(),
        ensures
            final(self).wf(),
            final(self)@ == read_next(old(self)@, chain::opt_view(sector)),
    {
        let next: PartitionRead = match *self {
            PartitionRead::Mbr => match sector {
                None => PartitionRead::settle(Search::Absent),
                Some(sector) => {
                    let s: &[u8] = sector;
                    if protective(s) {
                        PartitionRead::Gpt(Search::start(ENTRY_BYTES))
                    } else {
                        let (parts, count) = from_mbr(s);
                        PartitionRead::Done { parts, count }
                    }
                },
            },
            PartitionRead::Gpt(search) => {
                let mut search: Search = search;
                search.supply(Target::BasicData, sector);
                PartitionRead::settle(search)
            },
            PartitionRead::Done { parts, count } => PartitionRead::Done { parts, count },
        };
        *self = next;
    }
}

proof fn mbr_partitions_have_sectors(s: Seq<u8>, i: int)
    ensures
        forall|k: int|
            0 <= k < mbr_partitions(s, i).len() ==> (#[trigger] mbr_partitions(
                s,
                i,
            )[k]).sector_count > 0,
    decreases 4 - i,
{
    if i < 4 {
        mbr_partitions_have_sectors(s, i + 1);
        let rest = mbr_partitions(s, i + 1);
        assert forall|k: int| 0 <= k < mbr_partitions(s, i).len() implies (#[trigger] mbr_partitions(
            s,
            i,
        )[k]).sector_count > 0 by {
            if mbr_entry(s, i).sector_count > 0 && k > 0 {
                assert(mbr_partitions(s, i)[k] == rest[k - 1]);
            }
        }
    }
}

/// No partition that an MBR yields is empty, and it yields at most four.
pub proof fn mbr_lists_used_entries(s: Seq<u8>)
    ensures
        mbr_partitions(s, 0).len() <= 4,
        forall|k: int|
            0 <= k < mbr_partitions(s, 0).len() ==> (#[trigger] mbr_partitions(
                s,
                0,
            )[k]).sector_count > 0,
{
    mbr_partitions_len(s, 0);
    mbr_partitions_have_sectors(s, 0);
}

} // verus!
