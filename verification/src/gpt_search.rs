//! Looking up one entry of a GPT partition table, sector by sector.

use vstd::prelude::*;
use crate::bytes;
use crate::bytes::{bytes_eq, le32, le64, WORD};
use crate::scan::chain;
use crate::scan::dir::ScanAction;

verus! {

/// The type GUID of basic data partitions, as stored on disk.
pub const BASIC_DATA: [u8; 16] = [
    0xA2, 0xA0, 0xD0, 0xEB, 0xE5, 0xB9, 0x33, 0x44,
    0x87, 0xC0, 0x68, 0xB6, 0xB7, 0x26, 0x99, 0xC7,
];

/// At most this many entries are looked at.
pub const MAX_ENTRIES: u32 = 128;

/// Which entry is looked for: the first one of basic data, or the first one in
/// use that starts at a given sector.
#[derive(Clone, Copy, PartialEq, Eq, Structural, Debug)]
pub enum Target {
    BasicData,
    StartLba(u64),
}

/// A partition table as its header describes it, and how many bytes of an
/// entry must lie within one sector for the entry to be looked at.
#[derive(Clone, Copy, PartialEq, Eq, Structural, Debug)]
pub struct Table {
    pub entries_lba: u64,
    pub count: u32,
    pub entry_size: u32,
    pub needed: usize,
}

/// How far a search has got. `Entry` waits for the sector of entry `index`;
/// `Found` has entry `index` at byte `at` of its sector.
#[derive(Clone, Copy)]
pub enum Search {
    Header { needed: usize },
    Entry { table: Table, index: u32 },
    Found { index: u32, at: usize, sector: [u8; 512] },
    Absent,
}

pub enum SearchView {
    Header { needed: int },
    Entry { table: Table, index: u32 },
    Found { index: u32, at: int, sector: Seq<u8> },
    Absent,
}

impl View for Search {
    type V = SearchView;

    open spec fn view(&self) -> SearchView {
        match *self {
            Search::Header { needed } => SearchView::Header { needed: needed as int },
            Search::Entry { table, index } => SearchView::Entry { table, index },
            Search::Found { index, at, sector } => SearchView::Found {
                index,
                at: at as int,
                sector: sector@,
            },
            Search::Absent => SearchView::Absent,
        }
    }
}

/// The byte at which entry `index` starts within its sector.
pub open spec fn entry_at(t: Table, index: int) -> int {
    index * t.entry_size % 512
}

/// The sector that entry `index` starts in.
pub open spec fn entry_lba(t: Table, index: int) -> u64 {
    chain::wrap64(t.entries_lba + index * t.entry_size / 512)
}

pub open spec fn readable(t: Table, index: int) -> bool {
    entry_at(t, index) + t.needed <= 512
}

/// Whether the entry at byte `at` of a sector is the one looked for.
pub open spec fn is_target(target: Target, s: Seq<u8>, at: int) -> bool {
    let kind = s.subrange(at, at + 16);
    kind != bytes::zeros(16) && match target {
        Target::BasicData => kind == BASIC_DATA@,
        Target::StartLba(lba) => bytes::spec_le64(s, at + 32) == lba,
    }
}

/// The search from entry `index` on, before its sector is at hand.
pub open spec fn seek(t: Table, index: int) -> SearchView
    decreases t.count - index,
{
    if index >= t.count {
        SearchView::Absent
    } else if readable(t, index) {
        SearchView::Entry { table: t, index: index as u32 }
    } else {
        seek(t, index + 1)
    }
}

/// The search from entry `index` on, with sector `lba` at hand.
pub open spec fn examine(
    target: Target,
    t: Table,
    index: int,
    lba: u64,
    s: Seq<u8>,
) -> SearchView
    decreases t.count - index,
{
    if index >= t.count {
        SearchView::Absent
    } else if !readable(t, index) {
        examine(target, t, index + 1, lba, s)
    } else if entry_lba(t, index) != lba {
        SearchView::Entry { table: t, index: index as u32 }
    } else if is_target(target, s, entry_at(t, index)) {
        SearchView::Found { index: index as u32, at: entry_at(t, index), sector: s }
    } else {
        examine(target, t, index + 1, lba, s)
    }
}

/// The table that the header sector `s` describes, if it describes one.
pub open spec fn header_table(s: Seq<u8>, needed: int) -> Option<Table> {
    let n = bytes::spec_le32(s, 80);
    let size = bytes::spec_le32(s, 84);
    if s.subrange(0, 8) != bytes::text("EFI PART") || n == 0 || size == 0 {
        None
    } else {
        Some(
            Table {
                entries_lba: bytes::spec_le64(s, 72),
                count: if n < MAX_ENTRIES {
                    n
                } else {
                    MAX_ENTRIES
                },
                entry_size: size,
                needed: needed as usize,
            },
        )
    }
}

pub open spec fn search_wanted(search: SearchView) -> ScanAction {
    match search {
        SearchView::Header { .. } => ScanAction::ReadSector(1),
        SearchView::Entry { table, index } => ScanAction::ReadSector(
            entry_lba(table, index as int),
        ),
        _ => ScanAction::Done,
    }
}

/// The search after it was handed the sector it wanted, or `None` where that
/// sector cannot be read.
pub open spec fn search_next(
    target: Target,
    search: SearchView,
    sector: Option<Seq<u8>>,
) -> SearchView {
    match (search, sector) {
        (SearchView::Header { needed }, Some(s)) => match header_table(s, needed) {
            None => SearchView::Absent,
            Some(t) => seek(t, 0),
        },
        (SearchView::Entry { table, index }, Some(s)) => examine(
            target,
            table,
            index as int,
            entry_lba(table, index as int),
            s,
        ),
        (SearchView::Found { .. }, _) => search,
        _ => SearchView::Absent,
    }
}

fn offset_of(t: &Table, index: u32) -> (r: u64)
    requires
        index < MAX_ENTRIES,
    ensures
        r == index * t.entry_size,
        r <= 127 * 0xFFFF_FFFFu32,
{
    assert(0 <= index * t.entry_size <= 127 * 0xFFFF_FFFFu32) by (nonlinear_arith)
        requires
            index <= 127,
            t.entry_size <= 0xFFFF_FFFFu32,
    ;
    index as u64 * t.entry_size as u64
}

fn lba_of(t: &Table, index: u32) -> (r: u64)
    requires
        index < MAX_ENTRIES,
    ensures
        r == entry_lba(*t, index as int),
{
    ((t.entries_lba as u128 + (offset_of(t, index) / 512) as u128) % WORD) as u64
}

fn matches_target(target: Target, s: &[u8; 512], at: usize) -> (r: bool)
    requires
        at + 40 <= 512,
    ensures
        r == is_target(target, s@, at as int),
{
    let s: &[u8] = s;
    let kind: &[u8] = &s[at..at + 16];
    let zero: [u8; 16] = [0; 16];
    assert(zero@ =~= bytes::zeros(16));
    if bytes_eq(kind, &zero) {
        return false;
    }
    match target {
        Target::BasicData => bytes_eq(kind, &BASIC_DATA),
        Target::StartLba(lba) => le64(s, at + 32) == lba,
    }
}

impl Search {
    pub open spec fn wf(&self) -> bool {
        match *self {
            Search::Header { needed } => 40 <= needed <= 512,
            Search::Entry { table, index } => {
                &&& table.count <= MAX_ENTRIES
                &&& index < table.count
                &&& 40 <= table.needed <= 512
                &&& readable(table, index as int)
            },
            Search::Found { index, at, .. } => index < MAX_ENTRIES && at + 40 <= 512,
            Search::Absent => true,
        }
    }

    /// Whether the first `n` bytes of what is found lie within the sector.
    pub open spec fn holds(&self, n: int) -> bool {
        match *self {
            Search::Header { needed } => needed >= n,
            Search::Entry { table, .. } => table.needed >= n,
            Search::Found { at, .. } => at + n <= 512,
            Search::Absent => true,
        }
    }

    /// A search of entries of which the first `needed` bytes must lie within
    /// one sector.
    pub fn start(needed: usize) -> (r: Search)
        requires
            40 <= needed <= 512,
        ensures
            r.wf(),
            r.holds(needed as int),
            r@ == (SearchView::Header { needed: needed as int }),
    {
        Search::Header { needed }
    }

    pub fn wanted(&self) -> (r: ScanAction)
        requires
            self.wf(),
        ensures
            r == search_wanted(self@),
    {
        match self {
            Search::Header { .. } => ScanAction::ReadSector(1),
            Search::Entry { table, index } => ScanAction::ReadSector(lba_of(table, *index)),
            _ => ScanAction::Done,
        }
    }

    #[verifier::loop_isolation(false)]
    fn seek_from_start(t: Table) -> (r: Search)
        requires
            t.count <= MAX_ENTRIES,
            40 <= t.needed <= 512,
        ensures
            r.wf(),
            r.holds(t.needed as int),
            r@ == seek(t, 0),
    {
        let mut index: u32 = 0;
        while index < t.count
            invariant
                index <= t.count,
                seek(t, 0) == seek(t, index as int),
            decreases t.count - index,
        {
            if (offset_of(&t, index) % 512) as usize + t.needed <= 512 {
                return Search::Entry { table: t, index };
            }
            index += 1;
        }
        Search::Absent
    }

    #[verifier::loop_isolation(false)]
    fn examine_sector(target: Target, t: Table, from: u32, sector: &[u8; 512]) -> (r: Search)
        requires
            t.count <= MAX_ENTRIES,
            40 <= t.needed <= 512,
            from < t.count,
        ensures
            r.wf(),
            r.holds(t.needed as int),
            r@ == examine(target, t, from as int, entry_lba(t, from as int), sector@),
    {
        let lba: u64 = lba_of(&t, from);
        let mut index: u32 = from;
        while index < t.count
            invariant
                index <= t.count,
                examine(target, t, from as int, lba, sector@) == examine(
                    target,
                    t,
                    index as int,
                    lba,
                    sector@,
                ),
            decreases t.count - index,
        {
            let at: usize = (offset_of(&t, index) % 512) as usize;
            if at + t.needed <= 512 {
                if lba_of(&t, index) != lba {
                    return Search::Entry { table: t, index };
                }
                if matches_target(target, sector, at) {
                    return Search::Found { index, at, sector: *sector };
                }
            }
            index += 1;
        }
        Search::Absent
    }

    /// Hands the search the sector it wanted, or `None` where it cannot be
    /// read.
    pub fn supply(&mut self, target: Target, sector: Option<&[u8; 512]>)
        requires
            old(self).wf(),
        ensures
            final(self).wf(),
            forall|n: int| old(self).holds(n) ==> #[trigger] final(self).holds(n),
            final(self)@ == search_next(target, old(self)@, chain::opt_view(sector)),
    {
        let next: Search = match *self {
            Search::Header { needed } => match sector {
                None => Search::Absent,
                Some(sector) => {
                    let s: &[u8] = sector;
                    let n: u32 = le32(s, 80);
                    let size: u32 = le32(s, 84);
                    if !bytes_eq(&s[0..8], "EFI PART".as_bytes()) || n == 0 || size == 0 {
                        Search::Absent
                    } else {
                        Search::seek_from_start(
                            Table {
                                entries_lba: le64(s, 72),
                                count: if n < MAX_ENTRIES {
                                    n
                                } else {
                                    MAX_ENTRIES
                                },
                                entry_size: size,
                                needed,
                            },
                        )
                    }
                },
            },
            Search::Entry { table, index } => match sector {
                None => Search::Absent,
                Some(sector) => Search::examine_sector(target, table, index, sector),
            },
            Search::Found { index, at, sector } => Search::Found { index, at, sector },
            Search::Absent => Search::Absent,
        };
        *self = next;
    }
}

/// Whether a search ended on the entry it was after.
pub open spec fn on_target(target: Target, search: SearchView) -> bool {
    search matches SearchView::Found { index, at, sector } ==> is_target(target, sector, at)
}

proof fn seek_not_found(t: Table, index: int)
    ensures
        !(seek(t, index) is Found),
    decreases t.count - index,
{
    if index < t.count && !readable(t, index) {
        seek_not_found(t, index + 1);
    }
}

proof fn examine_on_target(target: Target, t: Table, index: int, lba: u64, s: Seq<u8>)
    ensures
        on_target(target, examine(target, t, index, lba, s)),
    decreases t.count - index,
{
    if index < t.count {
        examine_on_target(target, t, index + 1, lba, s);
    }
}

/// What a search comes up with is what it was after.
pub proof fn found_is_target(target: Target, search: SearchView, sector: Option<Seq<u8>>)
    requires
        on_target(target, search),
    ensures
        on_target(target, search_next(target, search, sector)),
{
    match (search, sector) {
        (SearchView::Header { needed }, Some(s)) => {
            if let Some(t) = header_table(s, needed) {
                seek_not_found(t, 0);
            }
        },
        (SearchView::Entry { table, index }, Some(s)) => {
            examine_on_target(target, table, index as int, entry_lba(table, index as int), s);
        },
        _ => {},
    }
}

} // verus!
