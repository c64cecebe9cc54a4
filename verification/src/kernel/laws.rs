//! What the BIOS boot stage reads, shows and starts.

use vstd::prelude::*;
use crate::bpb;
use crate::bpb::NtfsFault;
use crate::bytes;
use crate::gpt_search;
use crate::gpt_search::{SearchView, Table, Target};
use crate::kernel::ata;
use crate::kernel::ata::AtaRead;
use crate::kernel::fs;
use crate::kernel::fs::MountError;
use crate::kernel::kbd;
use crate::kernel::menu;
use crate::kernel::menu::{MenuAction, MenuView};
use crate::kernel::part;
use crate::kernel::part::{Partition, PartitionReadView};
use crate::kernel::start;
use crate::kernel::start::{Halt, StartView};
use crate::scan::dir;
use crate::scan::dir::{ScanAction, ScanView, VolumeKind};

verus! {

// ---------------------------------------------------------------------------
// Partitions
// ---------------------------------------------------------------------------

/// How many of the entries from `j` up to `i` of an MBR are used.
pub open spec fn used_before(s: Seq<u8>, j: int, i: int) -> nat
    decreases i - j,
{
    if j >= i {
        0
    } else {
        used_before(s, j + 1, i) + (if is_used(s, j) {
            1nat
        } else {
            0nat
        })
    }
}

/// Whether entry `i` of an MBR has sectors.
pub open spec fn is_used(s: Seq<u8>, i: int) -> bool {
    !(s[446 + 16 * i + 12] == 0 && s[446 + 16 * i + 13] == 0 && s[446 + 16 * i + 14] == 0 && s[446
        + 16 * i + 15] == 0)
}

/// Each used entry of an MBR gives one partition, in the order of the entries,
/// with the first sector that its bytes 8 to 11 give.
pub proof fn mbr_partitions_are_in_order(s: Seq<u8>, j: int, i: int)
    requires
        0 <= j <= i <= 4,
    ensures
        i == 4 ==> part::mbr_partitions(s, j).len() == used_before(s, j, i),
        i < 4 && is_used(s, i) ==> {
            let p = part::mbr_partitions(s, j)[used_before(s, j, i) as int];
            let at = 446 + 16 * i;
            &&& used_before(s, j, i) < part::mbr_partitions(s, j).len()
            &&& p.start_lba == s[at + 8] + 256 * s[at + 9] + 65536 * s[at + 10] + 16777216 * s[at
                + 11]
            &&& p.sector_count == s[at + 12] + 256 * s[at + 13] + 65536 * s[at + 14] + 16777216
                * s[at + 15]
            &&& p.fs_type == s[at + 4]
        },
    decreases i - j,
{
    if j < i {
        mbr_partitions_are_in_order(s, j + 1, i);
    }
}

/// The partition that is read for disk images is the first that is listed, and
/// its boot record is in its first sector. A disk without any halts the stage.
pub proof fn first_partition_is_read(parts: Seq<Partition>)
    ensures
        parts.len() == 0 ==> start::partitions_settled(PartitionReadView::Done(parts))
            == StartView::Halted(Halt::NoPartitions),
        parts.len() > 0 ==> start::start_wanted(
            start::partitions_settled(PartitionReadView::Done(parts)),
        ) == ScanAction::ReadSector(parts[0].start_lba as u64),
        start::start_wanted(StartView::Partitions(PartitionReadView::Mbr))
            == ScanAction::ReadSector(0),
{
}

/// A disk whose MBR has an entry of type 0xEE is read by its GPT, and no other.
pub proof fn protective_entry_leads_to_gpt(s: Seq<u8>)
    ensures
        part::read_next(PartitionReadView::Mbr, Some(s)) is Gpt <==> s[450] == 0xEE || s[466] == 0xEE
            || s[482] == 0xEE || s[498] == 0xEE,
        !(part::read_next(PartitionReadView::Mbr, Some(s)) is Gpt) ==> part::read_next(
            PartitionReadView::Mbr,
            Some(s),
        ) == PartitionReadView::Done(part::mbr_partitions(s, 0)),
{
    assert(part::mbr_entry(s, 0).fs_type == s[450]);
    assert(part::mbr_entry(s, 1).fs_type == s[466]);
    assert(part::mbr_entry(s, 2).fs_type == s[482]);
    assert(part::mbr_entry(s, 3).fs_type == s[498]);
}

/// The number that is stored in 8 bytes, the lowest first.
pub open spec fn number8(s: Seq<u8>, at: int) -> int {
    s[at] + 0x100 * s[at + 1] + 0x1_0000 * s[at + 2] + 0x100_0000 * s[at + 3] + 0x1_0000_0000 * s[at
        + 4] + 0x100_0000_0000 * s[at + 5] + 0x1_0000_0000_0000 * s[at + 6]
        + 0x100_0000_0000_0000 * s[at + 7]
}

/// The entry of a GPT that was found gives the one partition that is read: from
/// the sector that its bytes 32 to 39 give to the one that its bytes 40 to 47
/// give.
pub proof fn gpt_entry_gives_the_partition(s: Seq<u8>, at: int)
    requires
        number8(s, at + 32) <= number8(s, at + 40) < 0xFFFF_FFFF,
    ensures
        ({
            let p = part::gpt_partitions(s, at);
            &&& p.len() == 1
            &&& p[0].start_lba == number8(s, at + 32)
            &&& p[0].sector_count == number8(s, at + 40) - number8(s, at + 32) + 1
        }),
{
    assert(bytes::spec_le64(s, at + 32) == number8(s, at + 32));
    assert(bytes::spec_le64(s, at + 40) == number8(s, at + 40));
}

// ---------------------------------------------------------------------------
// The search in a GPT
// ---------------------------------------------------------------------------

/// The search after at most `n` sectors of a disk.
pub open spec fn search_run(
    target: Target,
    disk: spec_fn(u64) -> Option<Seq<u8>>,
    search: SearchView,
    n: nat,
) -> SearchView
    decreases n,
{
    match gpt_search::search_wanted(search) {
        ScanAction::ReadSector(lba) if n > 0 => search_run(
            target,
            disk,
            gpt_search::search_next(target, search, disk(lba)),
            (n - 1) as nat,
        ),
        _ => search,
    }
}

/// The table that a GPT header tells of: where it starts, how many entries it has,
/// but at most 128, and how large one is.
pub proof fn header_tells_of_the_table(s: Seq<u8>, needed: int)
    ensures
        ({
            let count = s[80] + 256 * s[81] + 65536 * s[82] + 16777216 * s[83];
            let size = s[84] + 256 * s[85] + 65536 * s[86] + 16777216 * s[87];
            match gpt_search::header_table(s, needed) {
                Some(t) => {
                    &&& s.subrange(0, 8) == bytes::text("EFI PART")
                    &&& t.entries_lba == number8(s, 72)
                    &&& t.entry_size == size && size > 0
                    &&& count > 0
                    &&& count <= 128 ==> t.count == count
                    &&& count > 128 ==> t.count == 128
                },
                None => s.subrange(0, 8) != bytes::text("EFI PART") || count == 0 || size == 0,
            }
        }),
{
    assert(bytes::spec_le64(s, 72) == number8(s, 72));
}

/// The sector of the disk that an entry of the table is in.
pub open spec fn entry_sector(t: Table, i: int, disk: spec_fn(u64) -> Option<Seq<u8>>) -> Option<
    Seq<u8>,
> {
    disk(gpt_search::entry_lba(t, i))
}

/// Whether entry `i` of the table is what is looked for.
pub open spec fn wanted_entry(
    target: Target,
    t: Table,
    i: int,
    disk: spec_fn(u64) -> Option<Seq<u8>>,
) -> bool {
    gpt_search::readable(t, i) && gpt_search::is_target(
        target,
        entry_sector(t, i, disk)->0,
        gpt_search::entry_at(t, i),
    )
}

proof fn examined(
    target: Target,
    t: Table,
    i: int,
    k: int,
    lba: u64,
    disk: spec_fn(u64) -> Option<Seq<u8>>,
)
    requires
        0 <= i <= k < t.count,
        disk(lba) is Some,
        wanted_entry(target, t, k, disk),
        forall|j: int| i <= j < k ==> !#[trigger] wanted_entry(target, t, j, disk),
    ensures
        match gpt_search::examine(target, t, i, lba, disk(lba)->0) {
            SearchView::Found { index, at, sector } => {
                &&& index == k
                &&& at == gpt_search::entry_at(t, k)
                &&& Some(sector) == entry_sector(t, k, disk)
            },
            SearchView::Entry { table, index } => {
                &&& table == t
                &&& i <= index <= k
                &&& gpt_search::readable(t, index as int)
                &&& gpt_search::entry_lba(t, i) == lba && gpt_search::readable(t, i) ==> i < index
            },
            _ => false,
        },
    decreases k - i,
{
    assert(i < k ==> !wanted_entry(target, t, i, disk));
    if i < k && (!gpt_search::readable(t, i) || gpt_search::entry_lba(t, i) == lba) {
        examined(target, t, i + 1, k, lba, disk);
    }
}

proof fn entry_is_found(
    target: Target,
    t: Table,
    i: int,
    k: int,
    disk: spec_fn(u64) -> Option<Seq<u8>>,
) -> (n: nat)
    requires
        0 <= i <= k < t.count,
        t.count <= 128,
        gpt_search::readable(t, i),
        wanted_entry(target, t, k, disk),
        forall|j: int| i <= j < k ==> !#[trigger] wanted_entry(target, t, j, disk),
        forall|j: int| 0 <= j <= k ==> (#[trigger] entry_sector(t, j, disk)) is Some,
    ensures
        search_run(target, disk, SearchView::Entry { table: t, index: i as u32 }, n) == (
        SearchView::Found {
            index: k as u32,
            at: gpt_search::entry_at(t, k),
            sector: entry_sector(t, k, disk)->0,
        }),
    decreases k - i,
{
    let lba = gpt_search::entry_lba(t, i);
    assert(entry_sector(t, i, disk) is Some);
    examined(target, t, i, k, lba, disk);
    let from = SearchView::Entry { table: t, index: i as u32 };
    let next = gpt_search::search_next(target, from, disk(lba));
    reveal_with_fuel(search_run, 2);
    match next {
        SearchView::Entry { table, index } => {
            let rest = entry_is_found(target, t, index as int, k, disk);
            assert(search_run(target, disk, from, rest + 1) == search_run(target, disk, next, rest));
            rest + 1
        },
        _ => {
            assert(search_run(target, disk, from, 1) == next);
            1
        },
    }
}

proof fn sought(target: Target, t: Table, i: int, k: int)
    requires
        0 <= i <= k < t.count,
        gpt_search::readable(t, k),
    ensures
        gpt_search::seek(t, i) matches SearchView::Entry { table, index } && table == t && i <= index
            <= k && gpt_search::readable(t, index as int),
    decreases k - i,
{
    if i < k && !gpt_search::readable(t, i) {
        sought(target, t, i + 1, k);
    }
}

/// The first entry of a GPT that is what is looked for is found, where the header
/// and the table up to that entry can be read.
pub proof fn first_entry_is_found(
    target: Target,
    needed: int,
    k: int,
    disk: spec_fn(u64) -> Option<Seq<u8>>,
)
    requires
        disk(1) is Some,
        gpt_search::header_table(disk(1)->0, needed) is Some,
        ({
            let t = gpt_search::header_table(disk(1)->0, needed)->0;
            &&& 0 <= k < t.count
            &&& wanted_entry(target, t, k, disk)
            &&& forall|j: int| 0 <= j < k ==> !#[trigger] wanted_entry(target, t, j, disk)
            &&& forall|j: int| 0 <= j <= k ==> (#[trigger] entry_sector(t, j, disk)) is Some
        }),
    ensures
        ({
            let t = gpt_search::header_table(disk(1)->0, needed)->0;
            exists|n: nat|
                #[trigger] search_run(target, disk, SearchView::Header { needed }, n) == (
                SearchView::Found {
                    index: k as u32,
                    at: gpt_search::entry_at(t, k),
                    sector: entry_sector(t, k, disk)->0,
                })
        }),
{
    let t = gpt_search::header_table(disk(1)->0, needed)->0;
    let from = SearchView::Header { needed };
    sought(target, t, 0, k);
    let next = gpt_search::search_next(target, from, disk(1));
    let i = next->Entry_index as int;
    let rest = entry_is_found(target, t, i, k, disk);
    assert(search_run(target, disk, from, rest + 1) == search_run(target, disk, next, rest)) by {
        reveal_with_fuel(search_run, 2);
    }
}

/// Entry `i` of the table stands `i` times the entry size behind the start of the
/// table, and is looked at where it ends in that sector.
pub proof fn entries_stand_in_a_row(t: Table, i: int)
    requires
        0 <= i,
    ensures
        ({
            let at = t.entries_lba * 512 + i * t.entry_size;
            &&& at / 512 < 0x1_0000_0000_0000_0000 ==> gpt_search::entry_lba(t, i) * 512
                + gpt_search::entry_at(t, i) == at
            &&& gpt_search::readable(t, i) <==> at % 512 + t.needed <= 512
        }),
{
    let x = i * t.entry_size;
    assert(x >= 0) by (nonlinear_arith)
        requires
            x == i * t.entry_size,
            i >= 0,
            t.entry_size >= 0,
    ;
    let at = t.entries_lba * 512 + x;
    assert(at / 512 == t.entries_lba + x / 512);
    assert(at % 512 == x % 512);
}

/// What is looked for: a partition of the type of basic data, or one that starts
/// in a given sector; an entry without a type is neither.
pub proof fn targets_are_told_by_their_bytes(s: Seq<u8>, at: int, lba: u64)
    requires
        0 <= at,
        at + 40 <= s.len(),
    ensures
        gpt_search::is_target(Target::BasicData, s, at) <==> s.subrange(at, at + 16) == seq![
            0xA2u8, 0xA0, 0xD0, 0xEB, 0xE5, 0xB9, 0x33, 0x44, 0x87, 0xC0, 0x68, 0xB6, 0xB7, 0x26, 0x99, 0xC7,
        ],
        gpt_search::is_target(Target::StartLba(lba), s, at) <==> s.subrange(at, at + 16)
            != bytes::zeros(16) && number8(s, at + 32) == lba,
{
    let kind = seq![
        0xA2u8, 0xA0, 0xD0, 0xEB, 0xE5, 0xB9, 0x33, 0x44, 0x87, 0xC0, 0x68, 0xB6, 0xB7, 0x26, 0x99, 0xC7,
    ];
    assert(gpt_search::BASIC_DATA@ =~= kind);
    assert(kind[0] != bytes::zeros(16)[0]);
    assert(bytes::spec_le64(s, at + 32) == number8(s, at + 32));
}

// ---------------------------------------------------------------------------
// Volumes
// ---------------------------------------------------------------------------

/// A volume is told by the name in its boot record.
pub proof fn volumes_are_told_by_their_names(vbr: Seq<u8>)
    ensures
        ({
            let oem = vbr.subrange(3, 11);
            let kind = vbr.subrange(82, 90);
            &&& bpb::spec_detect(vbr) == Some(VolumeKind::Exfat) <==> oem == bytes::text("EXFAT   ")
            &&& bpb::spec_detect(vbr) == Some(VolumeKind::Ntfs) <==> oem == bytes::text("NTFS    ")
            &&& bpb::spec_detect(vbr) == Some(VolumeKind::Fat32) <==> kind == bytes::text("FAT32   ")
                && oem != bytes::text("EXFAT   ") && oem != bytes::text("NTFS    ")
        }),
{
    reveal_strlit("EXFAT   ");
    reveal_strlit("NTFS    ");
    vstd::string::is_ascii_spec_bytes("EXFAT   ");
    vstd::string::is_ascii_spec_bytes("NTFS    ");
    assert(bytes::text("EXFAT   ")[0] == 0x45);
    assert(bytes::text("NTFS    ")[0] == 0x4E);
}

/// The number that is stored in 4 bytes, the lowest first.
pub open spec fn number4(s: Seq<u8>, at: int) -> int {
    s[at] + 256 * s[at + 1] + 65536 * s[at + 2] + 16777216 * s[at + 3]
}

/// Where an exFAT volume has its parts: the table of clusters and the clusters are
/// so many sectors behind the start of the partition as bytes 80 and 88 on give, the
/// root directory is in the cluster that bytes 96 on give, and a cluster has as
/// many sectors as 2 to the power of byte 109.
pub proof fn exfat_parts(vbr: Seq<u8>, part: u32, max_shift: u8)
    requires
        max_shift <= 24,
    ensures
        match bpb::spec_exfat_layout(vbr, part as u64, max_shift) {
            None => vbr[109] > max_shift,
            Some(l) => {
                &&& vbr[109] <= max_shift
                &&& vbr[109] <= 22 ==> l.spc == bpb::pow2(vbr[109] as nat)
                &&& l.fat_start == part + number4(vbr, 80)
                &&& l.fat_len == number4(vbr, 84)
                &&& l.heap_start == part + number4(vbr, 88)
                &&& l.root_cluster == number4(vbr, 96)
            },
        },
{
    if vbr[109] <= 22 {
        reveal_with_fuel(bpb::pow2, 23);
        pow2_below(vbr[109] as nat);
    }
}

proof fn pow2_below(n: nat)
    requires
        n <= 22,
    ensures
        1 <= bpb::pow2(n) <= 0x40_0000,
    decreases n,
{
    reveal_with_fuel(bpb::pow2, 23);
}

/// Where a FAT32 volume has its parts: its tables start behind the reserved
/// sectors of bytes 14 and 15, its clusters behind all tables, and the root
/// directory is in the cluster that bytes 44 on give.
pub proof fn fat32_parts(vbr: Seq<u8>, part: u32)
    ensures
        match bpb::spec_fat32_layout(vbr, part as u64) {
            None => vbr[13] == 0,
            Some(l) => {
                let reserved = vbr[14] + 256 * vbr[15];
                &&& vbr[13] > 0
                &&& l.spc == vbr[13]
                &&& l.fat_start == part + reserved
                &&& l.fat_len == number4(vbr, 36)
                &&& l.heap_start == part + reserved + vbr[16] * number4(vbr, 36)
                &&& l.root_cluster == number4(vbr, 44)
            },
        },
{
    let n = number4(vbr, 36);
    assert(0 <= vbr[16] * n <= 255 * 0xFFFF_FFFF) by (nonlinear_arith)
        requires
            0 <= vbr[16] <= 255,
            0 <= n <= 0xFFFF_FFFF,
    ;
}

/// Where an NTFS volume has its parts: its records start in the cluster that bytes
/// 48 on give, and have as many clusters as byte 64 gives, or where that is
/// negative, as many bytes as 2 to the power of it. Records of over 4 KiB are
/// refused.
pub proof fn ntfs_parts(vbr: Seq<u8>, part: u32)
    requires
        part + number8(vbr, 48) * vbr[13] <= u64::MAX,
    ensures
        ({
            let c = if vbr[64] < 128 {
                vbr[64] as int
            } else {
                vbr[64] - 256
            };
            let size = if c > 0 {
                c * vbr[13] * 512
            } else {
                bpb::pow2((-c) as nat) as int
            };
            match bpb::spec_ntfs_layout(vbr, part as u64, bpb::signed_byte(vbr, 64)) {
                Err(NtfsFault::EmptyClusters) => vbr[13] == 0,
                Err(NtfsFault::RecordSize) => vbr[13] > 0 && size > 4096,
                Ok(l) => {
                    &&& vbr[13] > 0
                    &&& size <= 4096
                    &&& l.spc == vbr[13]
                    &&& l.mft_record_size == size
                    &&& l.mft_start_lba == part + number8(vbr, 48) * vbr[13]
                },
            }
        }),
{
    assert(bytes::spec_le64(vbr, 48) == number8(vbr, 48));
    let c = bpb::signed_byte(vbr, 64);
    let k = vbr[13] as int;
    assert(c * (k * 512) == c * k * 512) by (nonlinear_arith);
    let x = number8(vbr, 48);
    assert(x * k >= 0) by (nonlinear_arith)
        requires
            x >= 0,
            k >= 0,
    ;
    bpb::ntfs_records_fit(vbr, part as u64, c);
}

/// The stage mounts the volume of the partition as what it is, and refuses it for
/// what is wrong with it.
pub proof fn volume_is_mounted_as_what_it_is(part: u32, vbr: Seq<u8>)
    ensures
        match fs::spec_mount(part, vbr) {
            Ok(ctx) => {
                let v = ctx.spec_volume();
                &&& ctx.part1_lba == part
                &&& bpb::spec_detect(vbr) == Some(v.kind)
                &&& v.kind != VolumeKind::Ntfs ==> {
                    let l = if v.kind == VolumeKind::Exfat {
                        bpb::spec_exfat_layout(vbr, part as u64, 24)
                    } else {
                        bpb::spec_fat32_layout(vbr, part as u64)
                    };
                    &&& l is Some
                    &&& v.geometry.spc == l->0.spc
                    &&& v.geometry.fat_start == l->0.fat_start
                    &&& v.geometry.heap_start == l->0.heap_start
                    &&& v.root_cluster == l->0.root_cluster
                }
                &&& v.kind == VolumeKind::Ntfs ==> {
                    let l = bpb::spec_ntfs_layout(vbr, part as u64, bpb::signed_byte(vbr, 64));
                    &&& l is Ok
                    &&& v.ntfs.part1_lba == part
                    &&& v.ntfs.mft_start_lba == l->Ok_0.mft_start_lba
                    &&& v.ntfs.sectors_per_cluster == l->Ok_0.spc
                    &&& v.ntfs.mft_record_size == l->Ok_0.mft_record_size
                }
            },
            Err(MountError::UnknownFilesystem) => bpb::spec_detect(vbr) is None,
            Err(MountError::InvalidClusterShift) => bpb::spec_detect(vbr) == Some(
                VolumeKind::Exfat,
            ) && vbr[109] > 24,
            Err(MountError::InvalidSectorsPerCluster) => bpb::spec_detect(vbr) is Some && vbr[13]
                == 0,
            Err(MountError::InvalidMftRecordSize) => bpb::spec_detect(vbr) == Some(VolumeKind::Ntfs)
                && bpb::spec_ntfs_layout(vbr, part as u64, bpb::signed_byte(vbr, 64)) == Err::<
                bpb::NtfsLayout,
                NtfsFault,
            >(NtfsFault::RecordSize),
        },
{
}

/// The menu lists what the scan of the volume has listed, no more and no less, once
/// that scan is done, and not before.
pub proof fn menu_lists_what_was_found(part: u32, ctx: fs::FsCtx, scan: ScanView, sector: Option<Seq<u8>>, vbr: Seq<u8>)
    ensures
        ({
            let next = dir::scan_next(ctx.spec_volume(), dir::Reader::Bios, scan, sector);
            let then = start::start_next(StartView::Scanning { ctx, scan }, sector);
            &&& next.step is Done ==> then == (StartView::Menu { ctx, files: next.files })
            &&& !(next.step is Done) ==> then == (StartView::Scanning { ctx, scan: next })
        }),
        start::start_next(StartView::BootRecord { part1_lba: part }, None) == StartView::Halted(
            Halt::BootRecordRead,
        ),
        match fs::spec_mount(part, vbr) {
            Err(e) => start::start_next(StartView::BootRecord { part1_lba: part }, Some(vbr))
                == StartView::Halted(Halt::Mount(e)),
            Ok(c) => {
                let begun = dir::scan_start(c.spec_volume(), Seq::empty());
                start::start_next(StartView::BootRecord { part1_lba: part }, Some(vbr)) == (
                if begun.step is Done {
                    StartView::Menu { ctx: c, files: begun.files }
                } else {
                    StartView::Scanning { ctx: c, scan: begun }
                })
            },
        },
{
}

// ---------------------------------------------------------------------------
// The menu
// ---------------------------------------------------------------------------

/// Turning to the next page shows the next 16 entries where there are any, and
/// turning back shows the 16 before, or the first page. The key for a new search
/// goes to the first page. All of these drop what was typed.
pub proof fn pages_have_16_entries(m: MenuView)
    requires
        0 <= m.page_start,
        m.typed.len() <= 2,
    ensures
        ({
            let next = menu::pressed(m, Some(0x6Eu8));
            let back = menu::pressed(m, Some(0x70u8));
            let again = menu::pressed(m, Some(0x72u8));
            &&& next.1 == MenuAction::Redraw
            &&& back.1 == MenuAction::Redraw
            &&& again.1 == MenuAction::Rescan
            &&& next.0.page_start == (if m.page_start + 16 < m.count {
                m.page_start + 16
            } else {
                m.page_start
            })
            &&& back.0.page_start == (if m.page_start >= 16 {
                m.page_start - 16
            } else {
                0
            })
            &&& again.0.page_start == 0
            &&& next.0.typed.len() == 0
            &&& back.0.typed.len() == 0
            &&& again.0.typed.len() == 0
            &&& next.0.count == m.count
            &&& back.0.count == m.count
        }),
        menu::pressed(m, Some(0x4Eu8)) == menu::pressed(m, Some(0x6Eu8)),
        menu::pressed(m, Some(0x50u8)) == menu::pressed(m, Some(0x70u8)),
        menu::pressed(m, Some(0x52u8)) == menu::pressed(m, Some(0x72u8)),
{
}

/// The key that takes back undoes a digit that was typed.
pub proof fn backspace_undoes_a_digit(m: MenuView, digit: u8)
    requires
        0x30 <= digit <= 0x39,
        m.typed.len() < 2,
    ensures
        menu::pressed(menu::pressed(m, Some(digit)).0, Some(0x08u8)).0 == m,
        menu::pressed(m, Some(digit)).0.typed == m.typed.push(digit),
{
    assert(m.typed.push(digit).drop_last() =~= m.typed);
}

/// Nothing but a number and the return key boots an image, and what was not
/// understood changes nothing.
pub proof fn only_return_boots(m: MenuView, key: Option<u8>)
    ensures
        menu::pressed(m, key).1 is Boot ==> key == Some(0x0Au8) && m.typed.len() > 0,
        key is None ==> menu::pressed(m, key) == (m, MenuAction::Redraw),
{
}

/// The keys of the menu are those of a keyboard: the digits, R, S for a capital R,
/// and the return key.
pub proof fn keys_are_those_of_the_keyboard(digit: u8)
    requires
        1 <= digit <= 9,
    ensures
        kbd::ascii((digit + 1) as u8) == Some((0x30 + digit) as u8),
        kbd::ascii(0x0B) == Some(0x30u8),
        kbd::ascii(0x1C) == Some(0x0Au8),
        kbd::ascii(0x13) == Some(0x72u8),
        kbd::ascii(0x1F) == Some(0x52u8),
{
}

// ---------------------------------------------------------------------------
// The drive
// ---------------------------------------------------------------------------

/// The command for a read asks for one sector, the one that is wanted: its number
/// is what the registers get, byte by byte, in 28 bits where these do, else in 48.
pub proof fn command_asks_for_the_sector(lba: u64)
    requires
        lba < 0x1_0000_0000_0000,
    ensures
        ({
            let c = ata::read_command(lba);
            if lba <= 0x0FFF_FFFF {
                &&& c.len() == 6
                &&& c[0].port == 0x1F6
                &&& c[1] == ata::out(0x1F2, 1)
                &&& c[2].port == 0x1F3
                &&& c[3].port == 0x1F4
                &&& c[4].port == 0x1F5
                &&& c[5] == ata::out(0x1F7, 0x20)
                &&& c[0].value / 16 == 0xE
                &&& c[2].value + 0x100 * c[3].value + 0x1_0000 * c[4].value + 0x100_0000 * (
                c[0].value % 16) == lba
            } else {
                &&& c.len() == 10
                &&& c[0] == ata::out(0x1F6, 0x40)
                &&& c[1] == ata::out(0x1F2, 0)
                &&& c[2].port == 0x1F3
                &&& c[3].port == 0x1F4
                &&& c[4].port == 0x1F5
                &&& c[5] == ata::out(0x1F2, 1)
                &&& c[6].port == 0x1F3
                &&& c[7].port == 0x1F4
                &&& c[8].port == 0x1F5
                &&& c[9] == ata::out(0x1F7, 0x24)
                &&& c[6].value + 0x100 * c[7].value + 0x1_0000 * c[8].value + 0x100_0000 * c[2].value
                    + 0x1_0000_0000 * c[3].value + 0x100_0000_0000 * c[4].value == lba
            }
        }),
{
    reveal_with_fuel(ata::lba_byte, 6);
    let a = lba / 256;
    let b = a / 256;
    let c = b / 256;
    let d = c / 256;
    let e = d / 256;
    assert(ata::lba_byte(lba, 0) == lba % 256);
    assert(ata::lba_byte(lba, 1) == a % 256);
    assert(ata::lba_byte(lba, 2) == b % 256);
    assert(ata::lba_byte(lba, 3) == c % 256);
    assert(ata::lba_byte(lba, 4) == d % 256);
    assert(ata::lba_byte(lba, 5) == e % 256);
    assert(e < 256);
    if lba <= 0x0FFF_FFFF {
        assert(c < 16);
    }
}

/// Data is taken from the drive only once it says that it has some and no error;
/// a drive that is not there, or that tells of an error, fails the read.
pub proof fn data_is_taken_when_it_is_there(s: AtaRead, status: u8)
    ensures
        s.spec_next(status) is Transfer && !(s is Transfer) ==> s is Poll && status / 8 % 2 == 1
            && status % 2 == 0,
        s is Poll && status / 8 % 2 == 1 && status % 2 == 0 ==> s.spec_next(status) is Transfer,
        s is Poll && status % 2 == 1 ==> s.spec_next(status) is Failed,
        s is Probe ==> (s.spec_next(status) is Failed <==> status == 0xFF),
        s.spec_next(status) is Command && !(s is Command) ==> s is WaitNoData && status / 8 % 2 == 0,
        s.spec_next(status) is WaitNoData && !(s is WaitNoData) ==> s is WaitNotBusy && status < 0x80,
{
}

proof fn joined_sectors(sectors: Seq<Option<[u8; 512]>>, n: int, i: int, j: int)
    requires
        0 <= i < n <= sectors.len(),
        0 <= j < 512,
    ensures
        ata::joined(sectors, n).len() == 512 * n,
        ata::joined(sectors, n)[512 * i + j] == (sectors[i]->0)@[j],
    decreases n,
{
    reveal_with_fuel(ata::joined, 2);
    if n > 1 {
        joined_sectors(sectors, n - 1, if i < n - 1 {
            i
        } else {
            0
        }, j);
    }
}

proof fn readable_sectors(sectors: Seq<Option<[u8; 512]>>, count: int, room: int, i: int)
    requires
        0 <= i <= count,
    ensures
        ({
            let n = ata::readable(sectors, count, room, i);
            &&& i <= n <= count
            &&& n == count <==> forall|k: int|
                i <= k < count ==> k < sectors.len() && 512 * k + 512 <= room && (#[trigger] sectors[k]) is Some
        }),
    decreases count - i,
{
    if i < count && i < sectors.len() && i * 512 + 512 <= room && sectors[i] is Some {
        readable_sectors(sectors, count, room, i + 1);
    } else if i < count {
        let x = sectors[i];
    }
}

/// A read of several sectors works if and only if each of them can be read and
/// there is room for it, and then they stand one behind the other.
pub proof fn sectors_are_read_in_a_row(
    sectors: Seq<Option<[u8; 512]>>,
    count: int,
    room: int,
    i: int,
    j: int,
)
    requires
        0 <= i < count,
        0 <= j < 512,
    ensures
        ({
            let n = ata::readable(sectors, count, room, 0);
            &&& n == count <==> forall|k: int|
                0 <= k < count ==> k < sectors.len() && 512 * k + 512 <= room && (#[trigger] sectors[k]) is Some
            &&& n == count ==> ata::joined(sectors, n)[512 * i + j] == (sectors[i]->0)@[j]
        }),
{
    readable_sectors(sectors, count, room, 0);
    if ata::readable(sectors, count, room, 0) == count {
        let last = sectors[count - 1];
        joined_sectors(sectors, count, i, j);
    }
}

} // verus!
