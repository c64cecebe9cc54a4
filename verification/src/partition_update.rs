//! Changing a disk that is in use: putting an EFI partition beside what is
//! there, and renewing the boot images.

use vstd::prelude::*;
use crate::bytes;
use crate::bytes::{bytes_eq, slice_vec, WORD};
use crate::constants::{
    BOOT_CODE_SIZE, CHOOSABLE_EFI_PART_SIZE, CHOOSABLE_PART1_START_SECTOR, CHOOSABLE_SECTOR_NUM,
    GPT_ATTR_VTOYEFI, GPT_PART1_NAME, GPT_TYPE_EFI_SYSTEM, PART_ACTIVE, PART_INACTIVE,
    PART_TYPE_DATA, PART_TYPE_EFI_SYSTEM, SECTOR_SIZE,
};
use crate::disk_io;
use crate::disk_io::{push_write, DiskWrite, WriteView};
use crate::disk_layout;
use crate::disk_layout::{
    write_table, GptHeader, GptEntryView, GptInfo, GptPartitionEntry, GptView, Guid, Mbr, MbrView,
    PartitionTableEntry,
};
use crate::error;
use crate::error::{ChoosableError, ErrorView, Result};
use crate::installer;
use crate::installer::{
    align_to_4k, append_writes, cap, fill_mbr_chs_entry, finalize_gpt_crcs, make_backup_gpt_header,
    push_core, push_guid, write_boot_images, BootImages,
};
use crate::scan::chain;
use crate::text;

verus! {

// ---------------------------------------------------------------------------
// Room behind partition 1
// ---------------------------------------------------------------------------

/// The least start, in bytes, of the partitions from `i` on of an MBR, but at
/// most `next`.
pub open spec fn mbr_next_start(p: Seq<PartitionTableEntry>, i: int, next: int) -> int
    decreases 4 - i,
{
    if i >= 4 {
        next
    } else if p[i].sector_count > 0 && p[i].start_lba * 512 < next {
        mbr_next_start(p, i + 1, p[i].start_lba * 512)
    } else {
        mbr_next_start(p, i + 1, next)
    }
}

/// The least start, in sectors, of the partitions from `i` on of a GPT, but at
/// most `next`.
pub open spec fn gpt_next_start(p: Seq<GptEntryView>, i: int, next: u64) -> u64
    decreases 128 - i,
{
    if i >= 128 {
        next
    } else if p[i].unique_part_guid != bytes::zeros(16) && p[i].start_lba < next {
        gpt_next_start(p, i + 1, p[i].start_lba)
    } else {
        gpt_next_start(p, i + 1, next)
    }
}

/// Where what follows partition 1 starts on a disk with an MBR, in bytes: the
/// next partition, or the end of the disk.
#[verifier::loop_isolation(false)]
pub fn next_mbr_partition_start(mbr: &Mbr, disk_size_bytes: u64) -> (r: u64)
    ensures
        r == mbr_next_start(mbr@.partitions, 1, disk_size_bytes as int),
{
    let mut next: u64 = disk_size_bytes;
    let mut i: usize = 1;
    while i < 4
        invariant
            1 <= i <= 4,
            mbr_next_start(mbr@.partitions, 1, disk_size_bytes as int) == mbr_next_start(
                mbr@.partitions,
                i as int,
                next as int,
            ),
        decreases 4 - i,
    {
        let e: PartitionTableEntry = mbr.partitions[i];
        if e.sector_count > 0 {
            let start: u64 = e.start_lba as u64 * 512;
            if start < next {
                next = start;
            }
        }
        i += 1;
    }
    next
}

/// Where what follows partition 1 starts on a disk with a GPT, in bytes: the
/// next partition, or the end of the area for partitions.
#[verifier::loop_isolation(false)]
pub fn next_gpt_partition_start(gpt: &GptInfo) -> (r: u64)
    ensures
        r == disk_layout::sector_at(
            gpt_next_start(
                gpt@.partitions,
                1,
                chain::wrap64(gpt@.header.part_area_end_lba + 1),
            ),
        ),
{
    let end: u64 = ((gpt.header.part_area_end_lba as u128 + 1) % WORD) as u64;
    let zero: [u8; 16] = [0; 16];
    assert(zero@ =~= bytes::zeros(16));
    let mut next: u64 = end;
    let mut i: usize = 1;
    while i < 128
        invariant
            1 <= i <= 128,
            gpt_next_start(gpt@.partitions, 1, end) == gpt_next_start(
                gpt@.partitions,
                i as int,
                next,
            ),
        decreases 128 - i,
    {
        let e: GptPartitionEntry = gpt.partitions[i];
        assert(gpt@.partitions[i as int] == e@);
        if !bytes_eq(&e.unique_part_guid, &zero) && e.start_lba < next {
            next = e.start_lba;
        }
        i += 1;
    }
    disk_layout::sector_offset(next)
}

/// Where what follows partition 1 starts, in bytes: of the GPT where there is
/// one, else of the MBR.
pub fn find_next_partition_start(mbr: &Mbr, gpt: Option<&GptInfo>, disk_size_bytes: u64) -> (r: u64)
    ensures
        r == (match gpt {
            Some(g) => disk_layout::sector_at(
                gpt_next_start(
                    g@.partitions,
                    1,
                    chain::wrap64(g@.header.part_area_end_lba + 1),
                ),
            ) as int,
            None => mbr_next_start(mbr@.partitions, 1, disk_size_bytes as int),
        }),
{
    match gpt {
        Some(g) => next_gpt_partition_start(g),
        None => next_mbr_partition_start(mbr, disk_size_bytes),
    }
}

// ---------------------------------------------------------------------------
// The plan of a non-destructive installation
// ---------------------------------------------------------------------------

/// What is known of a disk and its partition 1.
#[derive(Clone, Copy, PartialEq, Eq, Structural, Debug)]
pub struct Survey {
    pub size_bytes: u64,
    pub part1_start: u64,
    pub part1_sectors: u64,
    /// Where what follows partition 1 starts, in bytes.
    pub next_start: u64,
}

/// Where partition 2 will start, and the size that the filesystem of
/// partition 1 must shrink to for it, in MiB.
#[derive(Clone, Copy, PartialEq, Eq, Structural, Debug)]
pub struct NonDestructivePlan {
    pub part2_start_sector: u64,
    pub shrink_to_mb: Option<u64>,
}

/// The sectors that both partitions take at least.
pub const MIN_SECTORS: u64 = 67584;

/// The size of partition 1 in MiB.
pub open spec fn part1_mb(s: Survey) -> int {
    (s.part1_sectors / 2048) as int
}

/// The bytes free behind partition 1.
pub open spec fn free_space(s: Survey) -> int {
    let end = (s.part1_start + s.part1_sectors) * 512;
    if s.next_start > end {
        s.next_start - end
    } else {
        0
    }
}

/// Whether a disk has room for partition 2 behind where partition 1 starts.
pub open spec fn room_checked(size_bytes: u64) -> std::result::Result<(), ErrorView> {
    if size_bytes / SECTOR_SIZE <= MIN_SECTORS {
        Err(
            ErrorView::DiskTooSmall {
                required: (MIN_SECTORS * SECTOR_SIZE) as u64,
                available: size_bytes,
            },
        )
    } else {
        Ok(())
    }
}

/// Whether partition 1 starts where it must.
pub open spec fn start_checked(part1_start: u64) -> std::result::Result<(), ErrorView> {
    if part1_start != CHOOSABLE_PART1_START_SECTOR {
        Err(ErrorView::Generic("Partition 1 does not start at 1 MiB"@))
    } else {
        Ok(())
    }
}

/// The plan for a disk: partition 2 goes behind partition 1 where there is
/// room, and takes the end of partition 1 where there is not.
pub open spec fn planned(s: Survey) -> std::result::Result<NonDestructivePlan, ErrorView> {
    let end = s.part1_start + s.part1_sectors;
    if room_checked(s.size_bytes) is Err {
        Err(room_checked(s.size_bytes)->Err_0)
    } else if start_checked(s.part1_start) is Err {
        Err(start_checked(s.part1_start)->Err_0)
    } else if free_space(s) >= CHOOSABLE_EFI_PART_SIZE {
        Ok(
            NonDestructivePlan {
                part2_start_sector: installer::aligned_up(end) as u64,
                shrink_to_mb: None,
            },
        )
    } else if part1_mb(s) <= 32 {
        Err(
            ErrorView::Generic(
                "Partition 1 is too small ("@ + text::numeral(part1_mb(s) as nat)
                    + " MiB) to be shrunk by "@ + text::numeral(32) + " MiB"@,
            ),
        )
    } else {
        Ok(
            NonDestructivePlan {
                part2_start_sector: installer::aligned_up(end - 65536) as u64,
                shrink_to_mb: Some((part1_mb(s) - 32) as u64),
            },
        )
    }
}

/// Whether the end of partition 1 has a byte address, where the plan asks for
/// it.
pub open spec fn has_address(s: Survey) -> bool {
    &&& s.part1_sectors * 512 <= u64::MAX
    &&& s.size_bytes as int / 512 > MIN_SECTORS && s.part1_start == CHOOSABLE_PART1_START_SECTOR
        ==> (s.part1_start + s.part1_sectors) * 512 <= u64::MAX
}

/// Checks that a disk has room for partition 2 behind where partition 1 starts.
pub fn check_room(size_bytes: u64) -> (r: Result<()>)
    ensures
        error::outcome(r) == room_checked(size_bytes),
{
    if size_bytes / SECTOR_SIZE <= MIN_SECTORS {
        return Err(
            ChoosableError::DiskTooSmall {
                required: MIN_SECTORS * SECTOR_SIZE,
                available: size_bytes,
            },
        );
    }
    Ok(())
}

/// Checks where partition 1 starts.
pub fn check_part1_start(part1_start: u64) -> (r: Result<()>)
    ensures
        error::outcome(r) == start_checked(part1_start),
{
    if part1_start != CHOOSABLE_PART1_START_SECTOR {
        return Err(ChoosableError::Generic("Partition 1 does not start at 1 MiB".to_owned()));
    }
    Ok(())
}

/// The plan for a disk.
pub fn plan_non_destructive(s: &Survey) -> (r: Result<NonDestructivePlan>)
    requires
        has_address(*s),
    ensures
        error::outcome(r) == planned(*s),
{
    if let Err(e) = check_room(s.size_bytes) {
        return Err(e);
    }
    if let Err(e) = check_part1_start(s.part1_start) {
        return Err(e);
    }
    let part1_end: u64 = s.part1_start + s.part1_sectors;
    let end_byte: u64 = part1_end * 512;
    let free: u64 = if s.next_start > end_byte {
        s.next_start - end_byte
    } else {
        0
    };
    if free >= CHOOSABLE_EFI_PART_SIZE {
        return Ok(
            NonDestructivePlan {
                part2_start_sector: align_to_4k(part1_end),
                shrink_to_mb: None,
            },
        );
    }
    let mb: u64 = s.part1_sectors / 2048;
    if mb <= 32 {
        let mut out: String = "Partition 1 is too small (".to_owned();
        text::push_number(&mut out, mb);
        text::push_str(&mut out, " MiB) to be shrunk by ");
        text::push_number(&mut out, 32);
        text::push_str(&mut out, " MiB");
        return Err(ChoosableError::Generic(out));
    }
    Ok(
        NonDestructivePlan {
            part2_start_sector: align_to_4k(part1_end - CHOOSABLE_SECTOR_NUM),
            shrink_to_mb: Some(mb - 32),
        },
    )
}

/// Partition 2 is aligned to 4 KiB. It starts behind all of partition 1, or
/// else behind all that the filesystem there keeps when it shrinks.
pub proof fn data_ends_before_part2(s: Survey)
    requires
        has_address(s),
    ensures
        planned(s) matches Ok(p) ==> {
            &&& p.part2_start_sector % 8 == 0
            &&& match p.shrink_to_mb {
                None => s.part1_start + s.part1_sectors <= p.part2_start_sector,
                Some(mb) => s.part1_start + mb * 2048 <= p.part2_start_sector,
            }
        },
{
}

/// Partition 2 ends before what follows partition 1, where partition 1 ends at
/// a multiple of 4 KiB and before what follows it.
pub proof fn part2_ends_before_next(s: Survey)
    requires
        (s.part1_start + s.part1_sectors) * 512 <= s.next_start,
        (s.part1_start + s.part1_sectors) % 8 == 0,
    ensures
        planned(s) matches Ok(p) ==> (p.part2_start_sector + 65536) * 512 <= s.next_start,
{
}

// ---------------------------------------------------------------------------
// The partition tables
// ---------------------------------------------------------------------------

/// The first unused entry of an MBR from `i` on.
pub open spec fn free_mbr_slot(p: Seq<PartitionTableEntry>, i: int) -> Option<int>
    decreases 4 - i,
{
    if i >= 4 {
        None
    } else if p[i].sector_count == 0 {
        Some(i)
    } else {
        free_mbr_slot(p, i + 1)
    }
}

/// The first unused entry of a GPT from `i` on.
pub open spec fn free_gpt_slot(p: Seq<GptEntryView>, i: int) -> Option<int>
    decreases 128 - i,
{
    if i >= 128 {
        None
    } else if p[i].unique_part_guid == bytes::zeros(16) {
        Some(i)
    } else {
        free_gpt_slot(p, i + 1)
    }
}

/// A sector number as the four bytes of an MBR entry hold it.
pub open spec fn entry_sector(n: int) -> int {
    n % 0x1_0000_0000
}

/// An MBR with partition 1 up to partition 2, and partition 2 in the first
/// unused entry.
pub open spec fn updated_mbr(m: MbrView, part2_start: int) -> std::result::Result<
    MbrView,
    ErrorView,
> {
    match free_mbr_slot(m.partitions, 1) {
        None => Err(ErrorView::Generic("No free partition slot available in MBR"@)),
        Some(slot) => {
            let first = PartitionTableEntry {
                active: PART_ACTIVE,
                fs_flag: PART_TYPE_DATA,
                ..installer::entry_placed(
                    m.partitions[0],
                    CHOOSABLE_PART1_START_SECTOR as u32,
                    (entry_sector(part2_start) - 2048) as u32,
                )
            };
            let second = PartitionTableEntry {
                active: PART_INACTIVE,
                fs_flag: PART_TYPE_EFI_SYSTEM,
                ..installer::entry_placed(
                    m.partitions[slot],
                    entry_sector(part2_start) as u32,
                    65536,
                )
            };
            Ok(MbrView { partitions: m.partitions.update(0, first).update(slot, second), ..m })
        },
    }
}

/// A GPT with the same, and its checksums.
pub open spec fn updated_gpt(g: GptView, part2_start: int, guid: Seq<u8>) -> std::result::Result<
    GptView,
    ErrorView,
> {
    match free_gpt_slot(g.partitions, 1) {
        None => Err(ErrorView::Generic("No free partition slot available in GPT"@)),
        Some(slot) => {
            let first = GptEntryView { end_lba: (part2_start - 1) as u64, ..g.partitions[0] };
            let second = disk_layout::efi_entry(guid, part2_start, GPT_PART1_NAME@);
            Ok(
                installer::finalized(
                    GptView { partitions: g.partitions.update(0, first).update(slot, second), ..g },
                ),
            )
        },
    }
}

pub open spec fn mbr_update_result(r: Result<Mbr>) -> std::result::Result<MbrView, ErrorView> {
    disk_layout::mbr_result(r)
}

pub open spec fn gpt_update_result(r: Result<GptInfo>) -> std::result::Result<GptView, ErrorView> {
    match r {
        Ok(g) => Ok(g@),
        Err(e) => Err(e@),
    }
}

#[verifier::loop_isolation(false)]
fn find_mbr_slot(mbr: &Mbr) -> (r: Option<usize>)
    ensures
        match r {
            Some(i) => 1 <= i < 4 && free_mbr_slot(mbr@.partitions, 1) == Some(i as int),
            None => free_mbr_slot(mbr@.partitions, 1) is None,
        },
{
    let mut i: usize = 1;
    while i < 4
        invariant
            1 <= i <= 4,
            free_mbr_slot(mbr@.partitions, 1) == free_mbr_slot(mbr@.partitions, i as int),
        decreases 4 - i,
    {
        if mbr.partitions[i].sector_count == 0 {
            return Some(i);
        }
        i += 1;
    }
    None
}

#[verifier::loop_isolation(false)]
fn find_gpt_slot(gpt: &GptInfo) -> (r: Option<usize>)
    ensures
        match r {
            Some(i) => 1 <= i < 128 && free_gpt_slot(gpt@.partitions, 1) == Some(i as int),
            None => free_gpt_slot(gpt@.partitions, 1) is None,
        },
{
    let zero: [u8; 16] = [0; 16];
    assert(zero@ =~= bytes::zeros(16));
    let mut i: usize = 1;
    while i < 128
        invariant
            1 <= i <= 128,
            free_gpt_slot(gpt@.partitions, 1) == free_gpt_slot(gpt@.partitions, i as int),
        decreases 128 - i,
    {
        assert(gpt@.partitions[i as int] == gpt.partitions@[i as int]@);
        if bytes_eq(&gpt.partitions[i].unique_part_guid, &zero) {
            return Some(i);
        }
        i += 1;
    }
    None
}

/// Whether both partitions lie within the sectors that an MBR counts, if an
/// entry is free.
pub open spec fn mbr_can_take(m: MbrView, part2_start: int) -> bool {
    free_mbr_slot(m.partitions, 1) is Some ==> {
        &&& 2048 <= entry_sector(part2_start)
        &&& entry_sector(part2_start) + 65536 <= 0x1_0000_0000
    }
}

/// Whether the sectors of both partitions can be counted and the header has a
/// checksum, if an entry is free.
pub open spec fn gpt_can_take(g: GptView, part2_start: int) -> bool {
    free_gpt_slot(g.partitions, 1) is Some ==> {
        &&& 1 <= part2_start
        &&& part2_start + 65536 <= u64::MAX
        &&& g.header.header_size <= 512
    }
}

/// The MBR with partition 2 put in.
pub fn update_mbr_partition_table_f(mbr: &Mbr, part2_start_sector: u64) -> (r: Result<Mbr>)
    requires
        mbr_can_take(mbr@, part2_start_sector as int),
    ensures
        mbr_update_result(r) == updated_mbr(mbr@, part2_start_sector as int),
{
    let slot: usize = match find_mbr_slot(mbr) {
        None => {
            return Err(
                ChoosableError::Generic("No free partition slot available in MBR".to_owned()),
            );
        },
        Some(s) => s,
    };
    let mut new_mbr: Mbr = *mbr;
    let part2_start: u32 = (part2_start_sector % 0x1_0000_0000) as u32;
    let part1_count: u32 = part2_start - CHOOSABLE_PART1_START_SECTOR as u32;
    let mut part0: PartitionTableEntry = new_mbr.partitions[0];
    fill_mbr_chs_entry(&mut part0, CHOOSABLE_PART1_START_SECTOR as u32, part1_count);
    part0.active = PART_ACTIVE;
    part0.fs_flag = PART_TYPE_DATA;
    let mut part_slot: PartitionTableEntry = new_mbr.partitions[slot];
    fill_mbr_chs_entry(&mut part_slot, part2_start, 65536);
    part_slot.active = PART_INACTIVE;
    part_slot.fs_flag = PART_TYPE_EFI_SYSTEM;
    new_mbr.partitions[0] = part0;
    new_mbr.partitions[slot] = part_slot;
    assert(new_mbr@ =~= updated_mbr(mbr@, part2_start_sector as int)->Ok_0);
    Ok(new_mbr)
}

/// The GPT with partition 2 put in, and its checksums.
pub fn update_gpt_partition_table_f(gpt: &GptInfo, part2_start_sector: u64, guid: Guid) -> (r:
    Result<GptInfo>)
    requires
        gpt_can_take(gpt@, part2_start_sector as int),
    ensures
        gpt_update_result(r) == updated_gpt(gpt@, part2_start_sector as int, guid@),
{
    let slot: usize = match find_gpt_slot(gpt) {
        None => {
            return Err(
                ChoosableError::Generic("No free partition slot available in GPT".to_owned()),
            );
        },
        Some(s) => s,
    };
    let mut new_gpt: GptInfo = *gpt;
    let mut first: GptPartitionEntry = new_gpt.partitions[0];
    first.end_lba = part2_start_sector - 1;
    let second: GptPartitionEntry = GptPartitionEntry {
        part_type_guid: GPT_TYPE_EFI_SYSTEM,
        unique_part_guid: guid,
        start_lba: part2_start_sector,
        end_lba: part2_start_sector + (CHOOSABLE_SECTOR_NUM - 1),
        attributes: GPT_ATTR_VTOYEFI,
        name: GPT_PART1_NAME,
    };
    new_gpt.partitions[0] = first;
    new_gpt.partitions[slot] = second;
    proof {
        let want = gpt@.partitions.update(
            0,
            GptEntryView { end_lba: (part2_start_sector - 1) as u64, ..gpt@.partitions[0] },
        ).update(
            slot as int,
            disk_layout::efi_entry(guid@, part2_start_sector as int, GPT_PART1_NAME@),
        );
        assert(gpt@.partitions[0] == gpt.partitions@[0]@);
        assert forall|i: int| 0 <= i < 128 implies new_gpt@.partitions[i] == #[trigger] want[i] by {
            assert(gpt@.partitions[i] == gpt.partitions@[i]@);
        }
        assert(new_gpt@.partitions =~= want);
    }
    finalize_gpt_crcs(&mut new_gpt);
    Ok(new_gpt)
}

/// The writes that put an updated partition table on the disk: of the GPT where
/// there is one, else of the MBR.
pub open spec fn table_update_writes(
    m: MbrView,
    g: Option<GptView>,
    part2_start: int,
    guid: Seq<u8>,
) -> std::result::Result<Seq<WriteView>, ErrorView> {
    match g {
        Some(g) => match updated_gpt(g, part2_start, guid) {
            Ok(n) => Ok(disk_layout::gpt_writes(n)),
            Err(e) => Err(e),
        },
        None => match updated_mbr(m, part2_start) {
            Ok(n) => Ok(seq![disk_io::write_at(0, disk_layout::mbr_bytes(n))]),
            Err(e) => Err(e),
        },
    }
}

pub open spec fn opt_gpt(g: Option<&GptInfo>) -> Option<GptView> {
    match g {
        Some(g) => Some(g@),
        None => None,
    }
}

pub open spec fn writes_result(r: Result<Vec<DiskWrite>>) -> std::result::Result<
    Seq<WriteView>,
    ErrorView,
> {
    match r {
        Ok(w) => Ok(disk_io::views(w@)),
        Err(e) => Err(e@),
    }
}

/// Whether partition 2 can be put in the partition table of a disk.
pub open spec fn can_update(m: MbrView, g: Option<GptView>, part2_start: int) -> bool {
    match g {
        Some(g) => {
            &&& gpt_can_take(g, part2_start)
            &&& free_gpt_slot(g.partitions, 1) is Some ==> disk_layout::addressable(g.header)
        },
        None => mbr_can_take(m, part2_start),
    }
}

/// The writes that put an updated partition table on the disk.
pub fn update_partition_table(
    mbr: &Mbr,
    gpt: Option<&GptInfo>,
    part2_start_sector: u64,
    guid: Guid,
) -> (r: Result<Vec<DiskWrite>>)
    requires
        can_update(mbr@, opt_gpt(gpt), part2_start_sector as int),
    ensures
        writes_result(r) == table_update_writes(
            mbr@,
            opt_gpt(gpt),
            part2_start_sector as int,
            guid@,
        ),
{
    match gpt {
        Some(g) => match update_gpt_partition_table_f(g, part2_start_sector, guid) {
            Ok(n) => Ok(n.write_to_disk()),
            Err(e) => Err(e),
        },
        None => match update_mbr_partition_table_f(mbr, part2_start_sector) {
            Ok(n) => {
                let mut out: Vec<DiskWrite> = Vec::new();
                push_write(&mut out, 0, n.write());
                assert(disk_io::views(out@) =~= seq![
                    disk_io::write_at(0, disk_layout::mbr_bytes(n@)),
                ]);
                Ok(out)
            },
            Err(e) => Err(e),
        },
    }
}

/// All writes of a non-destructive installation before its EFI partition is
/// formatted: the partition table, the boot images and a GUID for the disk.
pub open spec fn non_destructive_writes(
    m: MbrView,
    g: Option<GptView>,
    part2_start: int,
    part_guid: Seq<u8>,
    disk_guid: Seq<u8>,
    boot: Seq<u8>,
    core: Seq<u8>,
) -> std::result::Result<Seq<WriteView>, ErrorView> {
    match table_update_writes(m, g, part2_start, part_guid) {
        Err(e) => Err(e),
        Ok(w) => Ok(
            w + installer::boot_image_writes(g is Some, boot, core) + installer::guid_writes(
                disk_guid,
            ),
        ),
    }
}

pub fn write_non_destructive(
    mbr: &Mbr,
    gpt: Option<&GptInfo>,
    part2_start_sector: u64,
    part_guid: Guid,
    disk_guid: Guid,
    images: &BootImages,
) -> (r: Result<Vec<DiskWrite>>)
    requires
        can_update(mbr@, opt_gpt(gpt), part2_start_sector as int),
    ensures
        writes_result(r) == non_destructive_writes(
            mbr@,
            opt_gpt(gpt),
            part2_start_sector as int,
            part_guid@,
            disk_guid@,
            images.boot@,
            images.core@,
        ),
{
    match update_partition_table(mbr, gpt, part2_start_sector, part_guid) {
        Err(e) => Err(e),
        Ok(w) => {
            let mut out: Vec<DiskWrite> = w;
            append_writes(&mut out, write_boot_images(gpt.is_some(), images));
            push_guid(&mut out, &disk_guid);
            Ok(out)
        },
    }
}

// ---------------------------------------------------------------------------
// GPT attributes
// ---------------------------------------------------------------------------

/// Whether partition 2 of a GPT is Choosable's by its name, but without its
/// attributes.
pub open spec fn lacks_attributes(g: GptView) -> bool {
    let e = g.partitions[1];
    e.name.take(4) == seq![0x43u16, 0x5A, 0x42, 0x4C] && e.attributes != GPT_ATTR_VTOYEFI
}

/// A GPT with the attributes of partition 2, and its checksums.
pub open spec fn with_attributes(g: GptView) -> GptView {
    let e = GptEntryView { attributes: GPT_ATTR_VTOYEFI, ..g.partitions[1] };
    installer::finalized(GptView { partitions: g.partitions.update(1, e), ..g })
}

/// The writes of a GPT with a header of its own for the end of the disk.
pub open spec fn full_gpt_writes(g: GptView) -> Seq<WriteView> {
    disk_layout::gpt_writes(g) + seq![
        disk_io::write_at(
            g.header.efi_backup_lba * 512,
            disk_layout::header_front(installer::backup_header(g.header)),
        ),
        disk_io::write_at(
            (g.header.efi_backup_lba - 32) * 512,
            disk_layout::table_bytes(g.partitions),
        ),
    ]
}

/// The writes that give partition 2 its attributes, if it lacks them.
pub fn fix_gpt_attributes(gpt: &GptInfo) -> (r: Option<Vec<DiskWrite>>)
    requires
        lacks_attributes(gpt@) ==> gpt@.header.header_size <= 512 && disk_layout::addressable(
            gpt@.header,
        ),
    ensures
        match r {
            Some(w) => lacks_attributes(gpt@) && disk_io::views(w@) == full_gpt_writes(
                with_attributes(gpt@),
            ),
            None => !lacks_attributes(gpt@),
        },
{
    let mut entry: GptPartitionEntry = gpt.partitions[1];
    assert(gpt@.partitions[1] == entry@);
    let named: bool = entry.name[0] == 0x43 && entry.name[1] == 0x5A && entry.name[2] == 0x42
        && entry.name[3] == 0x4C;
    proof {
        let n = entry.name@.take(4);
        if named {
            assert(n =~= seq![0x43u16, 0x5A, 0x42, 0x4C]);
        } else {
            assert(n[0] == entry.name@[0] && n[1] == entry.name@[1] && n[2] == entry.name@[2]
                && n[3] == entry.name@[3]);
        }
    }
    if !named || entry.attributes == GPT_ATTR_VTOYEFI {
        return None;
    }
    entry.attributes = GPT_ATTR_VTOYEFI;
    let mut fixed: GptInfo = *gpt;
    fixed.partitions[1] = entry;
    proof {
        let want = gpt@.partitions.update(
            1,
            GptEntryView { attributes: GPT_ATTR_VTOYEFI, ..gpt@.partitions[1] },
        );
        assert forall|i: int| 0 <= i < 128 implies fixed@.partitions[i] == #[trigger] want[i] by {
            assert(gpt@.partitions[i] == gpt.partitions@[i]@);
        }
        assert(fixed@.partitions =~= want);
    }
    finalize_gpt_crcs(&mut fixed);
    let backup: GptHeader = make_backup_gpt_header(&fixed);
    let mut out: Vec<DiskWrite> = fixed.write_to_disk();
    push_write(&mut out, fixed.header.efi_backup_lba * 512, backup.write());
    push_write(
        &mut out,
        (fixed.header.efi_backup_lba - 32) * 512,
        write_table(&fixed.partitions),
    );
    assert(disk_io::views(out@) =~= full_gpt_writes(with_attributes(gpt@)));
    Some(out)
}

// ---------------------------------------------------------------------------
// Updating
// ---------------------------------------------------------------------------

/// The sectors behind the core image that an update leaves alone.
pub const RESERVED_OFFSET: u64 = 1044480;

pub const RESERVED_BYTES: usize = 4096;

/// Whether the second partition is marked as the one to boot from, and not the
/// first.
pub open spec fn wrong_active(m: MbrView) -> bool {
    m.partitions[0].active == PART_INACTIVE && m.partitions[1].active == PART_ACTIVE
}

/// The writes that mark the first partition as the one to boot from.
pub open spec fn active_writes(m: MbrView) -> Seq<WriteView> {
    if wrong_active(m) {
        seq![
            disk_io::write_at(446, seq![PART_ACTIVE]),
            disk_io::write_at(462, seq![PART_INACTIVE]),
        ]
    } else {
        Seq::empty()
    }
}

/// The writes of an update. What is read beforehand goes back to its place: the
/// disk's GUID, and the reserved sectors.
pub open spec fn update_writes(
    m: MbrView,
    disk_guid: Seq<u8>,
    reserved: Seq<u8>,
    boot: Seq<u8>,
    core: Seq<u8>,
) -> Seq<WriteView> {
    let is_gpt = disk_layout::is_protective(m);
    let boot_code = seq![
        disk_io::write_at(0, installer::capped(boot, BOOT_CODE_SIZE as int)),
        disk_io::write_at(384, disk_guid),
    ];
    let active = if is_gpt {
        Seq::empty()
    } else {
        active_writes(m)
    };
    boot_code + active + installer::core_writes(is_gpt, core) + seq![
        disk_io::write_at(RESERVED_OFFSET as int, reserved),
    ]
}

/// The writes of an update.
pub fn write_update(mbr: &Mbr, disk_guid: &Guid, reserved: &[u8], images: &BootImages) -> (r: Vec<
    DiskWrite,
>)
    requires
        reserved@.len() == RESERVED_BYTES,
    ensures
        disk_io::views(r@) == update_writes(
            mbr@,
            disk_guid@,
            reserved@,
            images.boot@,
            images.core@,
        ),
{
    let is_gpt: bool = mbr.is_gpt_protective();
    let mut out: Vec<DiskWrite> = Vec::new();
    push_write(&mut out, 0, cap(images.boot, BOOT_CODE_SIZE));
    push_write(&mut out, 384, slice_vec(disk_guid, 0, 16));
    assert(disk_guid@.subrange(0, 16) =~= disk_guid@);
    if !is_gpt && mbr.part1_active() == PART_INACTIVE && mbr.part2_active() == PART_ACTIVE {
        let mut on: Vec<u8> = Vec::new();
        on.push(PART_ACTIVE);
        push_write(&mut out, 446, on);
        let mut off: Vec<u8> = Vec::new();
        off.push(PART_INACTIVE);
        push_write(&mut out, 462, off);
    }
    push_core(&mut out, is_gpt, images);
    push_write(&mut out, RESERVED_OFFSET, slice_vec(reserved, 0, reserved.len()));
    assert(reserved@.subrange(0, reserved@.len() as int) =~= reserved@);
    assert(disk_io::views(out@) =~= update_writes(
        mbr@,
        disk_guid@,
        reserved@,
        images.boot@,
        images.core@,
    ));
    out
}

} // verus!
