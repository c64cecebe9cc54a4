//! What changing a disk that is in use leaves alone, and what it puts where.

use vstd::prelude::*;
use crate::bytes;
use crate::disk_io;
use crate::disk_io::WriteView;
use crate::disk_layout;
use crate::disk_layout::{GptEntryView, GptView, MbrView, PartitionTableEntry};
use crate::error::ErrorView;
use crate::installer;
use crate::partition_update;
use crate::partition_update::Survey;

verus! {

// ---------------------------------------------------------------------------
// Room behind partition 1
// ---------------------------------------------------------------------------

/// What follows partition 1 on a disk with an MBR is the nearest of the other
/// partitions, or the end of the disk where none lies before it.
pub proof fn nearest_mbr_partition_follows(p: Seq<PartitionTableEntry>, i: int, end: int)
    requires
        p.len() == 4,
        0 <= i <= 4,
    ensures
        ({
            let next = partition_update::mbr_next_start(p, i, end);
            &&& next <= end
            &&& forall|k: int|
                i <= k < 4 && #[trigger] p[k].sector_count > 0 ==> next <= p[k].start_lba * 512
            &&& next == end || exists|k: int|
                i <= k < 4 && #[trigger] p[k].sector_count > 0 && next == p[k].start_lba * 512
        }),
    decreases 4 - i,
{
    if i < 4 {
        if p[i].sector_count > 0 && p[i].start_lba * 512 < end {
            nearest_mbr_partition_follows(p, i + 1, p[i].start_lba * 512);
        } else {
            nearest_mbr_partition_follows(p, i + 1, end);
        }
    }
}

/// The same with a GPT, where a partition is one with a GUID.
pub proof fn nearest_gpt_partition_follows(p: Seq<GptEntryView>, i: int, end: u64)
    requires
        p.len() == 128,
        0 <= i <= 128,
    ensures
        ({
            let next = partition_update::gpt_next_start(p, i, end);
            &&& next <= end
            &&& forall|k: int|
                i <= k < 128 && #[trigger] p[k].unique_part_guid != bytes::zeros(16) ==> next
                    <= p[k].start_lba
            &&& next == end || exists|k: int|
                i <= k < 128 && #[trigger] p[k].unique_part_guid != bytes::zeros(16) && next
                    == p[k].start_lba
        }),
    decreases 128 - i,
{
    if i < 128 {
        if p[i].unique_part_guid != bytes::zeros(16) && p[i].start_lba < end {
            nearest_gpt_partition_follows(p, i + 1, p[i].start_lba);
        } else {
            nearest_gpt_partition_follows(p, i + 1, end);
        }
    }
}

/// A disk takes partition 2 beside its data if it has more than 33 MiB and its
/// partition 1 starts at 1 MiB. Where at least 32 MiB are free behind partition 1,
/// partition 2 starts right behind it, and partition 1 stays as large as it is;
/// else partition 1 gives up 32 MiB at its end, if it has more than that.
pub proof fn partition_2_goes_behind_the_data(s: Survey)
    requires
        partition_update::has_address(s),
    ensures
        ({
            let end = s.part1_start + s.part1_sectors;
            let fits = s.size_bytes / 512 > 67584 && s.part1_start == 2048;
            let free = end * 512 + 32 * 1048576 <= s.next_start;
            match partition_update::planned(s) {
                Ok(p) => {
                    &&& fits
                    &&& p.part2_start_sector % 8 == 0
                    &&& match p.shrink_to_mb {
                        None => free && end <= p.part2_start_sector < end + 8,
                        Some(mb) => {
                            &&& !free
                            &&& s.part1_sectors / 2048 > 32
                            &&& mb + 32 == s.part1_sectors / 2048
                            &&& end - 65536 <= p.part2_start_sector < end - 65536 + 8
                        },
                    }
                },
                Err(e) => {
                    &&& !fits || (!free && s.part1_sectors / 2048 <= 32)
                    &&& s.size_bytes / 512 <= 67584 <==> e == (ErrorView::DiskTooSmall {
                        required: 34603008,
                        available: s.size_bytes,
                    })
                },
            }
        }),
{
}

// ---------------------------------------------------------------------------
// The partition tables
// ---------------------------------------------------------------------------

proof fn first_free_mbr_slot(p: Seq<PartitionTableEntry>, i: int)
    requires
        0 <= i <= 4,
    ensures
        match partition_update::free_mbr_slot(p, i) {
            Some(k) => i <= k < 4 && p[k].sector_count == 0 && forall|j: int|
                i <= j < k ==> #[trigger] p[j].sector_count > 0,
            None => forall|j: int| i <= j < 4 ==> #[trigger] p[j].sector_count > 0,
        },
    decreases 4 - i,
{
    if i < 4 && p[i].sector_count != 0 {
        first_free_mbr_slot(p, i + 1);
    }
}

proof fn first_free_gpt_slot(p: Seq<GptEntryView>, i: int)
    requires
        0 <= i <= 128,
    ensures
        match partition_update::free_gpt_slot(p, i) {
            Some(k) => i <= k < 128 && p[k].unique_part_guid == bytes::zeros(16) && forall|j: int|
                i <= j < k ==> #[trigger] p[j].unique_part_guid != bytes::zeros(16),
            None => forall|j: int|
                i <= j < 128 ==> #[trigger] p[j].unique_part_guid != bytes::zeros(16),
        },
    decreases 128 - i,
{
    if i < 128 && p[i].unique_part_guid != bytes::zeros(16) {
        first_free_gpt_slot(p, i + 1);
    }
}

/// In an MBR, partition 2 takes the first entry behind the first that is unused:
/// with 32 MiB, as an EFI partition that is not booted from. Partition 1 then
/// reaches from 1 MiB up to it, and is booted from. The other entries, the boot
/// code and the signature stay. It is refused only where no entry is unused.
pub proof fn mbr_takes_partition_2(m: MbrView, part2_start: int)
    requires
        m.partitions.len() == 4,
        2048 <= part2_start <= 0xFFFF_FFFF - 65536,
    ensures
        match partition_update::updated_mbr(m, part2_start) {
            Ok(n) => exists|k: int|
                1 <= k < 4 && #[trigger] m.partitions[k].sector_count == 0 && {
                    &&& forall|j: int| 1 <= j < k ==> #[trigger] m.partitions[j].sector_count > 0
                    &&& n.partitions.len() == 4
                    &&& n.partitions[0].start_lba == 2048
                    &&& n.partitions[0].sector_count == part2_start - 2048
                    &&& n.partitions[0].active == 0x80
                    &&& n.partitions[0].fs_flag == 0x07
                    &&& n.partitions[k].start_lba == part2_start
                    &&& n.partitions[k].sector_count == 65536
                    &&& n.partitions[k].active == 0
                    &&& n.partitions[k].fs_flag == 0xEF
                    &&& forall|j: int|
                        1 <= j < 4 && j != k ==> #[trigger] n.partitions[j] == m.partitions[j]
                    &&& n.boot_code == m.boot_code
                    &&& n.signature_55 == m.signature_55
                    &&& n.signature_aa == m.signature_aa
                },
            Err(_) => forall|j: int| 1 <= j < 4 ==> #[trigger] m.partitions[j].sector_count > 0,
        },
{
    first_free_mbr_slot(m.partitions, 1);
    if let Some(k) = partition_update::free_mbr_slot(m.partitions, 1) {
        assert(m.partitions[k].sector_count == 0);
        assert(partition_update::entry_sector(part2_start) == part2_start);
    }
}

/// In a GPT likewise, where an entry is unused that has no GUID: partition 1 gets
/// a new end and keeps all else, and the header keeps all but its checksums.
pub proof fn gpt_takes_partition_2(g: GptView, part2_start: int, guid: Seq<u8>)
    requires
        g.partitions.len() == 128,
        1 <= part2_start <= u64::MAX - 65536,
    ensures
        match partition_update::updated_gpt(g, part2_start, guid) {
            Ok(n) => exists|k: int|
                1 <= k < 128 && #[trigger] g.partitions[k].unique_part_guid == bytes::zeros(16) && {
                    &&& forall|j: int|
                        1 <= j < k ==> #[trigger] g.partitions[j].unique_part_guid != bytes::zeros(
                            16,
                        )
                    &&& n.partitions.len() == 128
                    &&& n.partitions[0] == (GptEntryView {
                        end_lba: (part2_start - 1) as u64,
                        ..g.partitions[0]
                    })
                    &&& n.partitions[k].start_lba == part2_start
                    &&& n.partitions[k].end_lba == part2_start + 65535
                    &&& n.partitions[k].unique_part_guid == guid
                    &&& n.partitions[k].attributes == 0x8000_0000_0000_0000
                    &&& n.partitions[k].part_type_guid[0] == 0x28
                    &&& n.partitions[k].name.take(7) == seq![
                        0x43u16, 0x5A, 0x42, 0x4C, 0x45, 0x46, 0x49,
                    ]
                    &&& forall|j: int|
                        1 <= j < 128 && j != k ==> #[trigger] n.partitions[j] == g.partitions[j]
                    &&& n.mbr == g.mbr
                    &&& n.header.efi_start_lba == g.header.efi_start_lba
                    &&& n.header.efi_backup_lba == g.header.efi_backup_lba
                    &&& n.header.part_area_start_lba == g.header.part_area_start_lba
                    &&& n.header.part_area_end_lba == g.header.part_area_end_lba
                    &&& n.header.part_table_start_lba == g.header.part_table_start_lba
                    &&& n.header.disk_guid == g.header.disk_guid
                    &&& installer::checksums_right(n.header, n.partitions)
                },
            Err(_) => forall|j: int|
                1 <= j < 128 ==> #[trigger] g.partitions[j].unique_part_guid != bytes::zeros(16),
        },
{
    first_free_gpt_slot(g.partitions, 1);
    if let Some(k) = partition_update::free_gpt_slot(g.partitions, 1) {
        assert(g.partitions[k].unique_part_guid == bytes::zeros(16));
        let n = partition_update::updated_gpt(g, part2_start, guid)->Ok_0;
        assert(n.partitions[k].name.take(7) =~= seq![
            0x43u16, 0x5A, 0x42, 0x4C, 0x45, 0x46, 0x49,
        ]);
        installer::headers_have_right_checksums(
            GptView {
                partitions: n.partitions,
                ..g
            },
        );
    }
}

/// An attribute is put right in a partition 2 that is Choosable's by its name, and
/// only there; nothing else of the table changes.
pub proof fn only_the_attribute_changes(g: GptView)
    requires
        g.partitions.len() == 128,
        g.partitions[1].name.len() == 36,
    ensures
        partition_update::lacks_attributes(g) <==> {
            let e = g.partitions[1];
            &&& e.name[0] == 0x43
            &&& e.name[1] == 0x5A
            &&& e.name[2] == 0x42
            &&& e.name[3] == 0x4C
            &&& e.attributes != 0x8000_0000_0000_0000
        },
        ({
            let n = partition_update::with_attributes(g);
            &&& n.partitions.len() == 128
            &&& n.partitions[1] == (GptEntryView {
                attributes: 0x8000_0000_0000_0000,
                ..g.partitions[1]
            })
            &&& forall|j: int| 0 <= j < 128 && j != 1 ==> #[trigger] n.partitions[j] == g.partitions[j]
            &&& n.mbr == g.mbr
            &&& n.header.efi_backup_lba == g.header.efi_backup_lba
            &&& n.header.part_table_start_lba == g.header.part_table_start_lba
            &&& n.header.disk_guid == g.header.disk_guid
            &&& installer::checksums_right(n.header, n.partitions)
        }),
{
    let e = g.partitions[1];
    let four = seq![0x43u16, 0x5A, 0x42, 0x4C];
    if e.name[0] == 0x43 && e.name[1] == 0x5A && e.name[2] == 0x42 && e.name[3] == 0x4C {
        assert(e.name.take(4) =~= four);
    }
    if e.name.take(4) == four {
        assert(four[0] == e.name[0] && four[1] == e.name[1] && four[2] == e.name[2] && four[3]
            == e.name[3]);
    }
    let n = partition_update::with_attributes(g);
    installer::headers_have_right_checksums(GptView { partitions: n.partitions, ..g });
}

/// A GPT whose attributes were put right stands on the disk twice: at the front with
/// its header and table, and at the end with its table and a header that gives its
/// own place and that of its own table, with both checksums right.
pub proof fn mended_gpt_stands_twice(disk: Seq<u8>, g: GptView)
    requires
        disk_layout::gpt_wf(g),
        disk_layout::places_apart(g.header, disk.len() as int),
        g.header.header_size == 92,
    ensures
        ({
            let n = partition_update::with_attributes(g);
            let d = disk_io::applied(disk, partition_update::full_gpt_writes(n));
            let at = g.header.part_table_start_lba * 512;
            let end = g.header.efi_backup_lba * 512;
            let h = disk_layout::header_of(d.subrange(end, end + 92));
            &&& d.subrange(512, 604) == disk_layout::header_front(n.header)
            &&& d.subrange(at, at + 16384) == disk_layout::table_bytes(n.partitions)
            &&& d.subrange(end - 16384, end) == disk_layout::table_bytes(n.partitions)
            &&& h.efi_start_lba == g.header.efi_backup_lba
            &&& h.efi_backup_lba == g.header.efi_start_lba
            &&& h.part_table_start_lba == g.header.efi_backup_lba - 32
            &&& h.disk_guid == g.header.disk_guid
            &&& h.part_area_start_lba == g.header.part_area_start_lba
            &&& h.part_area_end_lba == g.header.part_area_end_lba
            &&& h.part_table_crc32 == n.header.part_table_crc32
        }),
{
    let n = partition_update::with_attributes(g);
    let w = partition_update::full_gpt_writes(n);
    let at = g.header.part_table_start_lba * 512;
    let end = g.header.efi_backup_lba * 512;
    assert forall|i: int| 0 <= i < n.partitions.len() implies disk_layout::gpt_entry_wf(
        #[trigger] n.partitions[i],
    ) by {
        assert(disk_layout::gpt_entry_wf(g.partitions[i]));
    }
    let b = installer::backup_header(n.header);
    disk_layout::mbr_round_trip(n.mbr);
    disk_layout::header_round_trip(n.header);
    disk_layout::header_round_trip(b);
    disk_layout::table_round_trip(n.partitions);
    assert(w.len() == 7);
    assert(w[1] == disk_io::write_at(512, disk_layout::header_front(n.header)));
    assert(w[2] == disk_io::write_at(at, disk_layout::table_bytes(n.partitions)));
    assert(w[3] == disk_io::write_at(end, disk_layout::header_front(n.header)));
    assert(w[4] == disk_io::write_at(end - 16384, disk_layout::table_bytes(n.partitions)));
    assert(w[5] == disk_io::write_at(end, disk_layout::header_front(b)));
    assert(w[6] == disk_io::write_at(end - 16384, disk_layout::table_bytes(n.partitions)));
    later_spare(w, 1, 512, 604);
    later_spare(w, 2, at, at + 16384);
    later_spare(w, 5, end, end + 92);
    later_spare(w, 6, end - 16384, end);
    disk_io::written_stays(disk, w, 1);
    disk_io::written_stays(disk, w, 2);
    disk_io::written_stays(disk, w, 5);
    disk_io::written_stays(disk, w, 6);
}

proof fn later_spare(w: Seq<WriteView>, k: int, from: int, to: int)
    requires
        0 <= k < w.len(),
        forall|i: int| k < i < w.len() ==> disk_io::spares(#[trigger] w[i], from, to),
    ensures
        disk_io::all_spare(w.skip(k + 1), from, to),
{
    let t = w.skip(k + 1);
    assert forall|i: int| 0 <= i < t.len() implies disk_io::spares(#[trigger] t[i], from, to) by {
        assert(t[i] == w[i + k + 1]);
    }
}

// ---------------------------------------------------------------------------
// Boot images
// ---------------------------------------------------------------------------

/// Where the core image starts on a disk, and how much of it there is room for.
pub open spec fn core_place(is_gpt: bool) -> (int, int) {
    if is_gpt {
        (17408, 1031168)
    } else {
        (512, 1048064)
    }
}

/// What stands at a place of a disk once the boot images were put on it. With a
/// GPT, two bytes tell where the core image starts.
pub open spec fn imaged(disk: Seq<u8>, is_gpt: bool, boot: Seq<u8>, core: Seq<u8>, i: int) -> u8 {
    let (at, room) = core_place(is_gpt);
    if is_gpt && i == 17908 {
        0x23
    } else if at <= i < at + room && i < at + core.len() {
        core[i - at]
    } else if is_gpt && i == 92 {
        0x22
    } else if i < 440 && i < boot.len() {
        boot[i]
    } else {
        disk[i]
    }
}

/// The boot code takes the front of a disk, up to 440 bytes of it, and the core
/// image its place behind the partition table; all else stays.
pub proof fn boot_images_are_in_place(disk: Seq<u8>, is_gpt: bool, boot: Seq<u8>, core: Seq<u8>)
    requires
        disk.len() >= 1048576,
    ensures
        ({
            let d = disk_io::applied(disk, installer::boot_image_writes(is_gpt, boot, core));
            &&& d.len() == disk.len()
            &&& forall|i: int|
                0 <= i < disk.len() ==> #[trigger] d[i] == imaged(disk, is_gpt, boot, core, i)
        }),
{
    let w = installer::boot_image_writes(is_gpt, boot, core);
    let d0 = bytes::overlay(disk, 0, w[0].data);
    let d1 = bytes::overlay(d0, w[1].at, w[1].data);
    applied_front(disk, w);
    if is_gpt {
        let d2 = bytes::overlay(d1, w[2].at, w[2].data);
        let d3 = bytes::overlay(d2, w[3].at, w[3].data);
    }
}

proof fn applied_front(disk: Seq<u8>, w: Seq<WriteView>)
    requires
        2 <= w.len() <= 4,
    ensures
        ({
            let d1 = bytes::overlay(bytes::overlay(disk, w[0].at, w[0].data), w[1].at, w[1].data);
            let d2 = bytes::overlay(d1, w[2].at, w[2].data);
            let d3 = bytes::overlay(d2, w[3].at, w[3].data);
            &&& w.len() == 2 ==> disk_io::applied(disk, w) == d1
            &&& w.len() == 3 ==> disk_io::applied(disk, w) == d2
            &&& w.len() == 4 ==> disk_io::applied(disk, w) == d3
        }),
{
    reveal_with_fuel(disk_io::applied, 6);
}

/// An update renews the boot code, but for the disk's GUID, and the core image,
/// but for the reserved sectors before partition 1.
pub proof fn update_renews_the_images(
    disk: Seq<u8>,
    m: MbrView,
    guid: Seq<u8>,
    reserved: Seq<u8>,
    boot: Seq<u8>,
    core: Seq<u8>,
)
    requires
        disk.len() >= 1048576,
        m.partitions.len() == 4,
        guid.len() == 16,
        reserved.len() == 4096,
        boot.len() >= 440,
    ensures
        ({
            let is_gpt = m.partitions[0].fs_flag == 0xEE;
            let w = partition_update::update_writes(m, guid, reserved, boot, core);
            let d = disk_io::applied(disk, w);
            let (at, room) = core_place(is_gpt);
            &&& forall|i: int|
                (0 <= i < 384 || 400 <= i < 440) && !(is_gpt && i == 92) ==> #[trigger] d[i]
                    == boot[i]
            &&& is_gpt ==> d[92] == 0x22 && d[17908] == 0x23
            &&& d.subrange(384, 400) == guid
            &&& forall|i: int|
                at <= i < 1044480 && i < at + core.len() && !(is_gpt && i == 17908) ==> #[trigger] d[i]
                    == core[i - at]
            &&& d.subrange(1044480, 1048576) == reserved
            &&& !is_gpt ==> {
                let swapped = m.partitions[0].active == 0 && m.partitions[1].active == 0x80;
                &&& d[446] == (if swapped {
                    0x80
                } else {
                    disk[446]
                })
                &&& d[462] == (if swapped {
                    0
                } else {
                    disk[462]
                })
            }
        }),
{
    let is_gpt = m.partitions[0].fs_flag == 0xEE;
    let w = partition_update::update_writes(m, guid, reserved, boot, core);
    let d = disk_io::applied(disk, w);
    let n = w.len() as int;
    disk_io::applied_len(disk, w);
    let cored = installer::core_writes(is_gpt, core);
    let front = w.take(n - 1 - cored.len());
    let last = seq![disk_io::write_at(1044480, reserved)];
    assert(w =~= front + cored + last);
    disk_io::applied_in_turn(disk, front + cored, last);
    disk_io::applied_in_turn(disk, front, cored);
    let a = disk_io::applied(disk, front);
    let b = disk_io::applied(a, cored);
    disk_io::applied_len(disk, front);
    disk_io::applied_len(a, cored);
    assert(d == bytes::overlay(b, 1044480, reserved)) by {
        reveal_with_fuel(disk_io::applied, 2);
    }
    assert(d.subrange(1044480, 1048576) =~= reserved);
    core_applied(a, is_gpt, core);
    assert(front =~= seq![
        disk_io::write_at(0, installer::capped(boot, 440)),
        disk_io::write_at(384, guid),
    ] + (if is_gpt {
        Seq::empty()
    } else {
        partition_update::active_writes(m)
    }));
    front_applied(disk, m, guid, boot, front);
    assert(d.subrange(384, 400) =~= guid);
}

proof fn core_applied(a: Seq<u8>, is_gpt: bool, core: Seq<u8>)
    requires
        a.len() >= 1048576,
    ensures
        ({
            let b = disk_io::applied(a, installer::core_writes(is_gpt, core));
            let (at, room) = core_place(is_gpt);
            &&& b.len() == a.len()
            &&& forall|i: int|
                at <= i < at + room && i < at + core.len() && !(is_gpt && i == 17908)
                    ==> #[trigger] b[i] == core[i - at]
            &&& is_gpt ==> b[92] == 0x22 && b[17908] == 0x23
            &&& forall|i: int| 0 <= i < 512 && !(is_gpt && i == 92) ==> #[trigger] b[i] == a[i]
        }),
{
    reveal_with_fuel(disk_io::applied, 4);
    let w = installer::core_writes(is_gpt, core);
    if is_gpt {
        assert(w.drop_last().drop_last() =~= seq![w[0]]);
        assert(w.drop_last().drop_last().drop_last() =~= Seq::empty());
        let x = bytes::overlay(a, 92, seq![0x22u8]);
        let y = bytes::overlay(x, 17408, w[1].data);
        assert(disk_io::applied(a, w) == bytes::overlay(y, 17908, seq![0x23u8]));
    } else {
        assert(w.drop_last() =~= Seq::empty());
        assert(disk_io::applied(a, w) == bytes::overlay(a, 512, w[0].data));
    }
}

proof fn front_applied(disk: Seq<u8>, m: MbrView, guid: Seq<u8>, boot: Seq<u8>, front: Seq<WriteView>)
    requires
        disk.len() >= 1048576,
        guid.len() == 16,
        boot.len() >= 440,
        front == seq![
            disk_io::write_at(0, installer::capped(boot, 440)),
            disk_io::write_at(384, guid),
        ] + (if m.partitions[0].fs_flag == 0xEE {
            Seq::empty()
        } else {
            partition_update::active_writes(m)
        }),
    ensures
        ({
            let a = disk_io::applied(disk, front);
            let swapped = m.partitions[0].active == 0 && m.partitions[1].active == 0x80;
            &&& forall|i: int| (0 <= i < 384 || 400 <= i < 440) ==> #[trigger] a[i] == boot[i]
            &&& forall|i: int| 384 <= i < 400 ==> #[trigger] a[i] == guid[i - 384]
            &&& m.partitions[0].fs_flag != 0xEE ==> a[446] == (if swapped {
                0x80
            } else {
                disk[446]
            }) && a[462] == (if swapped {
                0
            } else {
                disk[462]
            })
        }),
{
    applied_front(disk, front);
    let x = bytes::overlay(bytes::overlay(disk, 0, front[0].data), 384, guid);
    if front.len() == 4 {
        let y = bytes::overlay(x, 446, seq![0x80u8]);
        let z = bytes::overlay(y, 462, seq![0u8]);
        assert(disk_io::applied(disk, front) == z);
    } else {
        assert(front.len() == 2);
    }
}

} // verus!
