//! What installing and updating make of a disk.

use vstd::prelude::*;
use crate::bytes;
use crate::constants::{
    BOOT_CODE_SIZE, CHOOSABLE_PART1_START_SECTOR, GPT_ATTR_VTOYEFI, GPT_PART1_NAME,
    GPT_SIGNATURE, MBR_SIGNATURE_55, MBR_SIGNATURE_AA, SECTOR_SIZE, SIZE_1TB,
};
use crate::disk;
use crate::disk::Detected;
use crate::disk_io;
use crate::disk_io::WriteView;
use crate::disk_layout;
use crate::disk_layout::{GptEntryView, GptView, MbrView, PartitionTableEntry};
use crate::error::ErrorView;
use crate::installer;
use crate::installer::InstallOptions;
use crate::partition_update;

verus! {

// ---------------------------------------------------------------------------
// What detection depends on
// ---------------------------------------------------------------------------

/// Whether two first sectors agree in all of their partition tables but which
/// partitions are active, and in their signatures.
pub open spec fn same_but_active(a: Seq<u8>, b: Seq<u8>) -> bool {
    &&& a.subrange(447, 462) == b.subrange(447, 462)
    &&& a.subrange(463, 512) == b.subrange(463, 512)
}

proof fn entry_same_but_active(a: Seq<u8>, b: Seq<u8>, at: int)
    requires
        a.len() == 512,
        b.len() == 512,
        at == 446 || at == 462,
        same_but_active(a, b),
    ensures
        disk_layout::entry_at(a, at) == (PartitionTableEntry {
            active: a[at],
            ..disk_layout::entry_at(b, at)
        }),
{
    assert forall|k: int| at + 1 <= k < at + 16 implies a[k] == b[k] by {
        if at == 446 {
            assert(a.subrange(447, 462)[k - 447] == b.subrange(447, 462)[k - 447]);
        } else {
            assert(a.subrange(463, 512)[k - 463] == b.subrange(463, 512)[k - 463]);
        }
    }
}

proof fn mbr_same_but_active(a: Seq<u8>, b: Seq<u8>)
    requires
        a.len() == 512,
        b.len() == 512,
        same_but_active(a, b),
    ensures
        disk_layout::has_signature(a) == disk_layout::has_signature(b),
        disk_layout::is_protective(disk_layout::mbr_of(a)) == disk_layout::is_protective(
            disk_layout::mbr_of(b),
        ),
        disk::mbr_detect(disk_layout::mbr_of(a)) == disk::mbr_detect(disk_layout::mbr_of(b)),
        a[510] == b[510],
        a[511] == b[511],
{
    entry_same_but_active(a, b, 446);
    entry_same_but_active(a, b, 462);
    assert(a.subrange(463, 512)[47] == b.subrange(463, 512)[47]);
    assert(a.subrange(463, 512)[48] == b.subrange(463, 512)[48]);
    reveal(disk_layout::mbr_of);
    assert(disk_layout::mbr_of(a).partitions[0] == disk_layout::entry_at(a, 446));
    assert(disk_layout::mbr_of(a).partitions[1] == disk_layout::entry_at(a, 462));
    assert(disk_layout::mbr_of(b).partitions[0] == disk_layout::entry_at(b, 446));
    assert(disk_layout::mbr_of(b).partitions[1] == disk_layout::entry_at(b, 462));
}

/// Whether writes leave the partition tables of a disk alone, but for which
/// partitions are active.
pub open spec fn spare_tables(disk: Seq<u8>, w: Seq<WriteView>) -> bool {
    &&& disk_io::all_spare(w, 447, 462)
    &&& disk_io::all_spare(w, 463, 512)
    &&& disk_layout::is_protective(disk_layout::mbr_of(disk.subrange(0, 512))) ==> {
        let at = disk_layout::sector_at(
            disk_layout::header_of(disk.subrange(512, 604)).part_table_start_lba,
        ) as int;
        &&& disk_io::all_spare(w, 512, 604)
        &&& disk_io::all_spare(w, at, at + 16384)
        &&& at + 16384 <= disk.len()
    }
}

/// Writes that leave the partition tables alone do not change whether
/// Choosable is detected.
pub proof fn detection_is_kept(disk: Seq<u8>, w: Seq<WriteView>)
    requires
        disk.len() >= 604,
        spare_tables(disk, w),
    ensures
        match disk::detected(disk) {
            Ok(d) => disk::detected(disk_io::applied(disk, w)) == Ok::<
                Option<Detected>,
                ErrorView,
            >(d),
            Err(_) => disk::detected(disk_io::applied(disk, w)) is Err,
        },
{
    let after = disk_io::applied(disk, w);
    disk_io::spared_stays(disk, w, 447, 462);
    disk_io::spared_stays(disk, w, 463, 512);
    let a = after.subrange(0, 512);
    let b = disk.subrange(0, 512);
    assert(a.subrange(447, 462) =~= after.subrange(447, 462));
    assert(b.subrange(447, 462) =~= disk.subrange(447, 462));
    assert(a.subrange(463, 512) =~= after.subrange(463, 512));
    assert(b.subrange(463, 512) =~= disk.subrange(463, 512));
    mbr_same_but_active(a, b);
    if disk_layout::is_protective(disk_layout::mbr_of(b)) {
        let at = disk_layout::sector_at(
            disk_layout::header_of(disk.subrange(512, 604)).part_table_start_lba,
        ) as int;
        disk_io::spared_stays(disk, w, 512, 604);
        disk_io::spared_stays(disk, w, at, at + 16384);
    }
}

// ---------------------------------------------------------------------------
// A new installation
// ---------------------------------------------------------------------------

/// The MBR of a new installation.
pub open spec fn installed_mbr(boot: Seq<u8>, guid: Seq<u8>, p2: int) -> MbrView {
    MbrView {
        boot_code: installer::marked_code(boot, guid),
        partitions: seq![
            installer::mbr_data_entry(p2),
            installer::mbr_efi_entry(p2),
            disk_layout::empty_entry(),
            disk_layout::empty_entry(),
        ],
        signature_55: MBR_SIGNATURE_55,
        signature_aa: MBR_SIGNATURE_AA,
    }
}

/// Choosable is detected on a disk that it was installed to with an MBR, and
/// partition 2 is found where it was put.
pub proof fn mbr_install_is_detected(
    disk: Seq<u8>,
    o: InstallOptions,
    guid: Seq<u8>,
    guid1: Seq<u8>,
    guid2: Seq<u8>,
    boot: Seq<u8>,
    core: Seq<u8>,
)
    requires
        !o.use_gpt,
        installer::has_room((disk.len() / 512) as int, o.reserve_space_mb as int),
        disk.len() <= 2 * SIZE_1TB,
        guid.len() == 16,
    ensures
        ({
            let total = (disk.len() / 512) as int;
            let w = installer::install_writes(total, o, guid, guid1, guid2, boot, core);
            disk::detected(disk_io::applied(disk, w)) == Ok::<Option<Detected>, ErrorView>(
                Some(
                    Detected {
                        part2_start: (installer::part2_start(total, o) * SECTOR_SIZE) as u64,
                        gpt_attr: None,
                    },
                ),
            )
        }),
{
    let total = (disk.len() / 512) as int;
    let w = installer::install_writes(total, o, guid, guid1, guid2, boot, core);
    let p2 = installer::part2_start(total, o);
    installer::mbr_part2_bounds(total, o.reserve_space_mb as int);
    let m = installed_mbr(boot, guid, p2);
    disk_layout::mbr_round_trip(m);
    assert(w[1].data == disk_layout::mbr_bytes(m));
    assert(w.skip(2) =~= seq![w[2]]);
    disk_io::written_stays(disk, w, 1);
    let s = disk_io::applied(disk, w).subrange(0, 512);
    assert(s == disk_layout::mbr_bytes(m));
    assert(m.partitions[0] == installer::mbr_data_entry(p2));
    assert(m.partitions[1] == installer::mbr_efi_entry(p2));
}

/// The partitions of a new installation lie one behind the other on the disk,
/// aligned to 4 KiB, and leave free at its end what was to stay free, and with
/// a GPT the room for its second header and table. With a GPT and hardly any
/// room beside what is to stay free, partition 1 comes out empty.
pub proof fn partitions_are_laid_out(total: int, o: InstallOptions)
    requires
        installer::has_room(total, o.reserve_space_mb as int),
    ensures
        ({
            let p2 = installer::part2_start(total, o);
            let tail = if o.use_gpt {
                34int
            } else {
                0
            };
            &&& CHOOSABLE_PART1_START_SECTOR % 8 == 0
            &&& p2 % 8 == 0
            &&& p2 + 65536 + o.reserve_space_mb * 2048 + tail <= total
            &&& (!o.use_gpt || total >= 67656 + o.reserve_space_mb * 2048)
                ==> CHOOSABLE_PART1_START_SECTOR <= p2
        }),
{
    installer::mbr_part2_bounds(total, o.reserve_space_mb as int);
    installer::gpt_part2_bounds(total, o.reserve_space_mb as int);
}

/// The table of a new GPT is at sector 2 and its second header at the last sector.
pub proof fn header_of_install(total: int, o: InstallOptions, guid: Seq<u8>, guid1: Seq<u8>, guid2: Seq<u8>)
    requires
        installer::has_room(total, o.reserve_space_mb as int),
        total <= 0x80_0000_0000_0000,
        guid.len() == 16,
        guid1.len() == 16,
        guid2.len() == 16,
    ensures
        ({
            let g = installer::installed_gpt(
                total,
                o.reserve_space_mb as int,
                guid,
                guid1,
                guid2,
            );
            &&& disk_layout::gpt_wf(g)
            &&& g.header.part_table_start_lba == 2
            &&& g.header.efi_backup_lba == total - 1
            &&& g.header.signature == GPT_SIGNATURE@
            &&& g.header.reserved2 == bytes::zeros(420)
            &&& g.mbr == disk_layout::protective_mbr()
        }),
{
    let g = installer::installed_gpt(total, o.reserve_space_mb as int, guid, guid1, guid2);
    assert(GPT_PART1_NAME@.len() == 36);
    assert(disk_layout::table_wf(g.partitions));
}

proof fn boot_code_overlaid(m: MbrView, at: int, b: Seq<u8>)
    requires
        disk_layout::mbr_wf(m),
        0 <= at,
        at + b.len() <= 446,
    ensures
        bytes::overlay(disk_layout::mbr_bytes(m), at, b) == disk_layout::mbr_bytes(
            MbrView { boot_code: bytes::overlay(m.boot_code, at, b), ..m },
        ),
        disk_layout::mbr_wf(MbrView { boot_code: bytes::overlay(m.boot_code, at, b), ..m }),
{
    reveal(disk_layout::mbr_bytes);
    assert(bytes::overlay(disk_layout::mbr_bytes(m), at, b) =~= disk_layout::mbr_bytes(
        MbrView { boot_code: bytes::overlay(m.boot_code, at, b), ..m },
    ));
}

/// A write into the first sector leaves all else alone.
proof fn first_sector_written(disk: Seq<u8>, at: int, b: Seq<u8>, from: int, to: int)
    requires
        512 <= disk.len(),
        0 <= at,
        at + b.len() <= 512,
        512 <= from <= to <= disk.len(),
    ensures
        bytes::overlay(disk, at, b).subrange(0, 512) == bytes::overlay(disk.subrange(0, 512), at, b),
        bytes::overlay(disk, at, b).subrange(from, to) == disk.subrange(from, to),
{
    assert(bytes::overlay(disk, at, b).subrange(0, 512) =~= bytes::overlay(
        disk.subrange(0, 512),
        at,
        b,
    ));
    assert(bytes::overlay(disk, at, b).subrange(from, to) =~= disk.subrange(from, to));
}

/// Three writes, one after another.
proof fn applied_three(disk: Seq<u8>, a: WriteView, b: WriteView, c: WriteView)
    ensures
        disk_io::applied(disk, seq![a, b, c]) == bytes::overlay(
            bytes::overlay(bytes::overlay(disk, a.at, a.data), b.at, b.data),
            c.at,
            c.data,
        ),
{
    assert(seq![a, b, c].drop_last() =~= seq![a, b]);
    assert(seq![a, b].drop_last() =~= seq![a]);
    assert(seq![a].drop_last() =~= Seq::empty());
    assert(disk_io::applied(disk, Seq::empty()) == disk);
    assert(disk_io::applied(disk, seq![a]) == bytes::overlay(disk, a.at, a.data));
    assert(disk_io::applied(disk, seq![a, b]) == bytes::overlay(
        disk_io::applied(disk, seq![a]),
        b.at,
        b.data,
    ));
    assert(seq![a, b, c].last() == c);
}

/// A GUID that is written last stays.
proof fn guid_written_last(disk: Seq<u8>, front: Seq<WriteView>, guid: Seq<u8>)
    requires
        444 <= disk.len(),
        guid.len() == 16,
    ensures
        disk_io::applied(disk, front + installer::guid_writes(guid)).subrange(384, 400) == guid,
        disk_io::applied(disk, front + installer::guid_writes(guid)).subrange(440, 444)
            == guid.subrange(12, 16),
{
    let g = installer::guid_writes(guid);
    let d = disk_io::applied(disk, front);
    disk_io::applied_in_turn(disk, front, g);
    disk_io::applied_len(disk, front);
    assert(g.skip(1) =~= seq![g[1]]);
    assert(g.skip(2) =~= Seq::empty());
    disk_io::written_stays(d, g, 0);
    disk_io::written_stays(d, g, 1);
}

/// The boot code and the GUID on a disk with a GPT.
proof fn marked_front(disk: Seq<u8>, g: GptView, boot: Seq<u8>, guid: Seq<u8>)
    requires
        17408 <= disk.len(),
        g.mbr == disk_layout::protective_mbr(),
        disk.subrange(0, 512) == disk_layout::mbr_bytes(g.mbr),
        guid.len() == 16,
    ensures
        ({
            let d = disk_io::applied(
                disk,
                seq![
                    disk_io::write_at(0, installer::capped(boot, BOOT_CODE_SIZE as int)),
                    disk_io::write_at(384, guid),
                    disk_io::write_at(440, guid.subrange(12, 16)),
                ],
            );
            &&& d.subrange(0, 512) == disk_layout::mbr_bytes(
                MbrView { boot_code: installer::marked_code(boot, guid), ..g.mbr },
            )
            &&& disk_layout::mbr_wf(
                MbrView { boot_code: installer::marked_code(boot, guid), ..g.mbr },
            )
            &&& d.subrange(512, 604) == disk.subrange(512, 604)
            &&& d.subrange(1024, 17408) == disk.subrange(1024, 17408)
            &&& d.len() == disk.len()
        }),
{
    let code = installer::capped(boot, BOOT_CODE_SIZE as int);
    let tail = guid.subrange(12, 16);
    applied_three(
        disk,
        disk_io::write_at(0, code),
        disk_io::write_at(384, guid),
        disk_io::write_at(440, tail),
    );
    let d1 = bytes::overlay(disk, 0, code);
    let d2 = bytes::overlay(d1, 384, guid);
    let m1 = MbrView { boot_code: bytes::overlay(g.mbr.boot_code, 0, code), ..g.mbr };
    let m2 = MbrView { boot_code: bytes::overlay(m1.boot_code, 384, guid), ..m1 };
    boot_code_overlaid(g.mbr, 0, code);
    boot_code_overlaid(m1, 384, guid);
    boot_code_overlaid(m2, 440, tail);
    first_sector_written(disk, 0, code, 512, 604);
    first_sector_written(disk, 0, code, 1024, 17408);
    first_sector_written(d1, 384, guid, 512, 604);
    first_sector_written(d1, 384, guid, 1024, 17408);
    first_sector_written(d2, 440, tail, 512, 604);
    first_sector_written(d2, 440, tail, 1024, 17408);
}

/// A disk that Choosable was installed to with a GPT has that GPT, with its
/// checksums, and the boot code with the disk's GUID in front of its protective
/// MBR.
pub proof fn gpt_install_reads_back(
    disk: Seq<u8>,
    o: InstallOptions,
    guid: Seq<u8>,
    guid1: Seq<u8>,
    guid2: Seq<u8>,
    boot: Seq<u8>,
    core: Seq<u8>,
)
    requires
        o.use_gpt,
        installer::has_room((disk.len() / 512) as int, o.reserve_space_mb as int),
        disk.len() <= u64::MAX,
        guid.len() == 16,
        guid1.len() == 16,
        guid2.len() == 16,
    ensures
        ({
            let total = (disk.len() / 512) as int;
            let w = installer::install_writes(total, o, guid, guid1, guid2, boot, core);
            let g = installer::installed_gpt(
                total,
                o.reserve_space_mb as int,
                guid,
                guid1,
                guid2,
            );
            disk_layout::gpt_of(disk_io::applied(disk, w)) == Ok::<GptView, ErrorView>(
                GptView {
                    mbr: MbrView { boot_code: installer::marked_code(boot, guid), ..g.mbr },
                    ..g
                },
            )
        }),
{
    let total = (disk.len() / 512) as int;
    let w = installer::install_writes(total, o, guid, guid1, guid2, boot, core);
    let g = installer::installed_gpt(total, o.reserve_space_mb as int, guid, guid1, guid2);
    header_of_install(total, o, guid, guid1, guid2);
    let code = installer::capped(boot, BOOT_CODE_SIZE as int);
    let first = w.take(5);
    let last = seq![
        disk_io::write_at(0, code),
        disk_io::write_at(384, guid),
        disk_io::write_at(440, guid.subrange(12, 16)),
    ];
    assert(w =~= first + disk_layout::gpt_writes(g) + last);
    let d1 = disk_io::applied(disk, first);
    let d2 = disk_io::applied(d1, disk_layout::gpt_writes(g));
    disk_io::applied_in_turn(disk, first, disk_layout::gpt_writes(g));
    disk_io::applied_in_turn(disk, first + disk_layout::gpt_writes(g), last);
    disk_io::applied_len(disk, first);
    disk_io::applied_len(d1, disk_layout::gpt_writes(g));
    disk_layout::gpt_front_written(d1, g);
    marked_front(d2, g, boot, guid);
    let m = MbrView { boot_code: installer::marked_code(boot, guid), ..g.mbr };
    disk_layout::mbr_round_trip(m);
    disk_layout::header_round_trip(g.header);
    disk_layout::table_round_trip(g.partitions);
    let s = disk_layout::mbr_bytes(m);
    assert(disk_layout::sector_at(2) == 1024);
}

proof fn guid_in_code(m: MbrView, boot: Seq<u8>, guid: Seq<u8>)
    requires
        disk_layout::mbr_wf(m),
        m.boot_code == installer::marked_code(boot, guid),
        guid.len() == 16,
    ensures
        disk_layout::mbr_bytes(m).subrange(384, 400) == guid,
        disk_layout::mbr_bytes(m).subrange(440, 444) == guid.subrange(12, 16),
{
    reveal(disk_layout::mbr_bytes);
    assert(disk_layout::mbr_bytes(m).subrange(384, 400) =~= guid);
    assert(disk_layout::mbr_bytes(m).subrange(440, 444) =~= guid.subrange(12, 16));
}

proof fn mbr_install_has_guid(
    disk: Seq<u8>,
    o: InstallOptions,
    guid: Seq<u8>,
    guid1: Seq<u8>,
    guid2: Seq<u8>,
    boot: Seq<u8>,
    core: Seq<u8>,
)
    requires
        !o.use_gpt,
        installer::has_room((disk.len() / 512) as int, o.reserve_space_mb as int),
        guid.len() == 16,
    ensures
        ({
            let total = (disk.len() / 512) as int;
            let w = installer::install_writes(total, o, guid, guid1, guid2, boot, core);
            let d = disk_io::applied(disk, w);
            &&& d.subrange(384, 400) == guid
            &&& d.subrange(440, 444) == guid.subrange(12, 16)
        }),
{
    let total = (disk.len() / 512) as int;
    let w = installer::install_writes(total, o, guid, guid1, guid2, boot, core);
    let d = disk_io::applied(disk, w);
    let m = installed_mbr(boot, guid, installer::part2_start(total, o));
    disk_layout::mbr_round_trip(m);
    assert(w[1].data == disk_layout::mbr_bytes(m));
    assert(w.skip(2) =~= seq![w[2]]);
    disk_io::written_stays(disk, w, 1);
    guid_in_code(m, boot, guid);
    disk_io::applied_len(disk, w);
    assert(d.subrange(384, 400) =~= d.subrange(0, 512).subrange(384, 400));
    assert(d.subrange(440, 444) =~= d.subrange(0, 512).subrange(440, 444));
}

/// A disk that Choosable was installed to holds the disk's GUID at byte 384 and
/// its last four bytes at 440; with a GPT it is the GUID in the header.
pub proof fn installed_disk_has_guid(
    disk: Seq<u8>,
    o: InstallOptions,
    guid: Seq<u8>,
    guid1: Seq<u8>,
    guid2: Seq<u8>,
    boot: Seq<u8>,
    core: Seq<u8>,
)
    requires
        installer::has_room((disk.len() / 512) as int, o.reserve_space_mb as int),
        disk.len() <= u64::MAX,
        guid.len() == 16,
    ensures
        ({
            let total = (disk.len() / 512) as int;
            let w = installer::install_writes(total, o, guid, guid1, guid2, boot, core);
            let d = disk_io::applied(disk, w);
            &&& d.subrange(384, 400) == guid
            &&& d.subrange(440, 444) == guid.subrange(12, 16)
            &&& installer::installed_gpt(
                total,
                o.reserve_space_mb as int,
                guid,
                guid1,
                guid2,
            ).header.disk_guid == guid
        }),
{
    let total = (disk.len() / 512) as int;
    let w = installer::install_writes(total, o, guid, guid1, guid2, boot, core);
    let d = disk_io::applied(disk, w);
    if o.use_gpt {
        let front = w.take(w.len() - 2);
        assert(w =~= front + installer::guid_writes(guid));
        guid_written_last(disk, front, guid);
    } else {
        mbr_install_has_guid(disk, o, guid, guid1, guid2, boot, core);
    }
}

/// What is detected on a disk whose GPT was read.
proof fn detected_by_gpt(disk: Seq<u8>, g: GptView)
    requires
        disk_layout::gpt_of(disk) == Ok::<GptView, ErrorView>(g),
        disk_layout::is_protective(g.mbr),
    ensures
        disk::detected(disk) == Ok::<Option<Detected>, ErrorView>(disk::gpt_detect(g)),
        disk_layout::header_of(disk.subrange(512, 604)) == g.header,
{
}

proof fn installed_gpt_in_place(
    total: int,
    reserve_mb: int,
    guid: Seq<u8>,
    guid1: Seq<u8>,
    guid2: Seq<u8>,
)
    requires
        installer::has_room(total, reserve_mb),
        reserve_mb >= 0,
        total <= 0x80_0000_0000_0000,
    ensures
        disk::gpt_detect(installer::installed_gpt(total, reserve_mb, guid, guid1, guid2)) == Some(
            Detected {
                part2_start: (installer::gpt_part2_start(total, reserve_mb) * SECTOR_SIZE) as u64,
                gpt_attr: Some(GPT_ATTR_VTOYEFI),
            },
        ),
{
    installer::gpt_part2_bounds(total, reserve_mb);
    assert(GPT_PART1_NAME@.take(7) =~= disk::EFI_NAME@);
}

/// Choosable is detected on a disk that it was installed to with a GPT, and
/// partition 2 is found where it was put.
pub proof fn gpt_install_is_detected(
    disk: Seq<u8>,
    o: InstallOptions,
    guid: Seq<u8>,
    guid1: Seq<u8>,
    guid2: Seq<u8>,
    boot: Seq<u8>,
    core: Seq<u8>,
)
    requires
        o.use_gpt,
        installer::has_room((disk.len() / 512) as int, o.reserve_space_mb as int),
        disk.len() <= u64::MAX,
        guid.len() == 16,
        guid1.len() == 16,
        guid2.len() == 16,
    ensures
        ({
            let total = (disk.len() / 512) as int;
            let w = installer::install_writes(total, o, guid, guid1, guid2, boot, core);
            disk::detected(disk_io::applied(disk, w)) == Ok::<Option<Detected>, ErrorView>(
                Some(
                    Detected {
                        part2_start: (installer::part2_start(total, o) * SECTOR_SIZE) as u64,
                        gpt_attr: Some(GPT_ATTR_VTOYEFI),
                    },
                ),
            )
        }),
{
    let total = (disk.len() / 512) as int;
    let w = installer::install_writes(total, o, guid, guid1, guid2, boot, core);
    let g = installer::installed_gpt(total, o.reserve_space_mb as int, guid, guid1, guid2);
    gpt_install_reads_back(disk, o, guid, guid1, guid2, boot, core);
    let read = disk_layout::gpt_of(disk_io::applied(disk, w))->Ok_0;
    detected_by_gpt(disk_io::applied(disk, w), read);
    installed_gpt_in_place(total, o.reserve_space_mb as int, guid, guid1, guid2);
    assert(disk::gpt_detect(read) == disk::gpt_detect(g));
}

// ---------------------------------------------------------------------------
// A non-destructive installation
// ---------------------------------------------------------------------------

/// The writes behind the partition table are all in front of partition 1, and
/// leave the partition tables alone.
proof fn images_spare(is_gpt: bool, guid: Seq<u8>, boot: Seq<u8>, core: Seq<u8>, from: int, to: int)
    requires
        guid.len() == 16,
        from >= 1048576 || (446 <= from && to <= 512) || (is_gpt && 446 <= from && to <= 17408),
        from <= to,
    ensures
        disk_io::all_spare(
            installer::boot_image_writes(is_gpt, boot, core) + installer::guid_writes(guid),
            from,
            to,
        ),
{
}

proof fn free_mbr_slot_bounds(p: Seq<PartitionTableEntry>, i: int)
    requires
        0 <= i,
    ensures
        partition_update::free_mbr_slot(p, i) matches Some(k) ==> i <= k < 4,
    decreases 4 - i,
{
    if i < 4 {
        free_mbr_slot_bounds(p, i + 1);
    }
}

proof fn updated_mbr_wf(m: MbrView, part2_start: int)
    requires
        disk_layout::mbr_wf(m),
    ensures
        partition_update::updated_mbr(m, part2_start) matches Ok(n) ==> disk_layout::mbr_wf(n),
{
    free_mbr_slot_bounds(m.partitions, 1);
}

/// A non-destructive installation on a disk with an MBR writes nothing behind
/// the first MiB.
pub proof fn mbr_data_is_kept(
    disk: Seq<u8>,
    m: MbrView,
    part2_start: int,
    part_guid: Seq<u8>,
    disk_guid: Seq<u8>,
    boot: Seq<u8>,
    core: Seq<u8>,
)
    requires
        disk.len() >= 1048576,
        disk_layout::mbr_wf(m),
        disk_guid.len() == 16,
    ensures
        partition_update::non_destructive_writes(
            m,
            None,
            part2_start,
            part_guid,
            disk_guid,
            boot,
            core,
        ) matches Ok(w) ==> disk_io::applied(disk, w).subrange(1048576, disk.len() as int)
            == disk.subrange(1048576, disk.len() as int),
{
    updated_mbr_wf(m, part2_start);
    if let Ok(n) = partition_update::updated_mbr(m, part2_start) {
        let w = partition_update::non_destructive_writes(
            m,
            None,
            part2_start,
            part_guid,
            disk_guid,
            boot,
            core,
        )->Ok_0;
        let table = seq![disk_io::write_at(0, disk_layout::mbr_bytes(n))];
        let rest = installer::boot_image_writes(false, boot, core) + installer::guid_writes(
            disk_guid,
        );
        disk_layout::mbr_round_trip(n);
        images_spare(false, disk_guid, boot, core, 1048576, disk.len() as int);
        assert(w =~= table + rest);
        assert(disk_io::all_spare(w, 1048576, disk.len() as int));
        disk_io::spared_stays(disk, w, 1048576, disk.len() as int);
    }
}

/// On a disk with a GPT it writes nothing between the first MiB and the second
/// table at the end of the disk.
pub proof fn gpt_data_is_kept(
    disk: Seq<u8>,
    m: MbrView,
    g: GptView,
    part2_start: int,
    part_guid: Seq<u8>,
    disk_guid: Seq<u8>,
    boot: Seq<u8>,
    core: Seq<u8>,
)
    requires
        disk_layout::gpt_wf(g),
        g.header.part_table_start_lba == 2,
        disk_guid.len() == 16,
        part_guid.len() == 16,
        1048576 <= (g.header.efi_backup_lba - 32) * 512 <= disk.len(),
    ensures
        partition_update::non_destructive_writes(
            m,
            Some(g),
            part2_start,
            part_guid,
            disk_guid,
            boot,
            core,
        ) matches Ok(w) ==> disk_io::applied(disk, w).subrange(
            1048576,
            (g.header.efi_backup_lba - 32) * 512,
        ) == disk.subrange(1048576, (g.header.efi_backup_lba - 32) * 512),
{
    let end = (g.header.efi_backup_lba - 32) * 512;
    if let Ok(n) = partition_update::updated_gpt(g, part2_start, part_guid) {
        let w = partition_update::non_destructive_writes(
            m,
            Some(g),
            part2_start,
            part_guid,
            disk_guid,
            boot,
            core,
        )->Ok_0;
        let table = disk_layout::gpt_writes(n);
        let rest = installer::boot_image_writes(true, boot, core) + installer::guid_writes(
            disk_guid,
        );
        updated_gpt_wf(g, part2_start, part_guid);
        disk_layout::mbr_round_trip(n.mbr);
        disk_layout::header_round_trip(n.header);
        disk_layout::table_round_trip(n.partitions);
        images_spare(true, disk_guid, boot, core, 1048576, end);
        assert(disk_io::all_spare(table, 1048576, end));
        assert(w =~= table + rest);
        assert(disk_io::all_spare(w, 1048576, end)) by {
            assert forall|i: int| 0 <= i < w.len() implies disk_io::spares(
                #[trigger] w[i],
                1048576,
                end,
            ) by {
                if i < table.len() {
                    assert(w[i] == table[i]);
                } else {
                    assert(w[i] == rest[i - table.len()]);
                }
            }
        }
        disk_io::spared_stays(disk, w, 1048576, end);
    }
}

proof fn free_gpt_slot_bounds(p: Seq<GptEntryView>, i: int)
    requires
        0 <= i,
    ensures
        partition_update::free_gpt_slot(p, i) matches Some(k) ==> i <= k < 128,
    decreases 128 - i,
{
    if i < 128 {
        free_gpt_slot_bounds(p, i + 1);
    }
}

proof fn updated_gpt_wf(g: GptView, part2_start: int, guid: Seq<u8>)
    requires
        disk_layout::gpt_wf(g),
        guid.len() == 16,
    ensures
        partition_update::updated_gpt(g, part2_start, guid) matches Ok(n) ==> {
            &&& disk_layout::gpt_wf(n)
            &&& n.header.part_table_start_lba == g.header.part_table_start_lba
            &&& n.header.efi_backup_lba == g.header.efi_backup_lba
            &&& n.header.signature == g.header.signature
            &&& n.mbr == g.mbr
        },
{
    free_gpt_slot_bounds(g.partitions, 1);
    assert(GPT_PART1_NAME@.len() == 36);
    if let Ok(n) = partition_update::updated_gpt(g, part2_start, guid) {
        assert forall|i: int| 0 <= i < n.partitions.len() implies disk_layout::gpt_entry_wf(
            #[trigger] n.partitions[i],
        ) by {
            assert(disk_layout::gpt_entry_wf(g.partitions[i]));
            assert(disk_layout::gpt_entry_wf(g.partitions[0]));
        }
    }
}

proof fn updated_mbr_detected(disk: Seq<u8>, m: MbrView, part2_start: int)
    requires
        disk.len() >= 1048576,
        disk_layout::mbr_wf(m),
        m.signature_55 == MBR_SIGNATURE_55,
        m.signature_aa == MBR_SIGNATURE_AA,
        partition_update::free_mbr_slot(m.partitions, 1) == Some(1int),
        partition_update::can_update(m, None, part2_start),
        0 <= part2_start < 0x1_0000_0000,
    ensures
        ({
            let n = partition_update::updated_mbr(m, part2_start)->Ok_0;
            let d1 = disk_io::applied(
                disk,
                seq![disk_io::write_at(0, disk_layout::mbr_bytes(n))],
            );
            &&& disk::detected(d1) == Ok::<Option<Detected>, ErrorView>(
                Some(Detected { part2_start: (part2_start * 512) as u64, gpt_attr: None }),
            )
            &&& !disk_layout::is_protective(disk_layout::mbr_of(d1.subrange(0, 512)))
        }),
{
    let n = partition_update::updated_mbr(m, part2_start)->Ok_0;
    let table = seq![disk_io::write_at(0, disk_layout::mbr_bytes(n))];
    updated_mbr_wf(m, part2_start);
    disk_layout::mbr_round_trip(n);
    assert(table.skip(1) =~= Seq::empty());
    disk_io::written_stays(disk, table, 0);
    let s = disk_io::applied(disk, table).subrange(0, 512);
    assert(s == disk_layout::mbr_bytes(n));
}

/// Choosable is detected on a disk with an MBR after a non-destructive
/// installation, where the second entry of the table was unused and an entry
/// can hold the number of the sector that partition 2 starts in.
pub proof fn non_destructive_mbr_is_detected(
    disk: Seq<u8>,
    m: MbrView,
    part2_start: int,
    part_guid: Seq<u8>,
    disk_guid: Seq<u8>,
    boot: Seq<u8>,
    core: Seq<u8>,
)
    requires
        disk.len() >= 1048576,
        disk_layout::mbr_wf(m),
        m.signature_55 == MBR_SIGNATURE_55,
        m.signature_aa == MBR_SIGNATURE_AA,
        m.partitions[1].sector_count == 0,
        disk_guid.len() == 16,
        partition_update::can_update(m, None, part2_start),
        0 <= part2_start < 0x1_0000_0000,
    ensures
        partition_update::non_destructive_writes(
            m,
            None,
            part2_start,
            part_guid,
            disk_guid,
            boot,
            core,
        ) matches Ok(w) && disk::detected(disk_io::applied(disk, w)) == Ok::<
            Option<Detected>,
            ErrorView,
        >(Some(Detected { part2_start: (part2_start * 512) as u64, gpt_attr: None })),
{
    assert(partition_update::free_mbr_slot(m.partitions, 1) == Some(1int));
    let n = partition_update::updated_mbr(m, part2_start)->Ok_0;
    let w = partition_update::non_destructive_writes(
        m,
        None,
        part2_start,
        part_guid,
        disk_guid,
        boot,
        core,
    )->Ok_0;
    let table = seq![disk_io::write_at(0, disk_layout::mbr_bytes(n))];
    let rest = installer::boot_image_writes(false, boot, core) + installer::guid_writes(disk_guid);
    assert(w =~= table + rest);
    disk_io::applied_in_turn(disk, table, rest);
    disk_io::applied_len(disk, table);
    updated_mbr_detected(disk, m, part2_start);
    images_spare(false, disk_guid, boot, core, 447, 462);
    images_spare(false, disk_guid, boot, core, 463, 512);
    detection_is_kept(disk_io::applied(disk, table), rest);
}

proof fn updated_gpt_in_place(g: GptView, part2_start: int, part_guid: Seq<u8>)
    requires
        g.partitions.len() == 128,
        g.partitions[0].start_lba == CHOOSABLE_PART1_START_SECTOR,
        partition_update::free_gpt_slot(g.partitions, 1) == Some(1int),
        1 <= part2_start,
        part2_start * 512 <= u64::MAX,
    ensures
        disk::gpt_detect(partition_update::updated_gpt(g, part2_start, part_guid)->Ok_0) == Some(
            Detected {
                part2_start: (part2_start * 512) as u64,
                gpt_attr: Some(GPT_ATTR_VTOYEFI),
            },
        ),
{
    let n = partition_update::updated_gpt(g, part2_start, part_guid)->Ok_0;
    assert(GPT_PART1_NAME@.take(7) =~= disk::EFI_NAME@);
    assert(n.partitions[1] == disk_layout::efi_entry(part_guid, part2_start, GPT_PART1_NAME@));
    assert(n.partitions[0].end_lba == part2_start - 1);
}

proof fn updated_gpt_detected(disk: Seq<u8>, g: GptView, part2_start: int, part_guid: Seq<u8>)
    requires
        disk_layout::gpt_wf(g),
        g.header.part_table_start_lba == 2,
        disk_layout::places_apart(g.header, disk.len() as int),
        g.header.signature == GPT_SIGNATURE@,
        g.mbr.signature_55 == MBR_SIGNATURE_55,
        g.mbr.signature_aa == MBR_SIGNATURE_AA,
        disk_layout::is_protective(g.mbr),
        g.partitions[0].start_lba == CHOOSABLE_PART1_START_SECTOR,
        partition_update::free_gpt_slot(g.partitions, 1) == Some(1int),
        partition_update::gpt_can_take(g, part2_start),
        part2_start * 512 <= u64::MAX,
        part_guid.len() == 16,
    ensures
        ({
            let n = partition_update::updated_gpt(g, part2_start, part_guid)->Ok_0;
            let d1 = disk_io::applied(disk, disk_layout::gpt_writes(n));
            &&& disk::detected(d1) == Ok::<Option<Detected>, ErrorView>(
                Some(
                    Detected {
                        part2_start: (part2_start * 512) as u64,
                        gpt_attr: Some(GPT_ATTR_VTOYEFI),
                    },
                ),
            )
            &&& disk_layout::sector_at(
                disk_layout::header_of(d1.subrange(512, 604)).part_table_start_lba,
            ) == 1024
        }),
{
    let n = partition_update::updated_gpt(g, part2_start, part_guid)->Ok_0;
    updated_gpt_wf(g, part2_start, part_guid);
    disk_layout::gpt_round_trip(disk, n);
    let d1 = disk_io::applied(disk, disk_layout::gpt_writes(n));
    let read = disk_layout::gpt_of(d1)->Ok_0;
    detected_by_gpt(d1, read);
    updated_gpt_in_place(g, part2_start, part_guid);
    assert(disk::gpt_detect(read) == disk::gpt_detect(n));
    assert(disk_layout::sector_at(2) == 1024);
}

/// The same with a GPT, where partition 1 starts where it should.
pub proof fn non_destructive_gpt_is_detected(
    disk: Seq<u8>,
    m: MbrView,
    g: GptView,
    part2_start: int,
    part_guid: Seq<u8>,
    disk_guid: Seq<u8>,
    boot: Seq<u8>,
    core: Seq<u8>,
)
    requires
        disk_layout::gpt_wf(g),
        g.header.part_table_start_lba == 2,
        disk_layout::places_apart(g.header, disk.len() as int),
        g.header.signature == GPT_SIGNATURE@,
        g.mbr.signature_55 == MBR_SIGNATURE_55,
        g.mbr.signature_aa == MBR_SIGNATURE_AA,
        disk_layout::is_protective(g.mbr),
        g.partitions[0].start_lba == CHOOSABLE_PART1_START_SECTOR,
        g.partitions[1].unique_part_guid == bytes::zeros(16),
        partition_update::can_update(m, Some(g), part2_start),
        part2_start * 512 <= u64::MAX,
        part_guid.len() == 16,
        disk_guid.len() == 16,
    ensures
        partition_update::non_destructive_writes(
            m,
            Some(g),
            part2_start,
            part_guid,
            disk_guid,
            boot,
            core,
        ) matches Ok(w) && disk::detected(disk_io::applied(disk, w)) == Ok::<
            Option<Detected>,
            ErrorView,
        >(
            Some(
                Detected {
                    part2_start: (part2_start * 512) as u64,
                    gpt_attr: Some(GPT_ATTR_VTOYEFI),
                },
            ),
        ),
{
    assert(partition_update::free_gpt_slot(g.partitions, 1) == Some(1int));
    let n = partition_update::updated_gpt(g, part2_start, part_guid)->Ok_0;
    let w = partition_update::non_destructive_writes(
        m,
        Some(g),
        part2_start,
        part_guid,
        disk_guid,
        boot,
        core,
    )->Ok_0;
    let table = disk_layout::gpt_writes(n);
    let rest = installer::boot_image_writes(true, boot, core) + installer::guid_writes(disk_guid);
    assert(w =~= table + rest);
    let d1 = disk_io::applied(disk, table);
    disk_io::applied_in_turn(disk, table, rest);
    disk_io::applied_len(disk, table);
    updated_gpt_detected(disk, g, part2_start, part_guid);
    images_spare(true, disk_guid, boot, core, 447, 462);
    images_spare(true, disk_guid, boot, core, 463, 512);
    images_spare(true, disk_guid, boot, core, 512, 604);
    images_spare(true, disk_guid, boot, core, 1024, 17408);
    detection_is_kept(d1, rest);
}

// ---------------------------------------------------------------------------
// An update
// ---------------------------------------------------------------------------

/// The bytes that an update reads beforehand and puts back.
pub open spec fn read_before_update(disk: Seq<u8>) -> (Seq<u8>, Seq<u8>) {
    (
        disk.subrange(384, 400),
        disk.subrange(
            partition_update::RESERVED_OFFSET as int,
            partition_update::RESERVED_OFFSET + partition_update::RESERVED_BYTES,
        ),
    )
}

/// An update leaves alone all that lies behind the first MiB, and with it all
/// files. It leaves the disk's GUID and the reserved sectors as they were, and
/// the partition tables but for which partitions are active.
pub proof fn update_keeps_disk(disk: Seq<u8>, m: MbrView, boot: Seq<u8>, core: Seq<u8>)
    requires
        disk.len() >= 1048576,
    ensures
        ({
            let (guid, reserved) = read_before_update(disk);
            let w = partition_update::update_writes(m, guid, reserved, boot, core);
            let after = disk_io::applied(disk, w);
            &&& after.len() == disk.len()
            &&& after.subrange(1048576, disk.len() as int) == disk.subrange(
                1048576,
                disk.len() as int,
            )
            &&& read_before_update(after) == read_before_update(disk)
            &&& same_but_active(after.subrange(0, 512), disk.subrange(0, 512))
            &&& disk_layout::is_protective(m) ==> after.subrange(446, 17408) == disk.subrange(
                446,
                17408,
            )
        }),
{
    let (guid, reserved) = read_before_update(disk);
    let w = partition_update::update_writes(m, guid, reserved, boot, core);
    let after = disk_io::applied(disk, w);
    let n = w.len() as int;
    disk_io::spared_stays(disk, w, 1048576, disk.len() as int);
    disk_io::spared_stays(disk, w, 447, 462);
    disk_io::spared_stays(disk, w, 463, 512);
    if disk_layout::is_protective(m) {
        disk_io::spared_stays(disk, w, 446, 17408);
    }
    assert(w[1] == disk_io::write_at(384, guid));
    disk_io::written_stays(disk, w, 1);
    assert(w[n - 1] == disk_io::write_at(partition_update::RESERVED_OFFSET as int, reserved));
    assert(w.skip(n) =~= Seq::empty());
    disk_io::written_stays(disk, w, n - 1);
    assert(after.subrange(0, 512).subrange(447, 462) =~= after.subrange(447, 462));
    assert(disk.subrange(0, 512).subrange(447, 462) =~= disk.subrange(447, 462));
    assert(after.subrange(0, 512).subrange(463, 512) =~= after.subrange(463, 512));
    assert(disk.subrange(0, 512).subrange(463, 512) =~= disk.subrange(463, 512));
}

/// After an update Choosable is detected as it was before.
pub proof fn update_keeps_detection(disk: Seq<u8>, boot: Seq<u8>, core: Seq<u8>, d: Option<Detected>)
    requires
        disk.len() >= 1048576,
        disk::detected(disk) == Ok::<Option<Detected>, ErrorView>(d),
        disk_layout::gpt_of(disk) matches Ok(g) ==> g.header.part_table_start_lba == 2,
    ensures
        ({
            let m = disk_layout::mbr_of(disk.subrange(0, 512));
            let (guid, reserved) = read_before_update(disk);
            let w = partition_update::update_writes(m, guid, reserved, boot, core);
            disk::detected(disk_io::applied(disk, w)) == Ok::<Option<Detected>, ErrorView>(d)
        }),
{
    let m = disk_layout::mbr_of(disk.subrange(0, 512));
    let (guid, reserved) = read_before_update(disk);
    let w = partition_update::update_writes(m, guid, reserved, boot, core);
    let after = disk_io::applied(disk, w);
    update_keeps_disk(disk, m, boot, core);
    let a = after.subrange(0, 512);
    let b = disk.subrange(0, 512);
    mbr_same_but_active(a, b);
    if disk_layout::has_signature(b) && disk_layout::is_protective(m) {
        assert(after.subrange(512, 604) =~= after.subrange(446, 17408).subrange(66, 158));
        assert(disk.subrange(512, 604) =~= disk.subrange(446, 17408).subrange(66, 158));
        assert(after.subrange(1024, 17408) =~= after.subrange(446, 17408).subrange(578, 16962));
        assert(disk.subrange(1024, 17408) =~= disk.subrange(446, 17408).subrange(578, 16962));
        assert(disk_layout::sector_at(2) == 1024);
    }
}

/// Giving partition 2 of a GPT its attributes writes nothing between the first
/// table and the second.
pub proof fn attributes_leave_data(disk: Seq<u8>, g: GptView)
    requires
        disk_layout::gpt_wf(g),
        g.header.part_table_start_lba == 2,
        17408 <= (g.header.efi_backup_lba - 32) * 512 <= disk.len(),
    ensures
        ({
            let w = partition_update::full_gpt_writes(partition_update::with_attributes(g));
            let end = (g.header.efi_backup_lba - 32) * 512;
            disk_io::applied(disk, w).subrange(17408, end) == disk.subrange(17408, end)
        }),
{
    let n = partition_update::with_attributes(g);
    let w = partition_update::full_gpt_writes(n);
    let end = (g.header.efi_backup_lba - 32) * 512;
    assert forall|i: int| 0 <= i < n.partitions.len() implies disk_layout::gpt_entry_wf(
        #[trigger] n.partitions[i],
    ) by {
        assert(disk_layout::gpt_entry_wf(g.partitions[i]));
    }
    disk_layout::mbr_round_trip(n.mbr);
    disk_layout::header_round_trip(n.header);
    disk_layout::header_round_trip(installer::backup_header(n.header));
    disk_layout::table_round_trip(n.partitions);
    disk_io::spared_stays(disk, w, 17408, end);
}

} // verus!
