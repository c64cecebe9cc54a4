//! What a new installation puts on a disk, byte by byte.

use vstd::prelude::*;
use crate::bytes;
use crate::constants::SIZE_1TB;
use crate::disk_io;
use crate::disk_io::WriteView;
use crate::disk_layout;
use crate::disk_layout::{GptView, PartitionTableEntry};
use crate::install_laws;
use crate::installer;
use crate::installer::InstallOptions;

verus! {

// ---------------------------------------------------------------------------
// Where the partitions go
// ---------------------------------------------------------------------------

/// The EFI partition is the last that fits: it starts at a multiple of 8 sectors,
/// and less than 8 sectors stay free between its end and what is to stay free
/// behind it, which is the reserved space and with a GPT the 34 sectors at the end
/// of the disk. So the data partition takes all the rest of the disk.
pub proof fn efi_partition_is_the_last_that_fits(total: int, o: InstallOptions)
    requires
        installer::has_room(total, o.reserve_space_mb as int),
    ensures
        ({
            let p2 = installer::part2_start(total, o);
            let behind = o.reserve_space_mb * 2048 + (if o.use_gpt {
                34int
            } else {
                0int
            });
            &&& p2 % 8 == 0
            &&& 0 <= total - (p2 + 65536 + behind) < 8
        }),
{
    let x = total - 65536 - o.reserve_space_mb * 2048;
    assert(x / 8 * 8 <= x < x / 8 * 8 + 8);
    let y = x - 34;
    assert(y / 8 * 8 <= y < y / 8 * 8 + 8);
}

/// A disk will do from 34 MiB on; where space is to stay free, it also has to be
/// larger than that space and 33 MiB.
pub proof fn a_disk_will_do_from_34_mib(total: int, reserve_mb: int)
    ensures
        installer::has_room(total, reserve_mb) <==> total * 512 >= 34 * 1048576 && (reserve_mb > 0
            ==> total * 512 > (reserve_mb + 33) * 1048576),
{
}

/// Aligning goes to the nearest multiple of 8 sectors that is not below.
pub proof fn alignment_is_to_4_kib(sector: int)
    ensures
        installer::aligned_up(sector) % 8 == 0,
        sector <= installer::aligned_up(sector) < sector + 8,
        installer::aligned_down(sector) % 8 == 0,
        sector - 8 < installer::aligned_down(sector) <= sector,
{
}

// ---------------------------------------------------------------------------
// Cylinders, heads and sectors
// ---------------------------------------------------------------------------

/// Cylinder, head and sector are those of a disk with 255 heads and 63 sectors to
/// a track, as far as 1024 cylinders go; beyond, they are the last there are.
pub proof fn chs_counts_sectors(lba: int)
    requires
        0 <= lba,
    ensures
        ({
            let (c, h, s) = installer::chs_of(lba);
            &&& 0 <= c < 1024
            &&& 0 <= h < 255
            &&& 1 <= s <= 63
            &&& lba < 1024 * 255 * 63 ==> (c * 255 + h) * 63 + s - 1 == lba
            &&& lba >= 1024 * 255 * 63 ==> (c, h, s) == (1023int, 254int, 63int)
        }),
{
    let c = lba / 255 / 63;
    let t = lba / 63;
    assert(c == lba / 16065) by (nonlinear_arith)
        requires
            c == lba / 255 / 63,
            0 <= lba,
    ;
    assert(lba / 16065 == t / 255) by (nonlinear_arith)
        requires
            t == lba / 63,
            0 <= lba,
    ;
}

/// The sector takes the low 6 bits of what is stored, the low 8 bits of the
/// cylinder the high byte, and the two bits above them the bits in between.
pub proof fn chs_is_packed(c: int, h: int, s: int)
    requires
        0 <= c < 1024,
        0 <= s < 64,
    ensures
        ({
            let p = installer::packed_chs((c, h, s)) as int;
            &&& p % 64 == s
            &&& p / 256 + p / 64 % 4 * 256 == c
        }),
{
}

/// The entry of a partition tells its first sector and how many it has, and the
/// address of its first and last sector.
pub proof fn placed_entry_tells_its_place(e: PartitionTableEntry, start: u32, count: u32)
    requires
        count > 0,
        start + count <= 0x1_0000_0000,
    ensures
        ({
            let p = installer::entry_placed(e, start, count);
            let first = installer::chs_of(start as int);
            let last = installer::chs_of(start + count - 1);
            &&& p.start_lba == start
            &&& p.sector_count == count
            &&& p.start_head == first.1
            &&& p.start_sector_cylinder == installer::packed_chs(first)
            &&& p.end_head == last.1
            &&& p.end_sector_cylinder == installer::packed_chs(last)
            &&& p.active == e.active
            &&& p.fs_flag == e.fs_flag
        }),
{
    chs_counts_sectors(start as int);
    chs_counts_sectors(start + count - 1);
}

// ---------------------------------------------------------------------------
// Where fields are stored
// ---------------------------------------------------------------------------

/// An entry of an MBR has its fields where every reader looks for them.
pub proof fn mbr_entry_fields(s: Seq<u8>, at: int)
    ensures
        ({
            let e = disk_layout::entry_at(s, at);
            &&& e.active == s[at]
            &&& e.fs_flag == s[at + 4]
            &&& e.start_lba == s[at + 8] + 256 * s[at + 9] + 65536 * s[at + 10] + 16777216 * s[at
                + 11]
            &&& e.sector_count == s[at + 12] + 256 * s[at + 13] + 65536 * s[at + 14] + 16777216 * s[at
                + 15]
        }),
{
}

/// The four entries of an MBR stand from byte 446 on, and its signature at its end.
pub proof fn mbr_fields(s: Seq<u8>)
    requires
        s.len() == 512,
    ensures
        ({
            let m = disk_layout::mbr_of(s);
            &&& m.partitions.len() == 4
            &&& forall|i: int|
                0 <= i < 4 ==> #[trigger] m.partitions[i] == disk_layout::entry_at(s, 446 + 16 * i)
            &&& m.boot_code == s.take(446)
            &&& disk_layout::has_signature(s) <==> s[510] == 0x55 && s[511] == 0xAA
            &&& disk_layout::is_protective(m) <==> s[450] == 0xEE
        }),
{
    reveal(disk_layout::mbr_of);
    assert(s.take(446) =~= s.subrange(0, 446));
}

/// The number that is stored in 8 bytes, the lowest first.
pub open spec fn number8(s: Seq<u8>, at: int) -> int {
    s[at] + 0x100 * s[at + 1] + 0x1_0000 * s[at + 2] + 0x100_0000 * s[at + 3] + 0x1_0000_0000 * s[at
        + 4] + 0x100_0000_0000 * s[at + 5] + 0x1_0000_0000_0000 * s[at + 6]
        + 0x100_0000_0000_0000 * s[at + 7]
}

/// A GPT header has its fields where every reader looks for them.
pub proof fn gpt_header_fields(s: Seq<u8>)
    ensures
        ({
            let h = disk_layout::header_of(s);
            &&& h.signature == s.subrange(0, 8)
            &&& h.header_size == bytes::spec_le32(s, 12)
            &&& h.header_crc32 == bytes::spec_le32(s, 16)
            &&& h.efi_start_lba == number8(s, 24)
            &&& h.efi_backup_lba == number8(s, 32)
            &&& h.part_area_start_lba == number8(s, 40)
            &&& h.part_area_end_lba == number8(s, 48)
            &&& h.disk_guid == s.subrange(56, 72)
            &&& h.part_table_start_lba == number8(s, 72)
            &&& h.part_table_num_entries == bytes::spec_le32(s, 80)
            &&& h.part_table_entry_size == bytes::spec_le32(s, 84)
            &&& h.part_table_crc32 == bytes::spec_le32(s, 88)
        }),
{
    reveal(disk_layout::header_of);
}

/// An entry of a GPT has its fields where every reader looks for them.
pub proof fn gpt_entry_fields(s: Seq<u8>, at: int)
    ensures
        ({
            let e = disk_layout::gpt_entry_at(s, at);
            &&& e.part_type_guid == s.subrange(at, at + 16)
            &&& e.unique_part_guid == s.subrange(at + 16, at + 32)
            &&& e.start_lba == number8(s, at + 32)
            &&& e.end_lba == number8(s, at + 40)
            &&& e.attributes == number8(s, at + 48)
            &&& e.name.len() == 36
            &&& forall|i: int|
                0 <= i < 36 ==> #[trigger] e.name[i] == s[at + 56 + 2 * i] + 256 * s[at + 57 + 2 * i]
        }),
{
}

// ---------------------------------------------------------------------------
// A disk after an installation with an MBR
// ---------------------------------------------------------------------------

/// A disk that Choosable was installed to with an MBR: the boot code but for the
/// place of the disk's GUID, a bootable data partition of type 7 from 1 MiB on up
/// to the EFI partition, the EFI partition of type 0xEF with 32 MiB, no other
/// partition, the signature, and the core image behind all this.
pub proof fn disk_with_new_mbr(
    disk: Seq<u8>,
    o: InstallOptions,
    guid: Seq<u8>,
    guid1: Seq<u8>,
    guid2: Seq<u8>,
    boot: Seq<u8>,
    core: Seq<u8>,
)
    requires
        !o.use_gpt,
        installer::has_room((disk.len() / 512) as int, o.reserve_space_mb as int),
        disk.len() <= 2 * SIZE_1TB,
        guid.len() == 16,
        boot.len() >= 440,
        core.len() <= 1048064,
    ensures
        ({
            let total = (disk.len() / 512) as int;
            let w = installer::install_writes(total, o, guid, guid1, guid2, boot, core);
            let d = disk_io::applied(disk, w);
            let p2 = installer::part2_start(total, o);
            &&& d.subrange(0, 384) == boot.subrange(0, 384)
            &&& d.subrange(400, 440) == boot.subrange(400, 440)
            &&& d[446] == 0x80
            &&& d[450] == 0x07
            &&& bytes::spec_le32(d, 454) == 2048
            &&& bytes::spec_le32(d, 458) == p2 - 2048
            &&& d[462] == 0
            &&& d[466] == 0xEF
            &&& bytes::spec_le32(d, 470) == p2
            &&& bytes::spec_le32(d, 474) == 65536
            &&& forall|i: int| 478 <= i < 510 ==> #[trigger] d[i] == 0
            &&& d[510] == 0x55
            &&& d[511] == 0xAA
            &&& d.subrange(512, (512 + core.len()) as int) == core
        }),
{
    let total = (disk.len() / 512) as int;
    let w = installer::install_writes(total, o, guid, guid1, guid2, boot, core);
    let d = disk_io::applied(disk, w);
    let p2 = installer::part2_start(total, o);
    installer::mbr_part2_bounds(total, o.reserve_space_mb as int);
    let m = install_laws::installed_mbr(boot, guid, p2);
    disk_layout::mbr_round_trip(m);
    assert(w[1].data == disk_layout::mbr_bytes(m));
    assert(w.skip(2) =~= seq![w[2]]);
    disk_io::written_stays(disk, w, 1);
    disk_io::applied_len(disk, w);
    let s = d.subrange(0, 512);
    assert(s == disk_layout::mbr_bytes(m));
    mbr_fields(s);
    assert(m.partitions[0] == disk_layout::entry_at(s, 446));
    assert(m.partitions[1] == disk_layout::entry_at(s, 462));
    assert(m.partitions[2] == disk_layout::entry_at(s, 478));
    assert(m.partitions[3] == disk_layout::entry_at(s, 494));
    disk_layout::stored_entry_round_trip(s, 478);
    disk_layout::stored_entry_round_trip(s, 494);
    empty_entry_is_zero();
    assert forall|i: int| 478 <= i < 510 implies #[trigger] d[i] == 0 by {
        assert(d[i] == s[i]);
        if i < 494 {
            assert(s.subrange(478, 494)[i - 478] == s[i]);
        } else {
            assert(s.subrange(494, 510)[i - 494] == s[i]);
        }
    }
    assert(forall|i: int| 0 <= i < 512 ==> d[i] == #[trigger] s[i]);
    assert(s[446] == 0x80 && s[450] == 0x07 && s[462] == 0 && s[466] == 0xEF);
    assert(bytes::spec_le32(d, 454) == bytes::spec_le32(s, 454));
    assert(bytes::spec_le32(d, 458) == bytes::spec_le32(s, 458));
    assert(bytes::spec_le32(d, 470) == bytes::spec_le32(s, 470));
    assert(bytes::spec_le32(d, 474) == bytes::spec_le32(s, 474));
    marked_code_is_boot(boot, guid);
    let code = installer::marked_code(boot, guid);
    assert(s.take(446) == code);
    assert(d.subrange(0, 384) =~= boot.subrange(0, 384)) by {
        assert forall|i: int| 0 <= i < 384 implies d[i] == boot[i] by {
            assert(s.take(446)[i] == code[i]);
        }
    }
    assert(d.subrange(400, 440) =~= boot.subrange(400, 440)) by {
        assert forall|i: int| 400 <= i < 440 implies d[i] == boot[i] by {
            assert(s.take(446)[i] == code[i]);
        }
    }
    assert(w.skip(3) =~= Seq::empty());
    assert(w[2].data =~= core);
    disk_io::written_stays(disk, w, 2);
}

proof fn empty_entry_is_zero()
    ensures
        disk_layout::entry_bytes(disk_layout::empty_entry()) == bytes::zeros(16),
{
    assert(disk_layout::entry_bytes(disk_layout::empty_entry()) =~= bytes::zeros(16));
}

proof fn marked_code_is_boot(boot: Seq<u8>, guid: Seq<u8>)
    requires
        boot.len() >= 440,
        guid.len() == 16,
    ensures
        installer::marked_code(boot, guid).len() == 446,
        forall|i: int|
            (0 <= i < 384 || 400 <= i < 440) ==> #[trigger] installer::marked_code(boot, guid)[i]
                == boot[i],
        installer::marked_code(boot, guid).subrange(384, 400) == guid,
{
    let code = installer::marked_code(boot, guid);
    assert(code.subrange(384, 400) =~= guid);
}

// ---------------------------------------------------------------------------
// A disk after an installation with a GPT
// ---------------------------------------------------------------------------

/// A disk that Choosable was installed to with a GPT: its header is at sector 1
/// with its table behind it, and names sector 2048 and the 34 sectors at the end
/// as the bounds of what partitions may take.
pub proof fn header_of_new_gpt(
    disk: Seq<u8>,
    o: InstallOptions,
    guid: Seq<u8>,
    guid1: Seq<u8>,
    guid2: Seq<u8>,
    boot: Seq<u8>,
    core: Seq<u8>,
)
    requires
        o.use_gpt,
        installer::has_room((disk.len() / 512) as int, o.reserve_space_mb as int),
        disk.len() <= u64::MAX,
        guid.len() == 16,
        guid1.len() == 16,
        guid2.len() == 16,
    ensures
        ({
            let total = (disk.len() / 512) as int;
            let w = installer::install_writes(total, o, guid, guid1, guid2, boot, core);
            let h = disk_io::applied(disk, w).subrange(512, 604);
            &&& h.subrange(0, 8) == seq![0x45u8, 0x46, 0x49, 0x20, 0x50, 0x41, 0x52, 0x54]
            &&& bytes::spec_le32(h, 12) == 92
            &&& number8(h, 24) == 1
            &&& number8(h, 32) == total - 1
            &&& number8(h, 40) == 2048
            &&& number8(h, 48) == total - 34
            &&& h.subrange(56, 72) == guid
            &&& number8(h, 72) == 2
            &&& bytes::spec_le32(h, 80) == 128
            &&& bytes::spec_le32(h, 84) == 128
        }),
{
    let total = (disk.len() / 512) as int;
    let w = installer::install_writes(total, o, guid, guid1, guid2, boot, core);
    let d = disk_io::applied(disk, w);
    install_laws::gpt_install_reads_back(disk, o, guid, guid1, guid2, boot, core);
    let h = d.subrange(512, 604);
    gpt_header_fields(h);
    assert(disk_layout::header_of(h) == installer::installed_gpt(
        total,
        o.reserve_space_mb as int,
        guid,
        guid1,
        guid2,
    ).header);
    assert(crate::constants::GPT_SIGNATURE@ =~= seq![
        0x45u8, 0x46, 0x49, 0x20, 0x50, 0x41, 0x52, 0x54,
    ]);
}

/// Its table holds the data partition, from 1 MiB on up to the EFI partition, and
/// the EFI partition with 32 MiB: each with the GUID it was given, the type of its
/// kind, and the EFI partition with its name and the attribute that keeps drive
/// letters off it. No other entry is used.
pub proof fn table_of_new_gpt(
    disk: Seq<u8>,
    o: InstallOptions,
    guid: Seq<u8>,
    guid1: Seq<u8>,
    guid2: Seq<u8>,
    boot: Seq<u8>,
    core: Seq<u8>,
)
    requires
        o.use_gpt,
        installer::has_room((disk.len() / 512) as int, o.reserve_space_mb as int),
        disk.len() <= u64::MAX,
        guid.len() == 16,
        guid1.len() == 16,
        guid2.len() == 16,
    ensures
        ({
            let total = (disk.len() / 512) as int;
            let w = installer::install_writes(total, o, guid, guid1, guid2, boot, core);
            let t = disk_io::applied(disk, w).subrange(1024, 17408);
            let p2 = installer::part2_start(total, o);
            &&& t.subrange(0, 16) == seq![
                0xA2u8, 0xA0, 0xD0, 0xEB, 0xE5, 0xB9, 0x33, 0x44, 0x87, 0xC0, 0x68, 0xB6, 0xB7, 0x26, 0x99, 0xC7,
            ]
            &&& t.subrange(16, 32) == guid1
            &&& number8(t, 32) == 2048
            &&& number8(t, 40) == p2 - 1
            &&& number8(t, 48) == 0
            &&& t.subrange(128, 144) == seq![
                0x28u8, 0x73, 0x2A, 0xC1, 0x1F, 0xF8, 0xD2, 0x11, 0xBA, 0x4B, 0x00, 0xA0, 0xC9, 0x3E, 0xC9, 0x3B,
            ]
            &&& t.subrange(144, 160) == guid2
            &&& number8(t, 160) == p2
            &&& number8(t, 168) == p2 + 65535
            &&& number8(t, 176) == 0x8000_0000_0000_0000
            &&& forall|i: int| 0 <= i < 36 ==> #[trigger] t[184 + 2 * i] + 256 * t[185 + 2 * i] == (
            if i < 7 {
                seq![0x43int, 0x5A, 0x42, 0x4C, 0x45, 0x46, 0x49][i]
            } else {
                0
            })
            &&& forall|i: int|
                2 <= i < 128 ==> #[trigger] t.subrange(128 * i, 128 * i + 16) == bytes::zeros(16)
        }),
{
    let total = (disk.len() / 512) as int;
    let w = installer::install_writes(total, o, guid, guid1, guid2, boot, core);
    let d = disk_io::applied(disk, w);
    let p2 = installer::part2_start(total, o);
    let g = installer::installed_gpt(total, o.reserve_space_mb as int, guid, guid1, guid2);
    installer::gpt_part2_bounds(total, o.reserve_space_mb as int);
    install_laws::gpt_install_reads_back(disk, o, guid, guid1, guid2, boot, core);
    let t = d.subrange(1024, 17408);
    assert(g.header.part_table_start_lba == 2);
    assert(disk_layout::sector_at(2) == 1024);
    assert(disk_layout::table_of(t) == g.partitions);
    assert forall|i: int| 0 <= i < 128 implies #[trigger] g.partitions[i]
        == disk_layout::gpt_entry_at(t, 128 * i) by {
        assert(disk_layout::table_of(t)[i] == disk_layout::gpt_entry_at(t, 128 * i));
    }
    let a = g.partitions[0];
    let b = g.partitions[1];
    assert(a == disk_layout::gpt_entry_at(t, 0));
    assert(b == disk_layout::gpt_entry_at(t, 128));
    gpt_entry_fields(t, 0);
    gpt_entry_fields(t, 128);
    type_guids();
    assert forall|i: int| 0 <= i < 36 implies #[trigger] t[184 + 2 * i] + 256 * t[185 + 2 * i] == (
    if i < 7 {
        seq![0x43int, 0x5A, 0x42, 0x4C, 0x45, 0x46, 0x49][i]
    } else {
        0
    }) by {
        assert(b.name[i] == t[128 + 56 + 2 * i] + 256 * t[128 + 57 + 2 * i]);
        efi_name(i);
    }
    assert forall|i: int| 2 <= i < 128 implies #[trigger] t.subrange(128 * i, 128 * i + 16)
        == bytes::zeros(16) by {
        assert(g.partitions[i] == disk_layout::empty_gpt_entry());
        gpt_entry_fields(t, 128 * i);
    }
}

/// The front of a disk that Choosable was installed to with a GPT: the boot code with
/// the GUID of the disk in it, and an MBR with nothing but the entry that stands for
/// the GPT, which claims the whole disk.
pub proof fn front_of_new_gpt(
    disk: Seq<u8>,
    o: InstallOptions,
    guid: Seq<u8>,
    guid1: Seq<u8>,
    guid2: Seq<u8>,
    boot: Seq<u8>,
    core: Seq<u8>,
)
    requires
        o.use_gpt,
        installer::has_room((disk.len() / 512) as int, o.reserve_space_mb as int),
        disk.len() <= u64::MAX,
        guid.len() == 16,
        guid1.len() == 16,
        guid2.len() == 16,
        boot.len() >= 440,
    ensures
        ({
            let total = (disk.len() / 512) as int;
            let w = installer::install_writes(total, o, guid, guid1, guid2, boot, core);
            let d = disk_io::applied(disk, w);
            &&& d.subrange(0, 384) == boot.subrange(0, 384)
            &&& d.subrange(384, 400) == guid
            &&& d.subrange(400, 440) == boot.subrange(400, 440)
            &&& d[450] == 0xEE
            &&& bytes::spec_le32(d, 454) == 1
            &&& bytes::spec_le32(d, 458) == 0xFFFF_FFFF
            &&& forall|i: int| 462 <= i < 510 ==> #[trigger] d[i] == 0
            &&& d[510] == 0x55
            &&& d[511] == 0xAA
        }),
{
    let total = (disk.len() / 512) as int;
    let w = installer::install_writes(total, o, guid, guid1, guid2, boot, core);
    let d = disk_io::applied(disk, w);
    install_laws::gpt_install_reads_back(disk, o, guid, guid1, guid2, boot, core);
    install_laws::header_of_install(total, o, guid, guid1, guid2);
    disk_io::applied_len(disk, w);
    let s = d.subrange(0, 512);
    let m = disk_layout::mbr_of(s);
    mbr_fields(s);
    assert(disk_layout::has_signature(s));
    assert(m.boot_code == installer::marked_code(boot, guid));
    assert(m.partitions == disk_layout::protective_mbr().partitions);
    assert(m.partitions[0] == disk_layout::entry_at(s, 446));
    assert(m.partitions[1] == disk_layout::entry_at(s, 462));
    assert(m.partitions[2] == disk_layout::entry_at(s, 478));
    assert(m.partitions[3] == disk_layout::entry_at(s, 494));
    disk_layout::stored_entry_round_trip(s, 462);
    disk_layout::stored_entry_round_trip(s, 478);
    disk_layout::stored_entry_round_trip(s, 494);
    empty_entry_is_zero();
    assert(forall|i: int| 0 <= i < 512 ==> d[i] == #[trigger] s[i]);
    assert forall|i: int| 462 <= i < 510 implies #[trigger] d[i] == 0 by {
        assert(d[i] == s[i]);
        if i < 478 {
            assert(s.subrange(462, 478)[i - 462] == s[i]);
        } else if i < 494 {
            assert(s.subrange(478, 494)[i - 478] == s[i]);
        } else {
            assert(s.subrange(494, 510)[i - 494] == s[i]);
        }
    }
    assert(s[450] == 0xEE);
    assert(bytes::spec_le32(d, 454) == bytes::spec_le32(s, 454));
    assert(bytes::spec_le32(d, 458) == bytes::spec_le32(s, 458));
    marked_code_is_boot(boot, guid);
    let code = installer::marked_code(boot, guid);
    code_on_disk(d, s, code, boot, guid);
}

proof fn code_on_disk(d: Seq<u8>, s: Seq<u8>, code: Seq<u8>, boot: Seq<u8>, guid: Seq<u8>)
    requires
        d.len() >= 512,
        s == d.subrange(0, 512),
        s.take(446) == code,
        boot.len() >= 440,
        guid.len() == 16,
        forall|i: int| (0 <= i < 384 || 400 <= i < 440) ==> #[trigger] code[i] == boot[i],
        code.subrange(384, 400) == guid,
    ensures
        d.subrange(0, 384) == boot.subrange(0, 384),
        d.subrange(384, 400) == guid,
        d.subrange(400, 440) == boot.subrange(400, 440),
{
    assert forall|i: int| 0 <= i < 446 implies d[i] == #[trigger] code[i] by {
        assert(s.take(446)[i] == s[i]);
        assert(s[i] == d[i]);
    }
    assert forall|i: int| 0 <= i < 384 implies d[i] == boot[i] by {
        assert(d[i] == code[i]);
    }
    assert forall|i: int| 400 <= i < 440 implies d[i] == boot[i] by {
        assert(d[i] == code[i]);
    }
    assert(d.subrange(0, 384) =~= boot.subrange(0, 384));
    assert(d.subrange(400, 440) =~= boot.subrange(400, 440));
    assert(d.subrange(384, 400) =~= code.subrange(384, 400));
}

/// The core image of a disk that Choosable was installed to with a GPT stands behind
/// the table, with the byte at its place 500 marking that it does.
pub proof fn core_of_new_gpt(
    disk: Seq<u8>,
    o: InstallOptions,
    guid: Seq<u8>,
    guid1: Seq<u8>,
    guid2: Seq<u8>,
    boot: Seq<u8>,
    core: Seq<u8>,
)
    requires
        o.use_gpt,
        installer::has_room((disk.len() / 512) as int, o.reserve_space_mb as int),
        disk.len() <= u64::MAX,
        guid.len() == 16,
        guid1.len() == 16,
        guid2.len() == 16,
        512 <= core.len() <= 1031168,
    ensures
        ({
            let total = (disk.len() / 512) as int;
            let w = installer::install_writes(total, o, guid, guid1, guid2, boot, core);
            let d = disk_io::applied(disk, w);
            &&& d.subrange(17408, 17908) == core.subrange(0, 500)
            &&& d[17908] == 0x23
            &&& d.subrange(17909, 17408 + core.len() as int) == core.skip(501)
        }),
{
    let total = (disk.len() / 512) as int;
    let w = installer::install_writes(total, o, guid, guid1, guid2, boot, core);
    let g = installer::installed_gpt(total, o.reserve_space_mb as int, guid, guid1, guid2);
    install_laws::header_of_install(total, o, guid, guid1, guid2);
    let end = 17408 + core.len() as int;
    let a = w.take(4);
    let b = w.skip(4);
    assert(w =~= a + b);
    disk_io::applied_in_turn(disk, a, b);
    disk_io::applied_len(disk, a);
    let d1 = disk_io::applied(disk, a);
    assert(core.take(core.len() as int) =~= core);
    assert(a[3].at == 17408 && a[3].data == core);
    assert(a.skip(4) =~= Seq::empty());
    disk_io::written_stays(disk, a, 3);
    let c = b.take(1);
    let e = b.skip(1);
    assert(b =~= c + e);
    assert(c =~= seq![disk_io::write_at(17908, seq![0x23u8])]);
    disk_io::applied_in_turn(d1, c, e);
    let d2 = disk_io::applied(d1, c);
    assert(c.drop_last() =~= Seq::empty());
    assert(d2 == bytes::overlay(d1, 17908, seq![0x23u8])) by {
        reveal_with_fuel(disk_io::applied, 2);
    }
    assert(e =~= disk_layout::gpt_writes(g) + seq![
        disk_io::write_at(0, installer::capped(boot, 440)),
        disk_io::write_at(384, guid),
        disk_io::write_at(440, guid.subrange(12, 16)),
    ]);
    tables_spare_the_core(g, total, boot, guid, e, end);
    disk_io::spared_stays(d2, e, 17408, end);
    let d = disk_io::applied(d2, e);
    assert(d.subrange(17408, end) == d2.subrange(17408, end));
    assert forall|i: int| 17408 <= i < end implies #[trigger] d[i] == (if i == 17908 {
        0x23
    } else {
        core[i - 17408]
    }) by {
        assert(d.subrange(17408, end)[i - 17408] == d2.subrange(17408, end)[i - 17408]);
        assert(d1.subrange(17408, end)[i - 17408] == core[i - 17408]);
    }
    assert(d.subrange(17408, 17908) =~= core.subrange(0, 500));
    assert(d.subrange(17909, end) =~= core.skip(501));
}

proof fn tables_spare_the_core(
    g: GptView,
    total: int,
    boot: Seq<u8>,
    guid: Seq<u8>,
    e: Seq<WriteView>,
    end: int,
)
    requires
        disk_layout::gpt_wf(g),
        g.header.part_table_start_lba == 2,
        g.header.efi_backup_lba == total - 1,
        total >= 69632,
        guid.len() == 16,
        end <= 1048576,
        e == disk_layout::gpt_writes(g) + seq![
            disk_io::write_at(0, installer::capped(boot, 440)),
            disk_io::write_at(384, guid),
            disk_io::write_at(440, guid.subrange(12, 16)),
        ],
    ensures
        disk_io::all_spare(e, 17408, end),
{
    disk_layout::mbr_round_trip(g.mbr);
    disk_layout::header_round_trip(g.header);
    disk_layout::table_round_trip(g.partitions);
    assert forall|i: int| 0 <= i < e.len() implies disk_io::spares(#[trigger] e[i], 17408, end) by {
        assert(i == 0 || i == 1 || i == 2 || i == 3 || i == 4 || i == 5 || i == 6 || i == 7);
    }
}

/// The end of a disk that Choosable was installed to with a GPT holds the table and
/// the header once more, right behind each other.
pub proof fn end_of_new_gpt(
    disk: Seq<u8>,
    o: InstallOptions,
    guid: Seq<u8>,
    guid1: Seq<u8>,
    guid2: Seq<u8>,
    boot: Seq<u8>,
    core: Seq<u8>,
)
    requires
        o.use_gpt,
        installer::has_room((disk.len() / 512) as int, o.reserve_space_mb as int),
        disk.len() <= u64::MAX,
        guid.len() == 16,
        guid1.len() == 16,
        guid2.len() == 16,
    ensures
        ({
            let total = (disk.len() / 512) as int;
            let w = installer::install_writes(total, o, guid, guid1, guid2, boot, core);
            let d = disk_io::applied(disk, w);
            let last = (total - 1) * 512;
            &&& d.subrange(last - 16384, last) == d.subrange(1024, 17408)
            &&& d.subrange(last, last + 92) == d.subrange(512, 604)
        }),
{
    let total = (disk.len() / 512) as int;
    let w = installer::install_writes(total, o, guid, guid1, guid2, boot, core);
    let g = installer::installed_gpt(total, o.reserve_space_mb as int, guid, guid1, guid2);
    install_laws::header_of_install(total, o, guid, guid1, guid2);
    disk_layout::header_round_trip(g.header);
    disk_layout::table_round_trip(g.partitions);
    let last = (total - 1) * 512;
    let capped = installer::capped(boot, 440);
    assert(w.len() == 13);
    assert(w[6] == disk_io::write_at(512, disk_layout::header_front(g.header)));
    assert(w[7] == disk_io::write_at(1024, disk_layout::table_bytes(g.partitions)));
    assert(w[8] == disk_io::write_at(last, disk_layout::header_front(g.header)));
    assert(w[9] == disk_io::write_at(last - 16384, disk_layout::table_bytes(g.partitions)));
    assert(w[10] == disk_io::write_at(0, capped));
    assert(w[11] == disk_io::write_at(384, guid));
    assert(w[12] == disk_io::write_at(440, guid.subrange(12, 16)));
    spare_behind(w, 6, 512, 604);
    spare_behind(w, 7, 1024, 17408);
    spare_behind(w, 8, last, last + 92);
    spare_behind(w, 9, last - 16384, last);
    disk_io::written_stays(disk, w, 6);
    disk_io::written_stays(disk, w, 7);
    disk_io::written_stays(disk, w, 8);
    disk_io::written_stays(disk, w, 9);
}

proof fn spare_behind(w: Seq<WriteView>, k: int, from: int, to: int)
    requires
        0 <= k < w.len(),
        w.len() == 13,
        k >= 6,
        forall|i: int| k < i < 13 ==> disk_io::spares(#[trigger] w[i], from, to),
    ensures
        disk_io::all_spare(w.skip(k + 1), from, to),
{
    let t = w.skip(k + 1);
    assert forall|i: int| 0 <= i < t.len() implies disk_io::spares(#[trigger] t[i], from, to) by {
        assert(t[i] == w[i + k + 1]);
    }
}

/// A new installation touches nothing from 1 MiB on but for what a GPT has at the end
/// of the disk.
pub proof fn installation_leaves_the_rest(
    disk: Seq<u8>,
    o: InstallOptions,
    guid: Seq<u8>,
    guid1: Seq<u8>,
    guid2: Seq<u8>,
    boot: Seq<u8>,
    core: Seq<u8>,
)
    requires
        installer::has_room((disk.len() / 512) as int, o.reserve_space_mb as int),
        disk.len() <= u64::MAX,
        guid.len() == 16,
        guid1.len() == 16,
        guid2.len() == 16,
    ensures
        ({
            let total = (disk.len() / 512) as int;
            let w = installer::install_writes(total, o, guid, guid1, guid2, boot, core);
            let end = if o.use_gpt {
                (total - 33) * 512
            } else {
                disk.len() as int
            };
            disk_io::applied(disk, w).subrange(1048576, end) == disk.subrange(1048576, end)
        }),
{
    let total = (disk.len() / 512) as int;
    let w = installer::install_writes(total, o, guid, guid1, guid2, boot, core);
    let end = if o.use_gpt {
        (total - 33) * 512
    } else {
        disk.len() as int
    };
    if o.use_gpt {
        let g = installer::installed_gpt(total, o.reserve_space_mb as int, guid, guid1, guid2);
        install_laws::header_of_install(total, o, guid, guid1, guid2);
        disk_layout::mbr_round_trip(g.mbr);
        disk_layout::header_round_trip(g.header);
        disk_layout::table_round_trip(g.partitions);
        assert(w.len() == 13);
        assert forall|i: int| 0 <= i < w.len() implies disk_io::spares(
            #[trigger] w[i],
            1048576,
            end,
        ) by {
            assert(i == 0 || i == 1 || i == 2 || i == 3 || i == 4 || i == 5 || i == 6 || i == 7 || i
                == 8 || i == 9 || i == 10 || i == 11 || i == 12);
        }
    } else {
        let p2 = installer::part2_start(total, o);
        let m = install_laws::installed_mbr(boot, guid, p2);
        disk_layout::mbr_round_trip(m);
        assert(w[1].data == disk_layout::mbr_bytes(m));
        assert(w.len() == 3);
        assert forall|i: int| 0 <= i < w.len() implies disk_io::spares(
            #[trigger] w[i],
            1048576,
            end,
        ) by {
            assert(i == 0 || i == 1 || i == 2);
        }
    }
    disk_io::spared_stays(disk, w, 1048576, end);
}

proof fn type_guids()
    ensures
        crate::constants::GPT_TYPE_BASIC_DATA@ == seq![
            0xA2u8, 0xA0, 0xD0, 0xEB, 0xE5, 0xB9, 0x33, 0x44, 0x87, 0xC0, 0x68, 0xB6, 0xB7, 0x26, 0x99, 0xC7,
        ],
        crate::constants::GPT_TYPE_EFI_SYSTEM@ == seq![
            0x28u8, 0x73, 0x2A, 0xC1, 0x1F, 0xF8, 0xD2, 0x11, 0xBA, 0x4B, 0x00, 0xA0, 0xC9, 0x3E, 0xC9, 0x3B,
        ],
{
    assert(crate::constants::GPT_TYPE_BASIC_DATA@ =~= seq![
        0xA2u8, 0xA0, 0xD0, 0xEB, 0xE5, 0xB9, 0x33, 0x44, 0x87, 0xC0, 0x68, 0xB6, 0xB7, 0x26, 0x99, 0xC7,
    ]);
    assert(crate::constants::GPT_TYPE_EFI_SYSTEM@ =~= seq![
        0x28u8, 0x73, 0x2A, 0xC1, 0x1F, 0xF8, 0xD2, 0x11, 0xBA, 0x4B, 0x00, 0xA0, 0xC9, 0x3E, 0xC9, 0x3B,
    ]);
}

proof fn efi_name(i: int)
    requires
        0 <= i < 36,
    ensures
        crate::constants::GPT_PART1_NAME@[i] == (if i < 7 {
            seq![0x43int, 0x5A, 0x42, 0x4C, 0x45, 0x46, 0x49][i]
        } else {
            0
        }),
{
    let n = crate::constants::GPT_PART1_NAME@;
    let s = seq![0x43int, 0x5A, 0x42, 0x4C, 0x45, 0x46, 0x49];
    assert(s[0] == 0x43 && s[1] == 0x5A && s[2] == 0x42 && s[3] == 0x4C && s[4] == 0x45 && s[5]
        == 0x46 && s[6] == 0x49);
    assert(n =~= seq![
        0x43u16, 0x5A, 0x42, 0x4C, 0x45, 0x46, 0x49, 0, 0, 0, 0, 0, 0, 0, 0, 0, 0, 0, 0, 0, 0, 0, 0, 0, 0, 0, 0, 0,
        0, 0, 0, 0, 0, 0, 0, 0,
    ]);
}

} // verus!
