//! How files are found on the volumes that are read.

use vstd::prelude::*;
use crate::bytes;
use crate::efi::fs;
use crate::efi::fs::PayloadType;
use crate::scan::chain;
use crate::scan::chain::{ChainKind, ChainPos, Geometry};
use crate::scan::dir;
use crate::scan::dir::{Reader, ScanAction, Volume, VolumeKind};
use crate::scan::exfat;
use crate::scan::exfat::NameRule;
use crate::scan::fat32;
use crate::scan::fat32::{Fat32Rule, LongNameView};
use crate::scan::found;
use crate::scan::ntfs;
use crate::scan::ntfs::NtfsGeometry;

verus! {

/// The number in the two bytes at `at`, the lower byte first.
pub open spec fn number2(s: Seq<u8>, at: int) -> int {
    s[at] + 256 * s[at + 1]
}

/// The number in the four bytes at `at`, the lowest byte first.
pub open spec fn number4(s: Seq<u8>, at: int) -> int {
    s[at] + 256 * s[at + 1] + 65536 * s[at + 2] + 16777216 * s[at + 3]
}

/// The number in the eight bytes at `at`, the lowest byte first.
pub open spec fn number8(s: Seq<u8>, at: int) -> int {
    number4(s, at) + 0x1_0000_0000 * number4(s, at + 4)
}

// ---------------------------------------------------------------------------
// Names
// ---------------------------------------------------------------------------

/// The bytes of `s` in lower case.
pub open spec fn lower_case(s: Seq<u8>) -> Seq<u8> {
    Seq::new(
        s.len(),
        |i: int|
            if 65 <= s[i] <= 90 {
                (s[i] + 32) as u8
            } else {
                s[i]
            },
    )
}

/// Whether a name in lower case ends so.
pub open spec fn ends_in(name: Seq<u8>, end: Seq<u8>) -> bool {
    name.len() >= end.len() && lower_case(name).skip(name.len() - end.len()) == end
}

proof fn suffix_is_end(name: Seq<u8>, end: Seq<u8>)
    requires
        forall|i: int| 0 <= i < end.len() ==> !(65 <= #[trigger] end[i] <= 90),
    ensures
        bytes::has_suffix(name, end) == ends_in(name, end),
{
    let at = name.len() - end.len();
    if at >= 0 {
        let t = name.subrange(at, name.len() as int);
        let l = lower_case(name).skip(at);
        assert forall|i: int| 0 <= i < end.len() implies bytes::spec_lower(#[trigger] t[i]) == l[i]
            && bytes::spec_lower(end[i]) == end[i] by {}
        if bytes::same_ignoring_case(t, end) {
            assert forall|i: int| 0 <= i < end.len() implies l[i] == end[i] by {
                assert(bytes::spec_lower(t[i]) == bytes::spec_lower(end[i]));
            }
            assert(l =~= end);
        }
        if l == end {
            assert forall|i: int| 0 <= i < t.len() implies bytes::spec_lower(#[trigger] t[i])
                == bytes::spec_lower(end[i]) by {
                assert(l[i] == end[i]);
            }
        }
    }
}

proof fn endings()
    ensures
        bytes::text(".iso") == seq![0x2Eu8, 0x69, 0x73, 0x6F],
        bytes::text(".wim") == seq![0x2Eu8, 0x77, 0x69, 0x6D],
        bytes::text(".img") == seq![0x2Eu8, 0x69, 0x6D, 0x67],
        bytes::text(".vhd") == seq![0x2Eu8, 0x76, 0x68, 0x64],
        bytes::text(".vhdx") == seq![0x2Eu8, 0x76, 0x68, 0x64, 0x78],
        bytes::text(".efi") == seq![0x2Eu8, 0x65, 0x66, 0x69],
{
    reveal_strlit(".iso");
    reveal_strlit(".wim");
    reveal_strlit(".img");
    reveal_strlit(".vhd");
    reveal_strlit(".vhdx");
    reveal_strlit(".efi");
    vstd::string::is_ascii_spec_bytes(".iso");
    vstd::string::is_ascii_spec_bytes(".wim");
    vstd::string::is_ascii_spec_bytes(".img");
    vstd::string::is_ascii_spec_bytes(".vhd");
    vstd::string::is_ascii_spec_bytes(".vhdx");
    vstd::string::is_ascii_spec_bytes(".efi");
    assert(bytes::text(".iso") =~= seq![0x2Eu8, 0x69, 0x73, 0x6F]);
    assert(bytes::text(".wim") =~= seq![0x2Eu8, 0x77, 0x69, 0x6D]);
    assert(bytes::text(".img") =~= seq![0x2Eu8, 0x69, 0x6D, 0x67]);
    assert(bytes::text(".vhd") =~= seq![0x2Eu8, 0x76, 0x68, 0x64]);
    assert(bytes::text(".vhdx") =~= seq![0x2Eu8, 0x76, 0x68, 0x64, 0x78]);
    assert(bytes::text(".efi") =~= seq![0x2Eu8, 0x65, 0x66, 0x69]);
}

/// A file can be booted when its name ends in `.iso`, `.wim`, `.img`, `.vhd`, `.vhdx`
/// or `.efi`, in either case; the ending says what it is.
pub proof fn endings_tell_what_boots(name: Seq<u8>)
    ensures
        ({
            let iso = ends_in(name, seq![0x2Eu8, 0x69, 0x73, 0x6F]);
            let wim = ends_in(name, seq![0x2Eu8, 0x77, 0x69, 0x6D]);
            let img = ends_in(name, seq![0x2Eu8, 0x69, 0x6D, 0x67]);
            let vhd = ends_in(name, seq![0x2Eu8, 0x76, 0x68, 0x64]);
            let vhdx = ends_in(name, seq![0x2Eu8, 0x76, 0x68, 0x64, 0x78]);
            let efi = ends_in(name, seq![0x2Eu8, 0x65, 0x66, 0x69]);
            &&& found::is_bootable(name) <==> iso || wim || img || vhd || vhdx || efi
            &&& iso ==> fs::type_of(name) == PayloadType::Iso
            &&& wim ==> fs::type_of(name) == PayloadType::Wim
            &&& img ==> fs::type_of(name) == PayloadType::Img
            &&& vhd ==> fs::type_of(name) == PayloadType::Vhd
            &&& vhdx ==> fs::type_of(name) == PayloadType::Vhdx
            &&& efi ==> fs::type_of(name) == PayloadType::Efi
        }),
{
    endings();
    let iso = seq![0x2Eu8, 0x69, 0x73, 0x6F];
    let wim = seq![0x2Eu8, 0x77, 0x69, 0x6D];
    let img = seq![0x2Eu8, 0x69, 0x6D, 0x67];
    let vhd = seq![0x2Eu8, 0x76, 0x68, 0x64];
    let vhdx = seq![0x2Eu8, 0x76, 0x68, 0x64, 0x78];
    let efi = seq![0x2Eu8, 0x65, 0x66, 0x69];
    suffix_is_end(name, iso);
    suffix_is_end(name, wim);
    suffix_is_end(name, img);
    suffix_is_end(name, vhd);
    suffix_is_end(name, vhdx);
    suffix_is_end(name, efi);
    last_differs(name, iso, wim);
    last_differs(name, iso, img);
    last_differs(name, iso, vhd);
    last_differs(name, iso, vhdx);
    last_differs(name, iso, efi);
    last_differs(name, img, wim);
    last_differs(name, vhd, wim);
    last_differs(name, vhd, img);
    last_differs(name, vhdx, wim);
    last_differs(name, vhdx, img);
    last_differs(name, vhdx, vhd);
    last_differs(name, efi, wim);
    last_differs(name, efi, img);
    last_differs(name, efi, vhd);
    last_differs(name, efi, vhdx);
}

proof fn last_differs(name: Seq<u8>, a: Seq<u8>, b: Seq<u8>)
    requires
        a.len() > 0,
        b.len() > 0,
        a.last() != b.last(),
    ensures
        !(ends_in(name, a) && ends_in(name, b)),
{
    if ends_in(name, a) && ends_in(name, b) {
        let l = lower_case(name);
        assert(l.skip(name.len() - a.len())[a.len() - 1] == l[name.len() - 1]);
        assert(l.skip(name.len() - b.len())[b.len() - 1] == l[name.len() - 1]);
    }
}

// ---------------------------------------------------------------------------
// Clusters
// ---------------------------------------------------------------------------

/// The links of the clusters stand in the table one behind the other, four bytes
/// each.
pub proof fn links_stand_in_a_row(fat_start: u64, cluster: u32, s: Seq<u8>)
    requires
        fat_start + cluster <= u64::MAX,
        s.len() == 512,
    ensures
        chain::spec_fat_lba(fat_start, cluster) * 512 + 4 * cluster % 512 == fat_start * 512 + 4
            * cluster,
        chain::spec_fat_entry(Some(s), cluster) == number4(s, 4 * cluster % 512),
        chain::spec_next_cluster(ChainKind::Exfat, chain::spec_fat_entry(None, cluster)) is None,
        chain::spec_next_cluster(ChainKind::Fat32, chain::spec_fat_entry(None, cluster)) is None,
{
}

/// A link names the next cluster, unless it ends the chain or names none: of a
/// FAT32 link the lower 28 bits count.
pub proof fn links_name_the_next_cluster(link: u32)
    ensures
        ({
            let e = chain::spec_next_cluster(ChainKind::Exfat, link);
            let f = chain::spec_next_cluster(ChainKind::Fat32, link);
            let low = link % 0x1000_0000;
            &&& e matches Some(c) ==> c == link
            &&& e is None <==> link == 0 || link == 1 || link > 0xFFFF_FFF7
            &&& f matches Some(c) ==> c == low
            &&& f is None <==> low == 0 || low == 1 || low > 0x0FFF_FFEF
        }),
{
}

/// A cluster is read sector by sector, each behind the one before, and its link after
/// the last. Clusters are counted from 2.
pub proof fn cluster_is_read_in_order(g: Geometry, cluster: u32, sector: u32)
    requires
        2 <= cluster,
        sector < g.spc,
        g.heap_start + (cluster - 2) * g.spc + g.spc <= u64::MAX,
        g.fat_start + cluster <= u64::MAX,
    ensures
        chain::spec_enter(g, cluster) == (ChainPos::Data { cluster, sector: 0 }),
        chain::spec_wanted(g, ChainPos::Data { cluster, sector }) == g.heap_start + (cluster - 2)
            * g.spc + sector,
        sector + 1 < g.spc ==> chain::spec_after_data(g, cluster, sector) == (ChainPos::Data {
            cluster,
            sector: (sector + 1) as u32,
        }),
        sector + 1 == g.spc ==> chain::spec_after_data(g, cluster, sector) == (ChainPos::Link {
            cluster,
        }),
        chain::spec_wanted(g, ChainPos::Link { cluster }) == g.fat_start + cluster / 128,
{
    chain::cluster_lba_exact(g, cluster, sector);
}

/// The first sector that is read of a volume is that of its root directory.
pub proof fn reading_starts_with_the_root(vol: Volume)
    requires
        vol.kind == VolumeKind::Ntfs || 2 <= vol.root_cluster && vol.geometry.spc > 0
            && vol.geometry.heap_start + (vol.root_cluster - 2) * vol.geometry.spc <= u64::MAX,
        vol.kind == VolumeKind::Ntfs ==> 512 <= vol.ntfs.mft_record_size <= 4096
            && vol.ntfs.mft_start_lba + 40 <= u64::MAX,
    ensures
        ({
            let first = dir::scan_wanted(vol, dir::scan_start(vol, Seq::empty()).step);
            if vol.kind == VolumeKind::Ntfs {
                first == ScanAction::ReadSector(
                    (vol.ntfs.mft_start_lba + 5 * (vol.ntfs.mft_record_size as int / 512)) as u64,
                )
            } else {
                first == ScanAction::ReadSector(
                    (vol.geometry.heap_start + (vol.root_cluster - 2) * vol.geometry.spc) as u64,
                )
            }
        }),
{
    if vol.kind != VolumeKind::Ntfs {
        chain::cluster_lba_exact(vol.geometry, vol.root_cluster, 0);
    }
}

/// The records of an NTFS volume stand one behind the other, and the sectors of each.
pub proof fn records_stand_in_a_row(g: NtfsGeometry, record: u32, have: int)
    requires
        0 <= have,
        have % 512 == 0,
        g.mft_record_size <= 4096,
        g.mft_start_lba + record * 8 + have <= u64::MAX,
    ensures
        dir::record_lba(g, record, have) * 512 == g.mft_start_lba * 512 + record * (
        g.mft_record_size as int / 512 * 512) + have,
{
    let n = g.mft_record_size as int / 512;
    assert(n <= 8);
    assert(record * n <= record * 8) by (nonlinear_arith)
        requires
            n <= 8,
            record >= 0,
    ;
    assert(record * n >= 0) by (nonlinear_arith)
        requires
            n >= 0,
            record >= 0,
    ;
    assert(record * (n * 512) == record * n * 512) by (nonlinear_arith);
}

// ---------------------------------------------------------------------------
// FAT32
// ---------------------------------------------------------------------------

/// An entry tells by its first cluster where its file starts, and how long it is.
pub proof fn fat32_entry_tells_of_its_file(g: Geometry, rule: Fat32Rule, l: LongNameView, e: Seq<u8>)
    requires
        e.len() == 32,
        2 <= e[26] + 256 * e[27] + 65536 * e[20] + 16777216 * e[21],
        g.heap_start + (e[26] + 256 * e[27] + 65536 * e[20] + 16777216 * e[21] - 2) * g.spc
            <= u64::MAX,
    ensures
        ({
            let f = fat32::entry_file(g, rule, l, e);
            let c = e[26] + 256 * e[27] + 65536 * e[20] + 16777216 * e[21];
            &&& f.lba == g.heap_start + (c - 2) * g.spc
            &&& f.size == number4(e, 28)
        }),
{
    let c = e[26] + 256 * e[27] + 65536 * e[20] + 16777216 * e[21];
    assert(fat32::first_cluster(e) == c);
    chain::cluster_lba_exact(g, c as u32, 0);
}

proof fn spaces_end(e: Seq<u8>, at: int, n: int, to: int)
    requires
        0 <= at <= n <= to <= e.len(),
        forall|i: int| at <= i < n ==> #[trigger] e[i] != 0x20,
        n < to ==> e[n] == 0x20,
    ensures
        fat32::until_space(e, at, to) == e.subrange(at, n),
    decreases n - at,
{
    if at < n {
        assert(e[at] != 0x20);
        spaces_end(e, at + 1, n, to);
        assert(seq![e[at]] + e.subrange(at + 1, n) =~= e.subrange(at, n));
    } else {
        assert(fat32::until_space(e, at, to) =~= e.subrange(at, n));
    }
}

/// A short name is the eight bytes of its base and the three of its ending, without
/// the spaces behind each and with a dot between them.
pub proof fn short_name_has_a_dot(e: Seq<u8>, n: int, m: int)
    requires
        e.len() == 32,
        0 <= n <= 8,
        0 <= m <= 3,
        forall|i: int| 0 <= i < n ==> #[trigger] e[i] != 0x20,
        forall|i: int| 8 <= i < 8 + m ==> #[trigger] e[i] != 0x20,
        n < 8 ==> e[n] == 0x20,
        m < 3 ==> e[8 + m] == 0x20,
    ensures
        m > 0 ==> fat32::short_name(e) == e.subrange(0, n) + seq![0x2Eu8] + e.subrange(8, 8 + m),
        m == 0 ==> fat32::short_name(e) == e.subrange(0, n),
{
    spaces_end(e, 0, n, 8);
    spaces_end(e, 8, 8 + m, 11);
    if m > 0 {
        assert(e[8] != 0x20);
    }
}

/// Where the characters of a part of a long name stand in its entry.
pub open spec fn char_place(i: int) -> int {
    if i < 5 {
        1 + 2 * i
    } else if i < 11 {
        14 + 2 * (i - 5)
    } else {
        28 + 2 * (i - 11)
    }
}

proof fn lead_counts(chars: Seq<u8>, i: int, n: int)
    requires
        0 <= i <= n <= chars.len(),
        forall|k: int| i <= k < n ==> #[trigger] chars[k] != 0 && chars[k] != 0xFF,
        n < chars.len() ==> chars[n] == 0 || chars[n] == 0xFF,
    ensures
        fat32::lead(chars, i) == n - i,
    decreases n - i,
{
    if i < n {
        assert(chars[i] != 0 && chars[i] != 0xFF);
        lead_counts(chars, i + 1, n);
    }
}

/// A part of a long name goes where its number says, thirteen characters to a part.
/// The last part comes first and tells how long the name is.
pub proof fn long_name_parts_fall_into_place(l: LongNameView, e: Seq<u8>, n: int)
    requires
        e.len() == 32,
        l.buf.len() == 256,
        1 <= e[0] % 32 <= 19,
        0 <= n <= 13,
        forall|i: int| 0 <= i < n ==> 0 < e[#[trigger] char_place(i)] < 128,
        n < 13 ==> e[char_place(n)] == 0 || e[char_place(n)] == 0xFF,
        e[0] / 64 % 2 == 0 ==> l.seq == e[0] % 32 && l.checksum == e[13],
    ensures
        ({
            let r = fat32::take_part(l, e);
            let start = (e[0] % 32 - 1) * 13;
            &&& r.seq == e[0] % 32 - 1
            &&& r.checksum == e[13]
            &&& e[0] / 64 % 2 == 1 ==> r.len == start + n
            &&& e[0] / 64 % 2 == 0 ==> r.len == l.len
            &&& r.buf.len() == 256
            &&& forall|i: int| 0 <= i < n ==> r.buf[start + i] == e[#[trigger] char_place(i)]
            &&& forall|k: int|
                0 <= k < 256 && !(start <= k < start + n) ==> #[trigger] r.buf[k] == l.buf[k]
        }),
{
    let chars = fat32::name_chars(e);
    assert forall|i: int| 0 <= i < 13 implies #[trigger] chars[i] == e[char_place(i)] by {
        assert(i == 0 || i == 1 || i == 2 || i == 3 || i == 4 || i == 5 || i == 6 || i == 7 || i == 8
            || i == 9 || i == 10 || i == 11 || i == 12);
    }
    assert forall|k: int| 0 <= k < n implies #[trigger] chars[k] != 0 && chars[k] != 0xFF by {
        assert(0 < e[char_place(k)] < 128);
    }
    lead_counts(chars, 0, n);
    let r = fat32::take_part(l, e);
    let start = (e[0] % 32 - 1) * 13;
    assert forall|i: int| 0 <= i < n implies r.buf[start + i] == e[#[trigger] char_place(i)] by {
        assert(chars[i] == e[char_place(i)]);
        assert(0 < e[char_place(i)] < 128);
    }
}

/// A part of a long name that does not follow on the one before, or belongs to another
/// name, is passed over.
pub proof fn stray_parts_are_passed_over(l: LongNameView, e: Seq<u8>)
    requires
        e.len() == 32,
        e[0] % 32 == 0 || e[0] % 32 > 20 || e[0] / 64 % 2 == 0 && (e[0] % 32 != l.seq || e[13]
            != l.checksum),
    ensures
        fat32::take_part(l, e) == l,
{
}

/// A file goes by its long name where one was gathered and long names are read, and
/// else by its short one.
pub proof fn long_name_comes_first(l: LongNameView, e: Seq<u8>)
    requires
        0 <= l.len <= l.buf.len(),
    ensures
        l.len > 0 && l.buf[0] != 0 ==> fat32::entry_name(Fat32Rule::LongNames, l, e) == l.buf.take(
            l.len,
        ),
        l.len == 0 || l.buf[0] == 0 ==> fat32::entry_name(Fat32Rule::LongNames, l, e)
            == fat32::short_name(e),
        fat32::entry_name(Fat32Rule::ShortNames, l, e) == fat32::short_name(e),
        fat32::cleared(l).len == 0,
        fat32::no_name().len == 0,
{
    assert(l.buf.subrange(0, l.len) =~= l.buf.take(l.len));
}

// ---------------------------------------------------------------------------
// exFAT
// ---------------------------------------------------------------------------

/// An entry set tells by its stream entry where its file starts and how long it is.
pub proof fn exfat_set_tells_of_its_file(g: Geometry, rule: NameRule, s: Seq<u8>, pos: int)
    requires
        0 <= pos,
        (pos + 2) * 32 <= s.len(),
        2 <= number4(s, (pos + 1) * 32 + 20),
        g.heap_start + (number4(s, (pos + 1) * 32 + 20) - 2) * g.spc <= u64::MAX,
    ensures
        ({
            let f = exfat::set_file(g, rule, s, pos);
            &&& f.lba == g.heap_start + (number4(s, (pos + 1) * 32 + 20) - 2) * g.spc
            &&& f.size == number8(s, (pos + 1) * 32 + 24)
        }),
{
    let at = (pos + 1) * 32 + 20;
    assert(bytes::spec_le32(s, at) == number4(s, at));
    chain::cluster_lba_exact(g, bytes::spec_le32(s, at), 0);
}

/// The unit `i` of the name that the name entries from `at` on hold, fifteen to each.
pub open spec fn name_unit(s: Seq<u8>, at: int, i: int) -> int {
    number2(s, at + i / 15 * 32 + 2 + i % 15 * 2)
}

proof fn units_are_text(s: Seq<u8>, at: int, n: nat)
    requires
        forall|i: int| 0 <= i < n ==> 0 < #[trigger] number2(s, at + 2 * i) < 128,
    ensures
        exfat::utf16_text(s, at, n).len() == n,
        forall|i: int|
            0 <= i < n ==> #[trigger] exfat::utf16_text(s, at, n)[i] == number2(s, at + 2 * i),
    decreases n,
{
    if n > 0 {
        assert(0 < number2(s, at + 2 * 0) < 128);
        assert forall|i: int| 0 <= i < n - 1 implies 0 < #[trigger] number2(s, at + 2 + 2 * i)
            < 128 by {
            assert(0 < number2(s, at + 2 * (i + 1)) < 128);
        }
        units_are_text(s, at + 2, (n - 1) as nat);
        let t = exfat::utf16_text(s, at, n);
        let u = exfat::utf16_text(s, at + 2, (n - 1) as nat);
        assert forall|i: int| 0 <= i < n implies #[trigger] t[i] == number2(s, at + 2 * i) by {
            if i > 0 {
                assert(t[i] == u[i - 1]);
                assert(at + 2 + 2 * (i - 1) == at + 2 * i);
            }
        }
    }
}

proof fn name_is_gathered(
    rule: NameRule,
    s: Seq<u8>,
    first: int,
    k: int,
    ents: nat,
    name_len: int,
    name: Seq<u8>,
)
    requires
        0 <= k,
        0 <= name_len <= 255,
        name.len() == bytes::min_int(15 * k, name_len),
        name_len <= 15 * (k + ents),
        forall|j: int| k <= j && 15 * j < name_len ==> s[#[trigger] (first + 32 * j)] == 0xC1,
        forall|i: int| 0 <= i < name_len ==> 0 < #[trigger] name_unit(s, first, i) < 128,
        forall|i: int| 0 <= i < name.len() ==> #[trigger] name[i] == name_unit(s, first, i),
    ensures
        ({
            let r = exfat::set_name(rule, s, first + 32 * k, ents, name_len, name);
            &&& r.len() == name_len
            &&& forall|i: int| 0 <= i < name_len ==> #[trigger] r[i] == name_unit(s, first, i)
        }),
    decreases ents,
{
    let at = first + 32 * k;
    let n = exfat::name_room(name_len, name.len() as int);
    if ents > 0 && 15 * k < name_len {
        assert(s[first + 32 * k] == 0xC1);
        assert(n == bytes::min_int(15, name_len - 15 * k));
        assert forall|i: int| 0 <= i < n implies 0 < #[trigger] number2(s, at + 2 + 2 * i) < 128 by {
            assert((15 * k + i) / 15 == k && (15 * k + i) % 15 == i);
            assert(0 < name_unit(s, first, 15 * k + i) < 128);
        }
        units_are_text(s, at + 2, n as nat);
        let chunk = exfat::name_chunk(rule, s, at + 2, n as nat);
        assert(chunk =~= exfat::utf16_text(s, at + 2, n as nat));
        let next = name + chunk;
        assert forall|i: int| 0 <= i < next.len() implies #[trigger] next[i] == name_unit(
            s,
            first,
            i,
        ) by {
            if i >= 15 * k {
                let d = i - 15 * k;
                assert((15 * k + d) / 15 == k && (15 * k + d) % 15 == d);
                assert(next[i] == chunk[d]);
                assert(chunk[d] == number2(s, at + 2 + 2 * d));
            } else {
                assert(next[i] == name[i]);
            }
        }
        name_is_gathered(rule, s, first, k + 1, (ents - 1) as nat, name_len, next);
    } else {
        assert(name.len() == name_len);
        assert(n <= 0);
    }
}

/// The name of a file on an exFAT volume is what its name entries hold, as many
/// characters as the stream entry says.
pub proof fn exfat_name_is_in_the_name_entries(g: Geometry, rule: NameRule, s: Seq<u8>, pos: int)
    requires
        0 <= pos,
        ({
            let len = s[(pos + 1) * 32 + 3] as int;
            let first = (pos + 2) * 32;
            &&& s[pos * 32 + 1] >= 1
            &&& len <= 15 * (s[pos * 32 + 1] - 1)
            &&& forall|j: int| 0 <= j && 15 * j < len ==> s[#[trigger] (first + 32 * j)] == 0xC1
            &&& forall|i: int| 0 <= i < len ==> 0 < #[trigger] name_unit(s, first, i) < 128
        }),
    ensures
        ({
            let f = exfat::set_file(g, rule, s, pos);
            let len = s[(pos + 1) * 32 + 3] as int;
            &&& f.name.len() == len
            &&& forall|i: int|
                0 <= i < len ==> #[trigger] f.name[i] == name_unit(s, (pos + 2) * 32, i)
        }),
{
    let len = s[(pos + 1) * 32 + 3] as int;
    let first = (pos + 2) * 32;
    name_is_gathered(
        rule,
        s,
        first,
        0,
        (s[pos * 32 + 1] - 1) as nat,
        len,
        Seq::empty(),
    );
}

/// A character outside ASCII is shown as a question mark.
pub proof fn other_characters_become_question_marks(unit: u16, s: Seq<u8>, at: int, n: nat)
    requires
        n > 0,
    ensures
        unit >= 128 ==> exfat::ascii_of(unit) == 0x3F,
        unit < 128 ==> exfat::ascii_of(unit) == unit,
        s[at] >= 128 ==> ntfs::index_name(s, at, n) == seq![0x3Fu8] + ntfs::index_name(
            s,
            at + 2,
            (n - 1) as nat,
        ),
        number2(s, at) >= 128 ==> exfat::utf16_text(s, at, n) == seq![0x3Fu8] + exfat::utf16_text(
            s,
            at + 2,
            (n - 1) as nat,
        ),
{
}

// ---------------------------------------------------------------------------
// NTFS
// ---------------------------------------------------------------------------

/// The last two bytes of each sector of a record are put back from where they were
/// saved; all else stays.
pub proof fn saved_bytes_are_put_back(rec: Seq<u8>, size: int, k: int)
    requires
        rec.len() == 4096,
        0 <= k < 4096,
        0 < size <= 4096,
        ({
            let at = number2(rec, 4);
            0 < at && at + 2 * number2(rec, 6) <= size && number2(rec, 6) > 1
        }),
    ensures
        ({
            let r = ntfs::fixed_up(rec, size);
            let at = number2(rec, 4);
            let i = k / 512 + 1;
            &&& r.len() == 4096
            &&& k % 512 < 510 || i >= number2(rec, 6) || i * 512 > size ==> r[k] == rec[k]
            &&& k % 512 == 510 && i < number2(rec, 6) && i * 512 <= size ==> r[k] == rec[at + 2 * i]
            &&& k % 512 == 511 && i < number2(rec, 6) && i * 512 <= size ==> r[k] == rec[at + 2 * i
                + 1]
        }),
{
}

/// The digits of a number to the base 256, the lowest first, make up the number.
pub proof fn bytes_make_up_the_number(s: Seq<u8>)
    ensures
        s.len() >= 1 ==> ntfs::varlen(s, 0, 1) == s[0],
        s.len() >= 2 ==> ntfs::varlen(s, 0, 2) == number2(s, 0),
        s.len() >= 3 ==> ntfs::varlen(s, 0, 3) == number2(s, 0) + 65536 * s[2],
        s.len() >= 4 ==> ntfs::varlen(s, 0, 4) == number4(s, 0),
{
    reveal_with_fuel(ntfs::varlen, 6);
}

proof fn varlen_bound(s: Seq<u8>, i: int, end: int)
    requires
        0 <= i <= end <= s.len(),
    ensures
        ntfs::varlen(s, i, end) < ntfs::pow256((end - i) as nat),
    decreases end - i,
{
    if i < end {
        varlen_bound(s, i + 1, end);
    }
}

proof fn varlen_top(s: Seq<u8>, i: int, end: int)
    requires
        0 <= i < end <= s.len(),
    ensures
        2 * ntfs::varlen(s, i, end) >= ntfs::pow256((end - i) as nat) <==> s[end - 1] >= 128,
    decreases end - i,
{
    if i + 1 < end {
        varlen_top(s, i + 1, end);
        varlen_bound(s, i + 1, end);
        let p = ntfs::pow256((end - i - 1) as nat);
        let v = ntfs::varlen(s, i + 1, end);
        pow_is_even((end - i - 1) as nat);
        assert(ntfs::pow256((end - i) as nat) == 256 * p);
        assert(ntfs::varlen(s, i, end) == s[i] + 256 * v);
        if 2 * v >= p {
        } else {
            assert(2 * v <= p - 2);
        }
    } else {
        reveal_with_fuel(ntfs::varlen, 2);
        reveal_with_fuel(ntfs::pow256, 2);
    }
}

proof fn pow_is_even(n: nat)
    requires
        n > 0,
    ensures
        ntfs::pow256(n) % 2 == 0,
{
    assert(ntfs::pow256(n) == 256 * ntfs::pow256((n - 1) as nat));
}

/// A signed number is negative when its highest bit is set.
pub proof fn highest_bit_is_the_sign(s: Seq<u8>, n: int)
    requires
        1 <= n <= 8,
        n <= s.len(),
    ensures
        s[n - 1] < 128 ==> ntfs::varlen_signed(s, n) == ntfs::varlen(s, 0, n),
        s[n - 1] >= 128 ==> ntfs::varlen_signed(s, n) == ntfs::varlen(s, 0, n) - ntfs::pow256(
            n as nat,
        ),
        s[n - 1] >= 128 <==> ntfs::varlen_signed(s, n) < 0,
{
    varlen_top(s, 0, n);
    varlen_bound(s, 0, n);
}

/// The data of a file start where the first run of its data attribute says: behind
/// as many clusters of the volume as the run counts.
pub proof fn data_start_where_the_run_says(g: NtfsGeometry, a: Seq<u8>, off: int)
    requires
        0 <= off,
        off + number4(a, off + 4) <= a.len(),
        a[off + 8] != 0,
        56 <= number4(a, off + 4),
        0 < number2(a, off + 0x20) < number4(a, off + 4),
        ({
            let run = number2(a, off + 0x20);
            let head = a[off + run] as int;
            &&& head > 0
            &&& 1 + head % 16 + head / 16 <= number4(a, off + 4) - run
        }),
    ensures
        ({
            let run = number2(a, off + 0x20);
            let head = a[off + run] as int;
            let cluster = ntfs::varlen_signed(
                a.subrange(off + run + 1 + head % 16, off + number4(a, off + 4)),
                head / 16,
            );
            &&& ntfs::data_run(g, a, off) matches Some(r)
            &&& cluster >= 0 && g.part1_lba + cluster * g.sectors_per_cluster <= u64::MAX ==> r.0
                == g.part1_lba + cluster * g.sectors_per_cluster
            &&& r.1 == number8(a, off + 0x30)
        }),
{
    let run = number2(a, off + 0x20);
    let head = a[off + run] as int;
    let t = a.subrange(off + run + 1 + head % 16, off + number4(a, off + 4));
    let cluster = ntfs::varlen_signed(t, head / 16);
    assert(bytes::spec_le32(a, off + 4) == number4(a, off + 4));
    assert(bytes::spec_le16(a, off + 0x20) == run);
    assert(bytes::spec_le64(a, off + 0x30) == number8(a, off + 0x30));
    if cluster >= 0 && g.part1_lba + cluster * g.sectors_per_cluster <= u64::MAX {
        let n = head / 16;
        if 1 <= n <= 8 {
            assert(t.len() >= n);
            varlen_bound(t, 0, n);
            reveal_with_fuel(ntfs::pow256, 9);
            pow_grows(n as nat);
            assert(cluster < 0x1_0000_0000_0000_0000);
        } else {
            assert(cluster == 0);
        }
        assert(chain::wrap64(cluster) == cluster);
        assert(cluster * g.sectors_per_cluster >= 0) by (nonlinear_arith)
            requires
                cluster >= 0,
        ;
    }
}

proof fn pow_grows(n: nat)
    requires
        n <= 8,
    ensures
        ntfs::pow256(n) <= 0x1_0000_0000_0000_0000,
{
    reveal_with_fuel(ntfs::pow256, 9);
}

/// Whether the attributes from `a` on lead to `b`, and none of them is that of data.
pub open spec fn attributes_pass(s: Seq<u8>, a: int, b: int) -> bool
    decreases b - a,
{
    if a >= b {
        a == b
    } else {
        &&& is_attribute(s, a)
        &&& number4(s, a) != 0x80
        &&& a + number4(s, a + 4) <= b
        &&& attributes_pass(s, a + number4(s, a + 4), b)
    }
}

/// Whether an attribute stands whole at `off`.
pub open spec fn is_attribute(s: Seq<u8>, off: int) -> bool {
    &&& off + 8 <= s.len()
    &&& number4(s, off) != 0
    &&& number4(s, off) != 0xFFFF_FFFF
    &&& number4(s, off + 4) >= 24
    &&& off + number4(s, off + 4) <= s.len()
}

/// The first attribute of data is the one that tells of the file.
pub proof fn first_data_attribute_counts(g: NtfsGeometry, s: Seq<u8>, a: int, b: int)
    requires
        0 <= a <= b,
        attributes_pass(s, a, b),
        is_attribute(s, b) ==> number4(s, b) == 0x80,
    ensures
        is_attribute(s, b) ==> ntfs::data_attr(g, s, a) == ntfs::data_run(g, s, b),
        !is_attribute(s, b) ==> ntfs::data_attr(g, s, a) is None,
    decreases b - a,
{
    assert(bytes::spec_le32(s, a) == number4(s, a));
    assert(bytes::spec_le32(s, a + 4) == number4(s, a + 4));
    if a < b {
        first_data_attribute_counts(g, s, a + number4(s, a + 4), b);
    }
}

proof fn index_name_is_read(s: Seq<u8>, at: int, n: nat)
    requires
        forall|i: int| 0 <= i < n ==> 0 < s[#[trigger] (at + 2 * i)] < 128,
    ensures
        ntfs::index_name(s, at, n).len() == n,
        forall|i: int| 0 <= i < n ==> #[trigger] ntfs::index_name(s, at, n)[i] == s[at + 2 * i],
    decreases n,
{
    if n > 0 {
        assert(0 < s[at + 2 * 0] < 128);
        assert forall|i: int| 0 <= i < n - 1 implies 0 < s[#[trigger] (at + 2 + 2 * i)] < 128 by {
            assert(at + 2 + 2 * i == at + 2 * (i + 1));
            assert(0 < s[at + 2 * (i + 1)] < 128);
        }
        index_name_is_read(s, at + 2, (n - 1) as nat);
        let t = ntfs::index_name(s, at, n);
        let u = ntfs::index_name(s, at + 2, (n - 1) as nat);
        assert forall|i: int| 0 <= i < n implies #[trigger] t[i] == s[at + 2 * i] by {
            if i > 0 {
                assert(t[i] == u[i - 1]);
                assert(at + 2 + 2 * (i - 1) == at + 2 * i);
            }
        }
    }
}

/// An index entry tells the record of its file and its name, one byte of each unit. It
/// counts when it is whole, is not the last of its index, and names a file that can be
/// booted.
pub proof fn index_entry_tells_of_its_file(s: Seq<u8>, at: int)
    requires
        0 <= at,
        at + 0x52 <= s.len(),
        forall|i: int|
            0 <= i < s[at + 0x50] ==> 0 < s[#[trigger] (at + 0x52 + 2 * i)] < 128,
    ensures
        ({
            let n = s[at + 0x50] as int;
            let name = Seq::new(n as nat, |i: int| s[at + 0x52 + 2 * i]);
            &&& ntfs::index_entry(s, at) is Some <==> {
                &&& at + 0x52 + 2 * n <= s.len()
                &&& n > 0
                &&& s[at + 12] / 2 % 2 == 0
                &&& number4(s, at) > 0
                &&& found::is_bootable(name)
            }
            &&& ntfs::index_entry(s, at) matches Some(c) ==> c.record == number4(s, at) && c.name
                == name
        }),
{
    let n = s[at + 0x50] as int;
    let name = Seq::new(n as nat, |i: int| s[at + 0x52 + 2 * i]);
    index_name_is_read(s, at + 0x52, s[at + 0x50] as nat);
    assert(ntfs::index_name(s, at + 0x52, n as nat) =~= name);
}

/// The attributes of a record start where its bytes 20 and 21 say, once the bytes that
/// were saved are put back.
pub proof fn attributes_start_where_the_record_says(rec: Seq<u8>, size: int)
    requires
        rec.len() == 4096,
        0 < size <= 4096,
    ensures
        ({
            let r = ntfs::fixed_up(rec, size);
            let at = number2(r, 20);
            &&& at < size ==> ntfs::attributes(rec, size) == Some(r.skip(at))
            &&& at >= size ==> ntfs::attributes(rec, size) is None
        }),
{
    assert(ntfs::record_buffer(rec) =~= rec);
    let r = ntfs::fixed_up(rec, size);
    let at = number2(r, 20);
    assert(r.len() == 4096);
    if at < size {
        assert(r.subrange(at, 4096) =~= r.skip(at));
    }
}

/// The names of a directory are in its index root, which is the value of a resident
/// attribute of the type 0x90; other attributes hold none.
pub proof fn names_are_in_the_index_root(a: Seq<u8>, off: int)
    requires
        0 <= off,
        is_attribute(a, off),
    ensures
        ({
            let len = number4(a, off + 4);
            let val = number2(a, off + 20);
            let rest = ntfs::index_attrs(a, off + len);
            &&& number4(a, off) == 0x90 && a[off + 8] == 0 && val < len ==> ntfs::index_attrs(a, off)
                == ntfs::index_root(a.subrange(off + val, off + len)) + rest
            &&& number4(a, off) != 0x90 || a[off + 8] != 0 ==> ntfs::index_attrs(a, off) == rest
        }),
{
    assert(bytes::spec_le32(a, off) == number4(a, off));
    assert(bytes::spec_le32(a, off + 4) == number4(a, off + 4));
    assert(bytes::spec_le16(a, off + 20) == number2(a, off + 20));
}

/// The entries of an index root start 16 bytes behind where it says.
pub proof fn index_starts_where_its_root_says(s: Seq<u8>)
    requires
        s.len() >= 20,
    ensures
        number4(s, 16) + 16 < s.len() ==> ntfs::index_root(s) == ntfs::index_entries(
            s,
            number4(s, 16) + 16,
        ),
        number4(s, 16) + 16 >= s.len() ==> ntfs::index_root(s).len() == 0,
{
}

/// Long names are read by the UEFI stage and short ones by the BIOS stage.
pub proof fn stages_read_names_their_own_way()
    ensures
        dir::fat32_rule(Reader::Uefi) == Fat32Rule::LongNames,
        dir::fat32_rule(Reader::Bios) == Fat32Rule::ShortNames,
        dir::name_rule(Reader::Uefi) == NameRule::Gapped,
        dir::name_rule(Reader::Bios) == NameRule::Packed,
{
}

} // verus!
