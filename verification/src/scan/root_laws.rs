//! What a scan of a whole root directory lists.

use vstd::prelude::*;
use crate::bytes;
use crate::scan::chain;
use crate::scan::chain::{ChainKind, ChainPos, Geometry};
use crate::scan::dir;
use crate::scan::dir::{Reader, ScanAction, ScanView, StepView, Volume, VolumeKind};
use crate::scan::exfat;
use crate::scan::exfat::{Block, NameRule};
use crate::scan::fat32;
use crate::scan::fat32::{Fat32Rule, LongNameView, Sector};
use crate::scan::found;
use crate::scan::found::{FileView, MAX_FILES};
use crate::scan::ntfs;
use crate::scan::ntfs::{CandidateView, NtfsGeometry, ROOT_RECORD};

verus! {

// ---------------------------------------------------------------------------
// The root directory on the disk
// ---------------------------------------------------------------------------

/// Whether all sectors of a disk that can be read have 512 bytes.
pub open spec fn has_sectors(disk: spec_fn(u64) -> Option<Seq<u8>>) -> bool {
    forall|lba: u64| (#[trigger] disk(lba)) matches Some(s) ==> s.len() == 512
}

/// Sector `k` of the root directory, as a cluster on the chain of the directory
/// and a sector of that cluster; `None` where the chain ends before it.
#[verifier::opaque]
pub open spec fn root_place(
    kind: ChainKind,
    vol: Volume,
    disk: spec_fn(u64) -> Option<Seq<u8>>,
    k: int,
) -> Option<(u32, u32)>
    decreases k,
{
    if k <= 0 {
        Some((vol.root_cluster, 0))
    } else {
        match root_place(kind, vol, disk, k - 1) {
            None => None,
            Some((c, q)) => if q + 1 < vol.geometry.spc {
                Some((c, (q + 1) as u32))
            } else {
                match chain::spec_next_cluster(
                    kind,
                    chain::spec_fat_entry(
                        disk(chain::spec_fat_lba(vol.geometry.fat_start, c)),
                        c,
                    ),
                ) {
                    None => None,
                    Some(next) => Some((next, 0)),
                }
            },
        }
    }
}

/// The first `m` sectors of the root directory, one behind the other; `None`
/// where one of them is not there or cannot be read.
#[verifier::opaque]
pub open spec fn root_bytes(
    kind: ChainKind,
    vol: Volume,
    disk: spec_fn(u64) -> Option<Seq<u8>>,
    m: int,
) -> Option<Seq<u8>>
    decreases m,
{
    if m <= 0 {
        Some(Seq::empty())
    } else {
        match (root_bytes(kind, vol, disk, m - 1), root_place(kind, vol, disk, m - 1)) {
            (Some(a), Some((c, q))) => match disk(chain::spec_cluster_lba(vol.geometry, c, q)) {
                Some(s) => Some(a + s),
                None => None,
            },
            _ => None,
        }
    }
}

/// Each sector of the root directory is where it was read.
proof fn root_sector(
    kind: ChainKind,
    vol: Volume,
    disk: spec_fn(u64) -> Option<Seq<u8>>,
    m: int,
    k: int,
)
    requires
        has_sectors(disk),
        0 <= k < m,
        root_bytes(kind, vol, disk, m) is Some,
    ensures
        ({
            let all = root_bytes(kind, vol, disk, m)->0;
            let (c, q) = root_place(kind, vol, disk, k)->0;
            &&& all.len() == 512 * m
            &&& root_place(kind, vol, disk, k) is Some
            &&& disk(chain::spec_cluster_lba(vol.geometry, c, q)) == Some(
                all.subrange(512 * k, 512 * k + 512),
            )
        }),
    decreases m,
{
    reveal_with_fuel(root_bytes, 2);
    let all = root_bytes(kind, vol, disk, m)->0;
    let front = root_bytes(kind, vol, disk, m - 1)->0;
    let (c, q) = root_place(kind, vol, disk, m - 1)->0;
    let last = disk(chain::spec_cluster_lba(vol.geometry, c, q))->0;
    assert(last.len() == 512);
    assert(front.len() == 512 * (m - 1)) by {
        if m > 1 {
            root_sector(kind, vol, disk, m - 1, 0);
        }
    }
    if k < m - 1 {
        root_sector(kind, vol, disk, m - 1, k);
        assert(all.subrange(512 * k, 512 * k + 512) =~= front.subrange(512 * k, 512 * k + 512));
    } else {
        assert(all.subrange(512 * k, 512 * k + 512) =~= last);
    }
}

/// A run that is one sector longer takes one step more, at its start.
proof fn run_step(
    vol: Volume,
    reader: Reader,
    disk: spec_fn(u64) -> Option<Seq<u8>>,
    scan: ScanView,
    lba: u64,
    n: nat,
)
    requires
        dir::scan_wanted(vol, scan.step) == ScanAction::ReadSector(lba),
    ensures
        dir::scan_run(vol, reader, disk, scan, n + 1) == dir::scan_run(
            vol,
            reader,
            disk,
            dir::scan_next(vol, reader, scan, disk(lba)),
            n,
        ),
{
}

// ---------------------------------------------------------------------------
// FAT32
// ---------------------------------------------------------------------------

/// A scan waiting for sector `k` of a FAT32 directory.
spec fn fat32_before(
    vol: Volume,
    disk: spec_fn(u64) -> Option<Seq<u8>>,
    k: int,
    l: LongNameView,
    files: Seq<FileView>,
) -> ScanView {
    let (c, q) = root_place(ChainKind::Fat32, vol, disk, k)->0;
    ScanView {
        files,
        step: StepView::Fat32 { pos: ChainPos::Data { cluster: c, sector: q }, long: l },
    }
}

/// What the next sector adds.
proof fn fat32_one_step(
    vol: Volume,
    reader: Reader,
    disk: spec_fn(u64) -> Option<Seq<u8>>,
    k: int,
    l: LongNameView,
    files: Seq<FileView>,
    sec: Seq<u8>,
)
    requires
        ({
            let (c, q) = root_place(ChainKind::Fat32, vol, disk, k)->0;
            disk(chain::spec_cluster_lba(vol.geometry, c, q)) == Some(sec)
        }),
    ensures
        ({
            let out = fat32::entries(
                vol.geometry,
                dir::fat32_rule(reader),
                MAX_FILES as nat,
                sec,
                0,
                l,
                files,
            );
            dir::scan_run(vol, reader, disk, fat32_before(vol, disk, k, l, files), 1).files
                == out.files
        }),
{
    let (c, q) = root_place(ChainKind::Fat32, vol, disk, k)->0;
    let scan = fat32_before(vol, disk, k, l, files);
    run_step(vol, reader, disk, scan, chain::spec_cluster_lba(vol.geometry, c, q), 0);
}

/// A sector in which the directory does not end takes the scan to the next one.
proof fn fat32_sector_step(
    vol: Volume,
    reader: Reader,
    disk: spec_fn(u64) -> Option<Seq<u8>>,
    k: int,
    l: LongNameView,
    files: Seq<FileView>,
    sec: Seq<u8>,
    rest: nat,
) -> (n: nat)
    requires
        0 <= k,
        vol.geometry.spc > 0,
        root_place(ChainKind::Fat32, vol, disk, k) is Some,
        root_place(ChainKind::Fat32, vol, disk, k + 1) is Some,
        ({
            let (c, q) = root_place(ChainKind::Fat32, vol, disk, k)->0;
            disk(chain::spec_cluster_lba(vol.geometry, c, q)) == Some(sec)
        }),
        !fat32::entries(
            vol.geometry,
            dir::fat32_rule(reader),
            MAX_FILES as nat,
            sec,
            0,
            l,
            files,
        ).end,
    ensures
        ({
            let out = fat32::entries(
                vol.geometry,
                dir::fat32_rule(reader),
                MAX_FILES as nat,
                sec,
                0,
                l,
                files,
            );
            dir::scan_run(vol, reader, disk, fat32_before(vol, disk, k, l, files), n)
                == dir::scan_run(
                vol,
                reader,
                disk,
                fat32_before(vol, disk, k + 1, out.name, out.files),
                rest,
            )
        }),
{
    reveal_with_fuel(root_place, 2);
    let g = vol.geometry;
    let (c, q) = root_place(ChainKind::Fat32, vol, disk, k)->0;
    let scan = fat32_before(vol, disk, k, l, files);
    let lba = chain::spec_cluster_lba(g, c, q);
    let next = dir::scan_next(vol, reader, scan, Some(sec));
    if q + 1 < g.spc {
        run_step(vol, reader, disk, scan, lba, rest);
        rest + 1
    } else {
        run_step(vol, reader, disk, scan, lba, rest + 1);
        run_step(vol, reader, disk, next, chain::spec_fat_lba(g.fat_start, c), rest);
        rest + 2
    }
}

/// Entry `i` of a FAT32 directory.
pub open spec fn entry(s: Seq<u8>, i: int) -> Seq<u8> {
    s.subrange(i * 32, i * 32 + 32)
}

/// Whether entry `e` of a FAT32 directory is a file: in use, and neither part of
/// a long name nor a volume label.
pub open spec fn is_fat32_file(e: Seq<u8>) -> bool {
    e[0] != 0 && e[0] != 0xE5 && e[11] != 0x0F && e[11] / 8 % 2 == 0
}

/// The long name after entry `e`.
pub open spec fn name_after(rule: Fat32Rule, l: LongNameView, e: Seq<u8>) -> LongNameView {
    if e[0] != 0xE5 && e[11] == 0x0F {
        if rule == Fat32Rule::LongNames {
            fat32::take_part(l, e)
        } else {
            l
        }
    } else {
        fat32::cleared(l)
    }
}

/// The long name that entries `j` to `i` leave for entry `i`.
pub open spec fn name_gathered(rule: Fat32Rule, s: Seq<u8>, j: int, i: int, l: LongNameView) -> LongNameView
    decreases i - j,
{
    if j >= i {
        l
    } else {
        name_gathered(rule, s, j + 1, i, name_after(rule, l, entry(s, j)))
    }
}

/// The bootable files among entries `j` to `i`.
pub open spec fn fat32_images(
    g: Geometry,
    rule: Fat32Rule,
    s: Seq<u8>,
    j: int,
    i: int,
    l: LongNameView,
) -> Seq<FileView>
    decreases i - j,
{
    let e = entry(s, j);
    if j >= i {
        Seq::empty()
    } else {
        let rest = fat32_images(g, rule, s, j + 1, i, name_after(rule, l, e));
        if is_fat32_file(e) && found::is_bootable(fat32::entry_name(rule, l, e)) {
            seq![fat32::entry_file(g, rule, l, e)] + rest
        } else {
            rest
        }
    }
}

/// Whether a FAT32 directory does not end at any of entries `j` to `i`.
pub open spec fn goes_on(s: Seq<u8>, j: int, i: int) -> bool {
    forall|k: int| j <= k < i ==> #[trigger] entry(s, k)[0] != 0
}

/// Every bootable file in a sector of a FAT32 directory is listed, with where it
/// starts and its size, if the directory does not end before it and the bootable
/// files before it leave room in the list.
pub proof fn fat32_file_is_listed(
    g: Geometry,
    rule: Fat32Rule,
    s: Seq<u8>,
    j: int,
    i: int,
    l: LongNameView,
    files: Seq<FileView>,
)
    requires
        0 <= j <= i < 16,
        goes_on(s, j, i),
        is_fat32_file(entry(s, i)),
        found::is_bootable(
            fat32::entry_name(rule, name_gathered(rule, s, j, i, l), entry(s, i)),
        ),
        files.len() + fat32_images(g, rule, s, j, i, l).len() < MAX_FILES,
    ensures
        fat32::entries(g, rule, MAX_FILES as nat, s, j, l, files).files.contains(
            fat32::entry_file(g, rule, name_gathered(rule, s, j, i, l), entry(s, i)),
        ),
    decreases i - j,
{
    let e = entry(s, j);
    let out = fat32::entries(g, rule, MAX_FILES as nat, s, j, l, files).files;
    if j == i {
        let file = fat32::entry_file(g, rule, l, e);
        assert(name_after(rule, l, e) == fat32::cleared(l));
        dir::fat32_entries_extend(g, rule, s, j + 1, fat32::cleared(l), files.push(file));
        assert(out[files.len() as int] == file);
    } else {
        assert(e[0] != 0);
        let more = if is_fat32_file(e) {
            exfat::list_bootable(files, MAX_FILES as nat, fat32::entry_file(g, rule, l, e))
        } else {
            files
        };
        fat32_file_is_listed(g, rule, s, j + 1, i, name_after(rule, l, e), more);
    }
}

/// A sector of a FAT32 directory that does not end in it adds all its bootable
/// files, if they fit.
proof fn fat32_sector_passed(
    g: Geometry,
    rule: Fat32Rule,
    s: Seq<u8>,
    j: int,
    l: LongNameView,
    files: Seq<FileView>,
)
    requires
        0 <= j <= 16,
        goes_on(s, j, 16),
        files.len() + fat32_images(g, rule, s, j, 16, l).len() <= MAX_FILES,
    ensures
        fat32::entries(g, rule, MAX_FILES as nat, s, j, l, files) == (Sector {
            name: name_gathered(rule, s, j, 16, l),
            files: files + fat32_images(g, rule, s, j, 16, l),
            end: false,
        }),
    decreases 16 - j,
{
    if j == 16 {
        assert(files + Seq::<FileView>::empty() =~= files);
    } else {
        let e = entry(s, j);
        assert(e[0] != 0);
        let rest = fat32_images(g, rule, s, j + 1, 16, name_after(rule, l, e));
        if is_fat32_file(e) && found::is_bootable(fat32::entry_name(rule, l, e)) {
            let file = fat32::entry_file(g, rule, l, e);
            fat32_sector_passed(g, rule, s, j + 1, name_after(rule, l, e), files.push(file));
            assert(files.push(file) + rest =~= files + (seq![file] + rest));
        } else {
            fat32_sector_passed(g, rule, s, j + 1, name_after(rule, l, e), files);
        }
    }
}

/// What is found in a part of a directory is found in it there.
proof fn fat32_shift(
    g: Geometry,
    rule: Fat32Rule,
    s: Seq<u8>,
    t: Seq<u8>,
    at: int,
    j: int,
    i: int,
    l: LongNameView,
)
    requires
        0 <= at,
        0 <= j <= i,
        i * 32 <= t.len(),
        (at + i) * 32 <= s.len(),
        forall|k: int| 0 <= k < t.len() ==> t[k] == #[trigger] s[at * 32 + k],
    ensures
        name_gathered(rule, t, j, i, l) == name_gathered(rule, s, at + j, at + i, l),
        fat32_images(g, rule, t, j, i, l) == fat32_images(g, rule, s, at + j, at + i, l),
        forall|k: int| j <= k < i ==> #[trigger] entry(t, k) == entry(s, at + k),
    decreases i - j,
{
    if j < i {
        let e = entry(t, j);
        assert(e =~= entry(s, at + j)) by {
            assert forall|k: int| 0 <= k < 32 implies #[trigger] e[k] == entry(s, at + j)[k] by {
                assert(t[j * 32 + k] == s[at * 32 + (j * 32 + k)]);
            }
        }
        fat32_shift(g, rule, s, t, at, j + 1, i, name_after(rule, l, e));
    }
}

/// What entries `j` to `i` hold is what `j` to `b` and `b` to `i` hold.
proof fn fat32_split(
    g: Geometry,
    rule: Fat32Rule,
    s: Seq<u8>,
    j: int,
    b: int,
    i: int,
    l: LongNameView,
)
    requires
        j <= b <= i,
    ensures
        name_gathered(rule, s, j, i, l) == name_gathered(
            rule,
            s,
            b,
            i,
            name_gathered(rule, s, j, b, l),
        ),
        fat32_images(g, rule, s, j, i, l) == fat32_images(g, rule, s, j, b, l) + fat32_images(
            g,
            rule,
            s,
            b,
            i,
            name_gathered(rule, s, j, b, l),
        ),
    decreases b - j,
{
    let first = fat32_images(g, rule, s, j, b, l);
    let second = fat32_images(g, rule, s, b, i, name_gathered(rule, s, j, b, l));
    if j == b {
        assert(first + second =~= second);
    } else {
        let e = entry(s, j);
        fat32_split(g, rule, s, j + 1, b, i, name_after(rule, l, e));
        let rest = fat32_images(g, rule, s, j + 1, b, name_after(rule, l, e));
        let file = seq![fat32::entry_file(g, rule, l, e)];
        assert(file + rest + second =~= file + (rest + second));
    }
}

/// Sector `k` of a directory adds what the directory holds there.
proof fn fat32_sector_of(
    g: Geometry,
    rule: Fat32Rule,
    s: Seq<u8>,
    k: int,
    i: int,
    l: LongNameView,
    files: Seq<FileView>,
)
    requires
        0 <= k,
        512 * k + 512 <= s.len(),
        16 * k <= i,
        goes_on(s, 16 * k, i),
        files.len() + fat32_images(g, rule, s, 16 * k, i, l).len() < MAX_FILES,
        i < 16 * k + 16 ==> is_fat32_file(entry(s, i)) && found::is_bootable(
            fat32::entry_name(rule, name_gathered(rule, s, 16 * k, i, l), entry(s, i)),
        ),
    ensures
        ({
            let out = fat32::entries(
                g,
                rule,
                MAX_FILES as nat,
                s.subrange(512 * k, 512 * k + 512),
                0,
                l,
                files,
            );
            let b = 16 * k + 16;
            let l2 = name_gathered(rule, s, 16 * k, b, l);
            if i < b {
                out.files.contains(
                    fat32::entry_file(g, rule, name_gathered(rule, s, 16 * k, i, l), entry(s, i)),
                )
            } else {
                &&& out == (Sector {
                    name: l2,
                    files: files + fat32_images(g, rule, s, 16 * k, b, l),
                    end: false,
                })
                &&& name_gathered(rule, s, 16 * k, i, l) == name_gathered(rule, s, b, i, l2)
                &&& out.files.len() + fat32_images(g, rule, s, b, i, l2).len() < MAX_FILES
            }
        }),
{
    let sec = s.subrange(512 * k, 512 * k + 512);
    let at = 16 * k;
    let b = at + 16;
    let to = if i < b {
        i - at
    } else {
        16
    };
    assert forall|x: int| 0 <= x < sec.len() implies sec[x] == #[trigger] s[at * 32 + x] by {
    }
    fat32_shift(g, rule, s, sec, at, 0, to, l);
    assert(goes_on(sec, 0, to)) by {
        assert forall|x: int| 0 <= x < to implies #[trigger] entry(sec, x)[0] != 0 by {
            assert(entry(sec, x) == entry(s, at + x));
        }
    }
    if i < b {
        assert(entry(sec, to) =~= entry(s, i));
        fat32_file_is_listed(g, rule, sec, 0, to, l, files);
    } else {
        fat32_split(g, rule, s, at, b, i, l);
        fat32_sector_passed(g, rule, sec, 0, l, files);
    }
}

/// A scan that stands before sector `k` lists the file of entry `i`.
proof fn fat32_run(
    vol: Volume,
    reader: Reader,
    disk: spec_fn(u64) -> Option<Seq<u8>>,
    m: int,
    k: int,
    i: int,
    l: LongNameView,
    files: Seq<FileView>,
) -> (n: nat)
    requires
        has_sectors(disk),
        vol.geometry.spc > 0,
        0 <= k < m,
        16 * k <= i < 16 * m,
        root_bytes(ChainKind::Fat32, vol, disk, m) is Some,
        ({
            let s = root_bytes(ChainKind::Fat32, vol, disk, m)->0;
            let rule = dir::fat32_rule(reader);
            &&& goes_on(s, 16 * k, i)
            &&& is_fat32_file(entry(s, i))
            &&& found::is_bootable(
                fat32::entry_name(rule, name_gathered(rule, s, 16 * k, i, l), entry(s, i)),
            )
            &&& files.len() + fat32_images(vol.geometry, rule, s, 16 * k, i, l).len() < MAX_FILES
        }),
    ensures
        ({
            let s = root_bytes(ChainKind::Fat32, vol, disk, m)->0;
            let rule = dir::fat32_rule(reader);
            let scan = fat32_before(vol, disk, k, l, files);
            dir::scan_run(vol, reader, disk, scan, n).files.contains(
                fat32::entry_file(
                    vol.geometry,
                    rule,
                    name_gathered(rule, s, 16 * k, i, l),
                    entry(s, i),
                ),
            )
        }),
    decreases m - k,
{
    let kind = ChainKind::Fat32;
    let g = vol.geometry;
    let s = root_bytes(kind, vol, disk, m)->0;
    let rule = dir::fat32_rule(reader);
    root_sector(kind, vol, disk, m, k);
    let sec = s.subrange(512 * k, 512 * k + 512);
    let out = fat32::entries(g, rule, MAX_FILES as nat, sec, 0, l, files);
    fat32_sector_of(g, rule, s, k, i, l, files);
    if i < 16 * k + 16 {
        fat32_one_step(vol, reader, disk, k, l, files, sec);
        1
    } else {
        root_sector(kind, vol, disk, m, k + 1);
        let rest = fat32_run(vol, reader, disk, m, k + 1, i, out.name, out.files);
        fat32_sector_step(vol, reader, disk, k, l, files, sec, rest)
    }
}

/// Every bootable file in the root directory of a FAT32 volume gets listed, with
/// where it starts and its size: if the sectors of the directory up to it can be
/// read, the directory does not end before it, and fewer bootable files than fit
/// in the list come before it.
pub proof fn fat32_root_is_listed(
    vol: Volume,
    reader: Reader,
    disk: spec_fn(u64) -> Option<Seq<u8>>,
    m: int,
    i: int,
)
    requires
        vol.kind == VolumeKind::Fat32,
        vol.root_cluster != 0,
        vol.geometry.spc > 0,
        has_sectors(disk),
        0 <= i < 16 * m,
        root_bytes(ChainKind::Fat32, vol, disk, m) is Some,
        ({
            let s = root_bytes(ChainKind::Fat32, vol, disk, m)->0;
            let rule = dir::fat32_rule(reader);
            let l = name_gathered(rule, s, 0, i, fat32::no_name());
            &&& goes_on(s, 0, i)
            &&& is_fat32_file(entry(s, i))
            &&& found::is_bootable(fat32::entry_name(rule, l, entry(s, i)))
            &&& fat32_images(vol.geometry, rule, s, 0, i, fat32::no_name()).len() < MAX_FILES
        }),
    ensures
        ({
            let s = root_bytes(ChainKind::Fat32, vol, disk, m)->0;
            let rule = dir::fat32_rule(reader);
            let l = name_gathered(rule, s, 0, i, fat32::no_name());
            exists|n: nat|
                (#[trigger] dir::scan_run(
                    vol,
                    reader,
                    disk,
                    dir::scan_start(vol, Seq::empty()),
                    n,
                )).files.contains(fat32::entry_file(vol.geometry, rule, l, entry(s, i)))
        }),
{
    reveal_with_fuel(root_place, 1);
    let n = fat32_run(vol, reader, disk, m, 0, i, fat32::no_name(), Seq::empty());
    let end = dir::scan_run(vol, reader, disk, dir::scan_start(vol, Seq::empty()), n);
}

// ---------------------------------------------------------------------------
// exFAT
// ---------------------------------------------------------------------------

/// Whether an entry set starts at entry `i`.
pub open spec fn starts_set(s: Seq<u8>, i: int) -> bool {
    s[i * 32] == 0x85 && s[i * 32 + 1] != 0
}

/// Where the entry set at `i` ends.
pub open spec fn set_end(s: Seq<u8>, i: int) -> int {
    i + 1 + s[i * 32 + 1]
}

/// Whether the entry set at `i` describes a bootable file.
pub open spec fn is_image_set(g: Geometry, rule: NameRule, s: Seq<u8>, i: int) -> bool {
    &&& starts_set(s, i)
    &&& s[(i + 1) * 32] == 0xC0
    &&& found::is_bootable(exfat::set_file(g, rule, s, i).name)
}

/// Whether the entry set at `i` follows the one at `j` in a piece of an exFAT
/// directory, at once or behind others.
pub open spec fn set_follows(s: Seq<u8>, j: int, i: int) -> bool
    decreases s.len() - j,
{
    if j == i {
        true
    } else if j < 0 || j >= s.len() / 32 || s[j * 32] == 0 {
        false
    } else if !starts_set(s, j) {
        set_follows(s, j + 1, i)
    } else {
        set_end(s, j) <= s.len() / 32 && set_follows(s, set_end(s, j), i)
    }
}

/// How many entry sets from `j` up to `i` in a piece of an exFAT directory
/// describe bootable files.
pub open spec fn image_sets(g: Geometry, rule: NameRule, s: Seq<u8>, j: int, i: int) -> nat
    decreases i - j,
{
    if j >= i {
        0
    } else if !starts_set(s, j) {
        image_sets(g, rule, s, j + 1, i)
    } else if set_end(s, j) > i {
        0
    } else {
        let rest = image_sets(g, rule, s, set_end(s, j), i);
        if is_image_set(g, rule, s, j) {
            rest + 1
        } else {
            rest
        }
    }
}

proof fn follows_is_behind(s: Seq<u8>, j: int, i: int)
    requires
        0 <= j,
        set_follows(s, j, i),
    ensures
        j <= i,
    decreases s.len() - j,
{
    if j != i {
        if !starts_set(s, j) {
            follows_is_behind(s, j + 1, i);
        } else {
            follows_is_behind(s, set_end(s, j), i);
        }
    }
}

/// Every bootable file whose entry set lies in a piece of an exFAT directory is
/// listed, with where it starts and its size, if the directory does not end
/// before it and the bootable files before it leave room in the list.
pub proof fn exfat_file_is_listed(
    g: Geometry,
    rule: NameRule,
    s: Seq<u8>,
    j: int,
    i: int,
    files: Seq<FileView>,
)
    requires
        0 <= j <= i < s.len() / 32,
        set_follows(s, j, i),
        is_image_set(g, rule, s, i),
        set_end(s, i) <= s.len() / 32,
        files.len() + image_sets(g, rule, s, j, i) < MAX_FILES,
    ensures
        exfat::block(g, rule, MAX_FILES as nat, s, j, files).files.contains(
            exfat::set_file(g, rule, s, i),
        ),
    decreases i - j,
{
    let out = exfat::block(g, rule, MAX_FILES as nat, s, j, files).files;
    if j == i {
        let file = exfat::set_file(g, rule, s, i);
        dir::exfat_block_extends(g, rule, s, set_end(s, j), files.push(file));
        assert(out[files.len() as int] == file);
    } else if !starts_set(s, j) {
        exfat_file_is_listed(g, rule, s, j + 1, i, files);
    } else {
        follows_is_behind(s, set_end(s, j), i);
        let more = exfat::list_bootable(files, MAX_FILES as nat, exfat::set_file(g, rule, s, j));
        if s[(j + 1) * 32] != 0xC0 {
            exfat_file_is_listed(g, rule, s, set_end(s, j), i, files);
        } else {
            exfat_file_is_listed(g, rule, s, set_end(s, j), i, more);
        }
    }
}

/// The end of the sector in which an entry set that starts at `i` has become too
/// long to be carried over.
pub open spec fn carry_end(i: int) -> int {
    (i + exfat::CARRY_MAX as int / 32) / 16 * 16 + 16
}

/// Where the entry after the one at `i` is looked for in a whole directory:
/// behind the entry set, or, where the set is too long to be carried over, behind
/// the sector in which it was given up.
pub open spec fn next_set(s: Seq<u8>, i: int) -> int {
    if !starts_set(s, i) {
        i + 1
    } else if set_end(s, i) <= carry_end(i) {
        set_end(s, i)
    } else {
        carry_end(i)
    }
}

/// Whether a scan of a whole directory that looks at entry `j` gets to entry `i`.
pub open spec fn reaches(s: Seq<u8>, j: int, i: int) -> bool
    decreases i - j,
{
    j == i || (0 <= j < next_set(s, j) <= i && s[j * 32] != 0 && reaches(s, next_set(s, j), i))
}

/// The bootable files whose entry sets a scan meets from `j` up to `i`.
pub open spec fn exfat_images(g: Geometry, rule: NameRule, s: Seq<u8>, j: int, i: int) -> Seq<FileView>
    decreases i - j,
{
    if !(0 <= j < next_set(s, j) <= i) {
        Seq::empty()
    } else {
        let rest = exfat_images(g, rule, s, next_set(s, j), i);
        if is_image_set(g, rule, s, j) && set_end(s, j) <= carry_end(j) {
            seq![exfat::set_file(g, rule, s, j)] + rest
        } else {
            rest
        }
    }
}

proof fn reaches_is_behind(s: Seq<u8>, j: int, i: int)
    requires
        reaches(s, j, i),
    ensures
        j <= i,
{
}

proof fn set_name_shift(
    rule: NameRule,
    s: Seq<u8>,
    t: Seq<u8>,
    base: int,
    at: int,
    ents: nat,
    name_len: int,
    name: Seq<u8>,
)
    requires
        0 <= at,
        at + 32 * ents <= t.len(),
        forall|k: int| 0 <= k < t.len() ==> t[k] == s[base + k],
    ensures
        exfat::set_name(rule, t, at, ents, name_len, name) == exfat::set_name(
            rule,
            s,
            base + at,
            ents,
            name_len,
            name,
        ),
    decreases ents,
{
    let n = exfat::name_room(name_len, name.len() as int);
    if ents > 0 {
        assert(t[at] == s[base + at]);
        if t[at] == exfat::ENTRY_NAME && n > 0 {
            exfat::utf16_text_shift(s, t, base, at + 2, n as nat);
            set_name_shift(
                rule,
                s,
                t,
                base,
                at + 32,
                (ents - 1) as nat,
                name_len,
                name + exfat::name_chunk(rule, t, at + 2, n as nat),
            );
        }
    }
}

/// An entry set describes the same file in a piece of the directory.
proof fn set_shift(g: Geometry, rule: NameRule, s: Seq<u8>, from: int, b: int, i: int)
    requires
        0 <= from <= i,
        starts_set(s, i),
        set_end(s, i) <= b,
        32 * b <= s.len(),
    ensures
        ({
            let t = s.subrange(32 * from, 32 * b);
            &&& starts_set(t, i - from)
            &&& set_end(t, i - from) == set_end(s, i) - from
            &&& t[(i - from + 1) * 32] == s[(i + 1) * 32]
            &&& exfat::set_file(g, rule, t, i - from) == exfat::set_file(g, rule, s, i)
        }),
{
    let t = s.subrange(32 * from, 32 * b);
    let base = 32 * from;
    let j = i - from;
    assert forall|k: int| 0 <= k < t.len() implies t[k] == s[base + k] by {
    }
    assert(t[j * 32] == s[i * 32]);
    assert(t[j * 32 + 1] == s[i * 32 + 1]);
    let stream = (j + 1) * 32;
    assert(base + stream == (i + 1) * 32);
    assert(forall|k: int| 0 <= k < 32 ==> t[stream + k] == #[trigger] s[base + stream + k]);
    set_name_shift(
        rule,
        s,
        t,
        base,
        (j + 2) * 32,
        (t[j * 32 + 1] - 1) as nat,
        t[stream + 3] as int,
        Seq::empty(),
    );
    assert(base + (j + 2) * 32 == (i + 2) * 32);
    assert(bytes::spec_le32(t, stream + 20) == bytes::spec_le32(s, (i + 1) * 32 + 20));
    assert(bytes::spec_le64(t, stream + 24) == bytes::spec_le64(s, (i + 1) * 32 + 24));
}

/// What a scan of the entries from `from` to `b` makes of entry `j`.
proof fn exfat_entry_step(
    g: Geometry,
    rule: NameRule,
    s: Seq<u8>,
    from: int,
    b: int,
    j: int,
    files: Seq<FileView>,
)
    requires
        0 <= from <= j < b,
        32 * b <= s.len(),
        s[j * 32] != 0,
    ensures
        ({
            let t = s.subrange(32 * from, 32 * b);
            let max = MAX_FILES as nat;
            let out = exfat::block(g, rule, max, t, j - from, files);
            let file = exfat::set_file(g, rule, s, j);
            if !starts_set(s, j) {
                out == exfat::block(g, rule, max, t, j + 1 - from, files)
            } else if set_end(s, j) > b {
                out == (Block {
                    files,
                    carry: if b - j <= 19 {
                        s.subrange(32 * j, 32 * b)
                    } else {
                        Seq::empty()
                    },
                    end: false,
                })
            } else if s[(j + 1) * 32] != 0xC0 {
                out == exfat::block(g, rule, max, t, set_end(s, j) - from, files)
            } else {
                out == exfat::block(
                    g,
                    rule,
                    max,
                    t,
                    set_end(s, j) - from,
                    exfat::list_bootable(files, max, file),
                )
            }
        }),
{
    let t = s.subrange(32 * from, 32 * b);
    let q = j - from;
    assert(t.len() / 32 == b - from);
    assert(t[q * 32] == s[j * 32]);
    assert(t[q * 32 + 1] == s[j * 32 + 1]);
    if starts_set(s, j) {
        if set_end(s, j) > b {
            assert(t.subrange(q * 32, t.len() as int) =~= s.subrange(32 * j, 32 * b));
        } else {
            set_shift(g, rule, s, from, b, j);
        }
    }
}

/// A piece of a directory from entry `from` to entry `b`, where a sector ends:
/// the file of the entry set at `i` is listed if the set ends in the piece, and
/// otherwise the scan gets to it from what is carried over.
proof fn exfat_block_reaches(
    g: Geometry,
    rule: NameRule,
    s: Seq<u8>,
    from: int,
    b: int,
    j: int,
    i: int,
    files: Seq<FileView>,
) -> (p: int)
    requires
        0 <= from <= j <= i,
        j <= b,
        b % 16 == 0,
        b - from <= 35,
        32 * b <= s.len(),
        reaches(s, j, i),
        is_image_set(g, rule, s, i),
        set_end(s, i) <= carry_end(i),
        32 * set_end(s, i) <= s.len(),
        files.len() + exfat_images(g, rule, s, j, i).len() < MAX_FILES,
    ensures
        ({
            let out = exfat::block(
                g,
                rule,
                MAX_FILES as nat,
                s.subrange(32 * from, 32 * b),
                j - from,
                files,
            );
            if set_end(s, i) <= b {
                out.files.contains(exfat::set_file(g, rule, s, i))
            } else {
                &&& !out.end
                &&& j <= p <= b
                &&& b - p <= 19
                &&& out.carry == s.subrange(32 * p, 32 * b)
                &&& reaches(s, p, i)
                &&& out.files.len() + exfat_images(g, rule, s, p, i).len() < MAX_FILES
            }
        }),
    decreases i - j,
{
    let t = s.subrange(32 * from, 32 * b);
    let max = MAX_FILES as nat;
    let out = exfat::block(g, rule, max, t, j - from, files);
    if j >= b {
        assert(out.carry =~= s.subrange(32 * b, 32 * b));
        b
    } else {
        exfat_entry_step(g, rule, s, from, b, j, files);
        assert(b <= carry_end(j));
        if !starts_set(s, j) {
            exfat_block_reaches(g, rule, s, from, b, j + 1, i, files)
        } else if set_end(s, j) > b {
            if b - j <= 19 {
                j
            } else {
                assert(carry_end(j) == b);
                assert(out.carry =~= s.subrange(32 * b, 32 * b));
                b
            }
        } else {
            let file = exfat::set_file(g, rule, s, j);
            let more = if s[(j + 1) * 32] != 0xC0 {
                files
            } else {
                exfat::list_bootable(files, max, file)
            };
            if j == i {
                dir::exfat_block_extends(g, rule, t, set_end(s, j) - from, more);
                assert(out.files[files.len() as int] == file);
                b
            } else {
                reaches_is_behind(s, set_end(s, j), i);
                exfat_block_reaches(g, rule, s, from, b, set_end(s, j), i, more)
            }
        }
    }
}

/// A scan waiting for sector `k` of an exFAT directory.
spec fn exfat_before(
    vol: Volume,
    disk: spec_fn(u64) -> Option<Seq<u8>>,
    k: int,
    carry: Seq<u8>,
    files: Seq<FileView>,
) -> ScanView {
    let (c, q) = root_place(ChainKind::Exfat, vol, disk, k)->0;
    ScanView {
        files,
        step: StepView::Exfat { pos: ChainPos::Data { cluster: c, sector: q }, carry },
    }
}

/// What the next sector adds.
proof fn exfat_one_step(
    vol: Volume,
    reader: Reader,
    disk: spec_fn(u64) -> Option<Seq<u8>>,
    k: int,
    carry: Seq<u8>,
    files: Seq<FileView>,
    sec: Seq<u8>,
)
    requires
        ({
            let (c, q) = root_place(ChainKind::Exfat, vol, disk, k)->0;
            disk(chain::spec_cluster_lba(vol.geometry, c, q)) == Some(sec)
        }),
    ensures
        ({
            let out = exfat::block(
                vol.geometry,
                dir::name_rule(reader),
                MAX_FILES as nat,
                carry + sec,
                0,
                files,
            );
            dir::scan_run(vol, reader, disk, exfat_before(vol, disk, k, carry, files), 1).files
                == out.files
        }),
{
    let (c, q) = root_place(ChainKind::Exfat, vol, disk, k)->0;
    let scan = exfat_before(vol, disk, k, carry, files);
    run_step(vol, reader, disk, scan, chain::spec_cluster_lba(vol.geometry, c, q), 0);
}

/// A sector in which the directory does not end takes the scan to the next one.
proof fn exfat_sector_step(
    vol: Volume,
    reader: Reader,
    disk: spec_fn(u64) -> Option<Seq<u8>>,
    k: int,
    carry: Seq<u8>,
    files: Seq<FileView>,
    sec: Seq<u8>,
    rest: nat,
) -> (n: nat)
    requires
        0 <= k,
        vol.geometry.spc > 0,
        root_place(ChainKind::Exfat, vol, disk, k) is Some,
        root_place(ChainKind::Exfat, vol, disk, k + 1) is Some,
        ({
            let (c, q) = root_place(ChainKind::Exfat, vol, disk, k)->0;
            disk(chain::spec_cluster_lba(vol.geometry, c, q)) == Some(sec)
        }),
        !exfat::block(
            vol.geometry,
            dir::name_rule(reader),
            MAX_FILES as nat,
            carry + sec,
            0,
            files,
        ).end,
    ensures
        ({
            let out = exfat::block(
                vol.geometry,
                dir::name_rule(reader),
                MAX_FILES as nat,
                carry + sec,
                0,
                files,
            );
            dir::scan_run(vol, reader, disk, exfat_before(vol, disk, k, carry, files), n)
                == dir::scan_run(
                vol,
                reader,
                disk,
                exfat_before(vol, disk, k + 1, out.carry, out.files),
                rest,
            )
        }),
{
    reveal_with_fuel(root_place, 2);
    let g = vol.geometry;
    let (c, q) = root_place(ChainKind::Exfat, vol, disk, k)->0;
    let scan = exfat_before(vol, disk, k, carry, files);
    let lba = chain::spec_cluster_lba(g, c, q);
    let next = dir::scan_next(vol, reader, scan, Some(sec));
    if q + 1 < g.spc {
        run_step(vol, reader, disk, scan, lba, rest);
        rest + 1
    } else {
        run_step(vol, reader, disk, scan, lba, rest + 1);
        run_step(vol, reader, disk, next, chain::spec_fat_lba(g.fat_start, c), rest);
        rest + 2
    }
}

/// A scan that stands before sector `k` and carries the entries from `p` on lists
/// the file of the entry set at `i`.
proof fn exfat_run(
    vol: Volume,
    reader: Reader,
    disk: spec_fn(u64) -> Option<Seq<u8>>,
    m: int,
    k: int,
    p: int,
    i: int,
    files: Seq<FileView>,
) -> (n: nat)
    requires
        has_sectors(disk),
        vol.geometry.spc > 0,
        0 <= k < m,
        0 <= p <= 16 * k,
        16 * k - p <= 19,
        root_bytes(ChainKind::Exfat, vol, disk, m) is Some,
        ({
            let s = root_bytes(ChainKind::Exfat, vol, disk, m)->0;
            let rule = dir::name_rule(reader);
            &&& reaches(s, p, i)
            &&& is_image_set(vol.geometry, rule, s, i)
            &&& set_end(s, i) <= carry_end(i)
            &&& set_end(s, i) <= 16 * m
            &&& files.len() + exfat_images(vol.geometry, rule, s, p, i).len() < MAX_FILES
        }),
    ensures
        ({
            let s = root_bytes(ChainKind::Exfat, vol, disk, m)->0;
            let scan = exfat_before(vol, disk, k, s.subrange(32 * p, 512 * k), files);
            dir::scan_run(vol, reader, disk, scan, n).files.contains(
                exfat::set_file(vol.geometry, dir::name_rule(reader), s, i),
            )
        }),
    decreases m - k,
{
    let kind = ChainKind::Exfat;
    let g = vol.geometry;
    let s = root_bytes(kind, vol, disk, m)->0;
    let rule = dir::name_rule(reader);
    root_sector(kind, vol, disk, m, k);
    let sec = s.subrange(512 * k, 512 * k + 512);
    let carry = s.subrange(32 * p, 512 * k);
    let b = 16 * k + 16;
    assert(carry + sec =~= s.subrange(32 * p, 32 * b));
    reaches_is_behind(s, p, i);
    let p2 = exfat_block_reaches(g, rule, s, p, b, p, i, files);
    let out = exfat::block(g, rule, MAX_FILES as nat, carry + sec, 0, files);
    if set_end(s, i) <= b {
        exfat_one_step(vol, reader, disk, k, carry, files, sec);
        1
    } else {
        root_sector(kind, vol, disk, m, k + 1);
        let rest = exfat_run(vol, reader, disk, m, k + 1, p2, i, out.files);
        exfat_sector_step(vol, reader, disk, k, carry, files, sec, rest)
    }
}

/// Every bootable file in the root directory of an exFAT volume gets listed, with
/// where it starts and its size: if the sectors of the directory up to the end of
/// its entry set can be read, the directory does not end before it, the set is
/// not too long to be carried over, and fewer bootable files than fit in the list
/// come before it.
pub proof fn exfat_root_is_listed(
    vol: Volume,
    reader: Reader,
    disk: spec_fn(u64) -> Option<Seq<u8>>,
    m: int,
    i: int,
)
    requires
        vol.kind == VolumeKind::Exfat,
        vol.geometry.spc > 0,
        has_sectors(disk),
        0 <= m,
        root_bytes(ChainKind::Exfat, vol, disk, m) is Some,
        ({
            let s = root_bytes(ChainKind::Exfat, vol, disk, m)->0;
            let rule = dir::name_rule(reader);
            &&& reaches(s, 0, i)
            &&& is_image_set(vol.geometry, rule, s, i)
            &&& set_end(s, i) <= carry_end(i)
            &&& set_end(s, i) <= 16 * m
            &&& exfat_images(vol.geometry, rule, s, 0, i).len() < MAX_FILES
        }),
    ensures
        ({
            let s = root_bytes(ChainKind::Exfat, vol, disk, m)->0;
            exists|n: nat|
                (#[trigger] dir::scan_run(
                    vol,
                    reader,
                    disk,
                    dir::scan_start(vol, Seq::empty()),
                    n,
                )).files.contains(
                    exfat::set_file(vol.geometry, dir::name_rule(reader), s, i),
                )
        }),
{
    let s = root_bytes(ChainKind::Exfat, vol, disk, m)->0;
    reaches_is_behind(s, 0, i);
    root_sector(ChainKind::Exfat, vol, disk, m, 0);
    assert(s.subrange(0, 0) =~= Seq::empty());
    reveal_with_fuel(root_place, 1);
    let n = exfat_run(vol, reader, disk, m, 0, 0, i, Seq::empty());
    let end = dir::scan_run(vol, reader, disk, dir::scan_start(vol, Seq::empty()), n);
}

// ---------------------------------------------------------------------------
// NTFS
// ---------------------------------------------------------------------------

/// Whether the index entry at `i` follows the one at `j`, at once or behind
/// others.
pub open spec fn index_follows(s: Seq<u8>, j: int, i: int) -> bool
    decreases s.len() - j,
{
    let len = bytes::spec_le16(s, j + 8) as int;
    j == i || (s.len() - j >= 0x50 && 8 <= len <= s.len() - j && index_follows(s, j + len, i))
}

/// Every bootable file that an index names is looked up.
pub proof fn ntfs_name_is_looked_up(s: Seq<u8>, j: int, i: int)
    requires
        index_follows(s, j, i),
        ntfs::index_entry(s, i) is Some,
        s.len() - i >= 0x50,
        8 <= bytes::spec_le16(s, i + 8) <= s.len() - i,
    ensures
        ntfs::index_entries(s, j).contains(ntfs::index_entry(s, i)->0),
    decreases s.len() - j,
{
    let len = bytes::spec_le16(s, j + 8) as int;
    let all = ntfs::index_entries(s, j);
    let c = ntfs::index_entry(s, i)->0;
    if j == i {
        assert(all[0] == c);
    } else {
        ntfs_name_is_looked_up(s, j + len, i);
        let rest = ntfs::index_entries(s, j + len);
        let k = choose|k: int| 0 <= k < rest.len() && rest[k] == c;
        match ntfs::index_entry(s, j) {
            None => {
                assert(all[k] == c);
            },
            Some(d) => {
                assert(all[k + 1] == c);
            },
        }
    }
}

/// The first `n` sectors of file record `record`; `None` where one of them cannot
/// be read.
pub open spec fn record_part(
    g: NtfsGeometry,
    disk: spec_fn(u64) -> Option<Seq<u8>>,
    record: u32,
    n: int,
) -> Option<Seq<u8>>
    decreases n,
{
    if n <= 0 {
        Some(Seq::empty())
    } else {
        match (
            record_part(g, disk, record, n - 1),
            disk(dir::record_lba(g, record, 512 * (n - 1))),
        ) {
            (Some(a), Some(s)) => Some(a + s),
            _ => None,
        }
    }
}

/// File record `record`.
pub open spec fn record_read(
    g: NtfsGeometry,
    disk: spec_fn(u64) -> Option<Seq<u8>>,
    record: u32,
) -> Option<Seq<u8>> {
    record_part(g, disk, record, dir::record_sectors(g))
}

/// The file that a name in the index leads to, if its record can be read and says
/// where the file is.
pub open spec fn candidate_file(
    g: NtfsGeometry,
    disk: spec_fn(u64) -> Option<Seq<u8>>,
    c: CandidateView,
) -> Option<FileView> {
    match record_read(g, disk, c.record) {
        None => None,
        Some(rec) => match ntfs::file_info(g, rec) {
            None => None,
            Some((lba, size)) => Some(FileView { name: c.name, lba, size }),
        },
    }
}

/// How many of the first `n` names lead to a file.
pub open spec fn candidate_files(
    g: NtfsGeometry,
    disk: spec_fn(u64) -> Option<Seq<u8>>,
    c: Seq<CandidateView>,
    n: int,
) -> nat
    decreases n,
{
    if n <= 0 || c.len() == 0 {
        0
    } else {
        let rest = candidate_files(g, disk, c.skip(1), n - 1);
        if candidate_file(g, disk, c[0]) is Some {
            rest + 1
        } else {
            rest
        }
    }
}

proof fn record_part_len(
    g: NtfsGeometry,
    disk: spec_fn(u64) -> Option<Seq<u8>>,
    record: u32,
    n: int,
)
    requires
        has_sectors(disk),
        0 <= n,
        record_part(g, disk, record, n) is Some,
    ensures
        record_part(g, disk, record, n)->0.len() == 512 * n,
    decreases n,
{
    if n > 0 {
        record_part_len(g, disk, record, n - 1);
    }
}

/// A record with a sector that cannot be read cannot be read.
proof fn record_part_stops(
    g: NtfsGeometry,
    disk: spec_fn(u64) -> Option<Seq<u8>>,
    record: u32,
    n: int,
    m: int,
)
    requires
        0 <= n <= m,
        record_part(g, disk, record, n) is None,
    ensures
        record_part(g, disk, record, m) is None,
    decreases m,
{
    if n < m {
        record_part_stops(g, disk, record, n, m - 1);
    }
}

/// The last sector of a pending file's record, or one that cannot be read, ends
/// the lookup of that file.
proof fn ntfs_lookup_ends(
    vol: Volume,
    disk: spec_fn(u64) -> Option<Seq<u8>>,
    files: Seq<FileView>,
    pending: Seq<CandidateView>,
    n: int,
)
    requires
        has_sectors(disk),
        pending.len() > 0,
        files.len() < MAX_FILES,
        0 <= n < dir::record_sectors(vol.ntfs),
        record_part(vol.ntfs, disk, pending[0].record, n) is Some,
        n + 1 == dir::record_sectors(vol.ntfs) || disk(
            dir::record_lba(vol.ntfs, pending[0].record, 512 * n),
        ) is None,
    ensures
        ({
            let rec = record_part(vol.ntfs, disk, pending[0].record, n)->0;
            let sector = disk(dir::record_lba(vol.ntfs, pending[0].record, 512 * n));
            let more = match candidate_file(vol.ntfs, disk, pending[0]) {
                None => files,
                Some(file) => files.push(file),
            };
            dir::file_next(vol, files, pending, rec, sector) == dir::next_file(
                more,
                pending.skip(1),
            )
        }),
{
    let g = vol.ntfs;
    let record = pending[0].record;
    let sector = disk(dir::record_lba(g, record, 512 * n));
    record_part_len(g, disk, record, n);
    if sector is None {
        record_part_stops(g, disk, record, n + 1, dir::record_sectors(g));
    }
}

/// A scan that has read `n` sectors of the record of the first pending file lists
/// the file that the name at `i` leads to.
proof fn ntfs_file_run(
    vol: Volume,
    reader: Reader,
    disk: spec_fn(u64) -> Option<Seq<u8>>,
    files: Seq<FileView>,
    pending: Seq<CandidateView>,
    i: int,
    n: int,
) -> (steps: nat)
    requires
        has_sectors(disk),
        0 <= i < pending.len(),
        0 <= n < dir::record_sectors(vol.ntfs),
        record_part(vol.ntfs, disk, pending[0].record, n) is Some,
        candidate_file(vol.ntfs, disk, pending[i]) is Some,
        files.len() + candidate_files(vol.ntfs, disk, pending, i) < MAX_FILES,
    ensures
        ({
            let rec = record_part(vol.ntfs, disk, pending[0].record, n)->0;
            let scan = ScanView { files, step: StepView::NtfsFile { pending, rec } };
            dir::scan_run(vol, reader, disk, scan, steps).files.contains(
                candidate_file(vol.ntfs, disk, pending[i])->0,
            )
        }),
    decreases i, dir::record_sectors(vol.ntfs) - n,
{
    let g = vol.ntfs;
    let all = dir::record_sectors(g);
    let record = pending[0].record;
    let rec = record_part(g, disk, record, n)->0;
    let rest = pending.skip(1);
    let scan = ScanView { files, step: StepView::NtfsFile { pending, rec } };
    record_part_len(g, disk, record, n);
    let lba = dir::record_lba(g, record, 512 * n);
    let sector = disk(lba);
    if sector is Some && n + 1 < all {
        let more = ntfs_file_run(vol, reader, disk, files, pending, i, n + 1);
        run_step(vol, reader, disk, scan, lba, more);
        more + 1
    } else {
        ntfs_lookup_ends(vol, disk, files, pending, n);
        let file = candidate_file(g, disk, pending[0]);
        let more = match file {
            None => files,
            Some(f) => files.push(f),
        };
        if i == 0 {
            assert(more[files.len() as int] == file->0);
            run_step(vol, reader, disk, scan, lba, 0);
            1
        } else {
            assert(rest[i - 1] == pending[i]);
            let steps = ntfs_file_run(vol, reader, disk, more, rest, i - 1, 0);
            run_step(vol, reader, disk, scan, lba, steps);
            steps + 1
        }
    }
}

/// One more sector of the root record.
proof fn ntfs_root_step(
    vol: Volume,
    reader: Reader,
    disk: spec_fn(u64) -> Option<Seq<u8>>,
    n: int,
    steps: nat,
)
    requires
        has_sectors(disk),
        0 <= n < dir::record_sectors(vol.ntfs),
        record_part(vol.ntfs, disk, ROOT_RECORD, n + 1) is Some,
    ensures
        ({
            let part = record_part(vol.ntfs, disk, ROOT_RECORD, n)->0;
            let rec = record_part(vol.ntfs, disk, ROOT_RECORD, n + 1)->0;
            let scan = ScanView { files: Seq::empty(), step: StepView::NtfsRoot { rec: part } };
            let next = if n + 1 < dir::record_sectors(vol.ntfs) {
                ScanView { files: Seq::empty(), step: StepView::NtfsRoot { rec } }
            } else {
                dir::next_file(Seq::empty(), ntfs::root_candidates(vol.ntfs, rec))
            };
            dir::scan_run(vol, reader, disk, scan, steps + 1) == dir::scan_run(
                vol,
                reader,
                disk,
                next,
                steps,
            )
        }),
{
    let g = vol.ntfs;
    let part = record_part(g, disk, ROOT_RECORD, n)->0;
    let scan = ScanView { files: Seq::empty(), step: StepView::NtfsRoot { rec: part } };
    record_part_len(g, disk, ROOT_RECORD, n);
    run_step(vol, reader, disk, scan, dir::record_lba(g, ROOT_RECORD, 512 * n), steps);
}

/// A scan that has read `n` sectors of the root record gets to the names in it.
#[verifier::rlimit(60)]
proof fn ntfs_root_run(
    vol: Volume,
    reader: Reader,
    disk: spec_fn(u64) -> Option<Seq<u8>>,
    i: int,
    n: int,
) -> (steps: nat)
    requires
        has_sectors(disk),
        0 <= n < dir::record_sectors(vol.ntfs),
        record_read(vol.ntfs, disk, ROOT_RECORD) is Some,
        record_part(vol.ntfs, disk, ROOT_RECORD, n) is Some,
        ({
            let rec = record_read(vol.ntfs, disk, ROOT_RECORD)->0;
            let names = ntfs::root_candidates(vol.ntfs, rec);
            &&& 0 <= i < names.len()
            &&& candidate_file(vol.ntfs, disk, names[i]) is Some
            &&& candidate_files(vol.ntfs, disk, names, i) < MAX_FILES
        }),
    ensures
        ({
            let rec = record_read(vol.ntfs, disk, ROOT_RECORD)->0;
            let names = ntfs::root_candidates(vol.ntfs, rec);
            let part = record_part(vol.ntfs, disk, ROOT_RECORD, n)->0;
            let scan = ScanView { files: Seq::empty(), step: StepView::NtfsRoot { rec: part } };
            dir::scan_run(vol, reader, disk, scan, steps).files.contains(
                candidate_file(vol.ntfs, disk, names[i])->0,
            )
        }),
    decreases dir::record_sectors(vol.ntfs) - n,
{
    let g = vol.ntfs;
    let all = dir::record_sectors(g);
    let names = ntfs::root_candidates(g, record_read(g, disk, ROOT_RECORD)->0);
    if record_part(g, disk, ROOT_RECORD, n + 1) is None {
        record_part_stops(g, disk, ROOT_RECORD, n + 1, all);
    }
    if n + 1 < all {
        let steps = ntfs_root_run(vol, reader, disk, i, n + 1);
        ntfs_root_step(vol, reader, disk, n, steps);
        steps + 1
    } else {
        let steps = ntfs_file_run(vol, reader, disk, Seq::empty(), names, i, 0);
        ntfs_root_step(vol, reader, disk, n, steps);
        steps + 1
    }
}

/// Every bootable file that the root index of an NTFS volume names gets listed,
/// with where it starts and its size: if the root record and the file's own
/// record can be read, and fewer files than fit in the list come before it.
pub proof fn ntfs_root_is_listed(
    vol: Volume,
    reader: Reader,
    disk: spec_fn(u64) -> Option<Seq<u8>>,
    i: int,
)
    requires
        vol.kind == VolumeKind::Ntfs,
        dir::record_sectors(vol.ntfs) > 0,
        has_sectors(disk),
        record_read(vol.ntfs, disk, ROOT_RECORD) is Some,
        ({
            let rec = record_read(vol.ntfs, disk, ROOT_RECORD)->0;
            let names = ntfs::root_candidates(vol.ntfs, rec);
            &&& 0 <= i < names.len()
            &&& candidate_file(vol.ntfs, disk, names[i]) is Some
            &&& candidate_files(vol.ntfs, disk, names, i) < MAX_FILES
        }),
    ensures
        ({
            let rec = record_read(vol.ntfs, disk, ROOT_RECORD)->0;
            let names = ntfs::root_candidates(vol.ntfs, rec);
            exists|n: nat|
                (#[trigger] dir::scan_run(
                    vol,
                    reader,
                    disk,
                    dir::scan_start(vol, Seq::empty()),
                    n,
                )).files.contains(candidate_file(vol.ntfs, disk, names[i])->0)
        }),
{
    let n = ntfs_root_run(vol, reader, disk, i, 0);
    let end = dir::scan_run(vol, reader, disk, dir::scan_start(vol, Seq::empty()), n);
}

} // verus!
