//! Booting an ISO image: finding its boot loader, patching its GRUB
//! configuration, and the menu to choose it from.

use vstd::prelude::*;
use crate::bytes;
use crate::bytes::{ends_with_ignore_case, eq_ignore_ascii_case, le32, push_all, push_le64, slice_vec};
use crate::efi::boot_kind;
use crate::efi::boot_kind::BootKind;
use crate::efi::fs::IsoEntry;
use crate::efi::iso9660;
use crate::efi::iso9660::{add32, iso_name_effective_len, parse_pvd, read_extent_data, sector_count};
use crate::efi::iso_source;
use crate::efi::iso_fs::{FileRedirect, IsoFsCtx};
use crate::efi::iso_source::{read_iso_sector, IsoSource};
use crate::efi::locator::IsoLocation;
use crate::efi::output::print_dec;
use crate::efi::protocol::Key;
use crate::efi::strategy;
use crate::efi::strategy::patch_grub_cfg;
use crate::efi::virtual_blockio;
use crate::efi::virtual_blockio::{EntryPlace, VirtualBlockIo};
use crate::digits;

verus! {

// ---------------------------------------------------------------------------
// Directory walks
// ---------------------------------------------------------------------------

/// A file, and where its directory entry stands.
#[derive(Clone, Copy, PartialEq, Eq, Structural, Debug)]
pub struct Located {
    pub lba: u32,
    pub size: u32,
    pub dir_sector: u32,
    pub dir_offset: u32,
}

/// Whether a record stands at `off` of a directory sector of which the first
/// `limit` bytes are in use.
pub open spec fn entry_at(s: Seq<u8>, off: int, limit: int) -> bool {
    &&& 0 <= off
    &&& off + 34 <= 2048
    &&& off < limit
    &&& s[off] != 0
    &&& off + s[off] <= 2048
    &&& off + 33 + s[off + 32] <= 2048
}

/// How many bytes of sector `i` of a directory are in use.
pub open spec fn used(size: u32, i: int) -> int {
    size - i * 2048
}

pub open spec fn entry_name(s: Seq<u8>, off: int) -> Seq<u8> {
    iso9660::effective_name(s.subrange(off + 33, off + 33 + s[off + 32]))
}

pub open spec fn located(s: Seq<u8>, off: int, sector: u32) -> Located {
    Located {
        lba: bytes::spec_le32(s, off + 2),
        size: bytes::spec_le32(s, off + 10),
        dir_sector: sector,
        dir_offset: off as u32,
    }
}

/// The first entry of that name from `off` on.
pub open spec fn find_in_sector(
    s: Seq<u8>,
    off: int,
    limit: int,
    sector: u32,
    name: Seq<u8>,
) -> Option<Located>
    decreases 2048 - off,
{
    if !entry_at(s, off, limit) {
        None
    } else if bytes::same_ignoring_case(entry_name(s, off), name) {
        Some(located(s, off, sector))
    } else {
        find_in_sector(s, off + s[off], limit, sector, name)
    }
}

/// The entry of that name in the sectors of a directory from sector `i` on; a
/// sector that cannot be read ends the search.
pub open spec fn find<S: IsoSource>(src: &S, lba: u32, size: u32, i: int, name: Seq<u8>) -> Option<
    Located,
>
    decreases iso9660::spec_sector_count(size) - i,
{
    if i >= iso9660::spec_sector_count(size) {
        None
    } else {
        let n = iso9660::wrap32(lba + i);
        match iso_source::iso_sector(src, n) {
            None => None,
            Some(s) => match find_in_sector(s, 0, used(size, i), n, name) {
                Some(l) => Some(l),
                None => find(src, lba, size, i + 1, name),
            },
        }
    }
}

fn read_entry(s: &[u8; 2048], off: usize, limit: u64) -> (r: Option<usize>)
    requires
        off <= 2048,
    ensures
        r is Some <==> entry_at(s@, off as int, limit as int),
        r matches Some(n) ==> n == s@[off as int] && n > 0,
{
    if off + 34 > 2048 || off as u64 >= limit {
        return None;
    }
    let len: usize = s[off] as usize;
    if len == 0 || off + len > 2048 || off + 33 + s[off + 32] as usize > 2048 {
        return None;
    }
    Some(len)
}

fn read_located(s: &[u8; 2048], off: usize, sector: u32) -> (r: Located)
    requires
        off + 34 <= 2048,
    ensures
        r == located(s@, off as int, sector),
{
    Located { lba: le32(s, off + 2), size: le32(s, off + 10), dir_sector: sector, dir_offset: off as u32 }
}

fn read_entry_name(s: &[u8; 2048], off: usize) -> (r: Vec<u8>)
    requires
        off + 34 <= 2048,
        off + 33 + s@[off + 32] <= 2048,
    ensures
        r@ == entry_name(s@, off as int),
        r@.len() <= 255,
{
    let data: &[u8] = s;
    let name: &[u8] = &data[off + 33..off + 33 + s[off + 32] as usize];
    let n: usize = iso_name_effective_len(name);
    slice_vec(name, 0, n)
}

#[verifier::loop_isolation(false)]
fn search_sector(s: &[u8; 2048], limit: u64, sector: u32, name: &[u8]) -> (r: Option<Located>)
    ensures
        r == find_in_sector(s@, 0, limit as int, sector, name@),
{
    let mut off: usize = 0;
    loop
        invariant
            off <= 2048,
            find_in_sector(s@, 0, limit as int, sector, name@) == find_in_sector(
                s@,
                off as int,
                limit as int,
                sector,
                name@,
            ),
        decreases 2048 - off,
    {
        match read_entry(s, off, limit) {
            None => {
                return None;
            },
            Some(len) => {
                let here: Vec<u8> = read_entry_name(s, off);
                if eq_ignore_ascii_case(&here, name) {
                    return Some(read_located(s, off, sector));
                }
                off += len;
            },
        }
    }
}

/// The entry of that name in a directory, and where it stands.
#[verifier::loop_isolation(false)]
pub fn find_in_dir_with_loc<S: IsoSource>(src: &S, dir_lba: u32, dir_size: u32, name: &[u8]) -> (r:
    Option<Located>)
    ensures
        r == find(src, dir_lba, dir_size, 0, name@),
{
    let total: u32 = sector_count(dir_size);
    let mut scratch: [u8; 2048] = [0; 2048];
    let mut i: u32 = 0;
    while i < total
        invariant
            i <= total,
            find(src, dir_lba, dir_size, 0, name@) == find(
                src,
                dir_lba,
                dir_size,
                i as int,
                name@,
            ),
        decreases total - i,
    {
        let n: u32 = add32(dir_lba, i);
        if !read_iso_sector(src, n, &mut scratch) {
            return None;
        }
        let limit: u64 = dir_size as u64 - i as u64 * 2048;
        if let Some(l) = search_sector(&scratch, limit, n, name) {
            return Some(l);
        }
        i += 1;
    }
    None
}

/// Where the entry of that name in a directory is, and its size.
pub fn find_in_dir<S: IsoSource>(src: &S, dir_lba: u32, dir_size: u32, name: &[u8]) -> (r: Option<
    (u32, u32),
>)
    ensures
        r == (match find(src, dir_lba, dir_size, 0, name@) {
            None => None::<(u32, u32)>,
            Some(l) => Some((l.lba, l.size)),
        }),
{
    match find_in_dir_with_loc(src, dir_lba, dir_size, name) {
        None => None,
        Some(l) => Some((l.lba, l.size)),
    }
}

/// The file in a directory in a directory, or right in the root.
pub open spec fn find_path<S: IsoSource>(
    src: &S,
    root: (u32, u32),
    dir1: Seq<u8>,
    dir2: Seq<u8>,
    name: Seq<u8>,
) -> Option<Located> {
    if dir1.len() == 0 {
        find(src, root.0, root.1, 0, name)
    } else {
        match find(src, root.0, root.1, 0, dir1) {
            None => None,
            Some(a) => match find(src, a.lba, a.size, 0, dir2) {
                None => None,
                Some(b) => find(src, b.lba, b.size, 0, name),
            },
        }
    }
}

pub fn locate_path<S: IsoSource>(
    src: &S,
    root: (u32, u32),
    dir1: &[u8],
    dir2: &[u8],
    name: &[u8],
) -> (r: Option<Located>)
    ensures
        r == find_path(src, root, dir1@, dir2@, name@),
{
    if dir1.len() == 0 {
        return find_in_dir_with_loc(src, root.0, root.1, name);
    }
    match find_in_dir(src, root.0, root.1, dir1) {
        None => None,
        Some((a_lba, a_size)) => match find_in_dir(src, a_lba, a_size, dir2) {
            None => None,
            Some((b_lba, b_size)) => find_in_dir_with_loc(src, b_lba, b_size, name),
        },
    }
}

/// The boot loader `/EFI/BOOT/BOOTX64.EFI` of an image.
pub open spec fn boot_loader<S: IsoSource>(src: &S) -> Option<Located> {
    match iso9660::root_dir(src) {
        None => None,
        Some(root) => find_path(
            src,
            root,
            bytes::text("EFI"),
            bytes::text("BOOT"),
            bytes::text("BOOTX64.EFI"),
        ),
    }
}

pub fn find_efi_boot<S: IsoSource>(src: &S) -> (r: Option<(u32, u32)>)
    ensures
        r == (match boot_loader(src) {
            None => None::<(u32, u32)>,
            Some(l) => Some((l.lba, l.size)),
        }),
{
    let root: (u32, u32) = match parse_pvd(src) {
        None => {
            return None;
        },
        Some(r) => r,
    };
    proof {
        reveal_strlit("EFI");
        vstd::string::is_ascii_spec_bytes("EFI");
    }
    match locate_path(
        src,
        root,
        "EFI".as_bytes(),
        "BOOT".as_bytes(),
        "BOOTX64.EFI".as_bytes(),
    ) {
        None => None,
        Some(l) => Some((l.lba, l.size)),
    }
}

// ---------------------------------------------------------------------------
// Collecting configurations
// ---------------------------------------------------------------------------

/// At most this many configurations are collected by a walk.
pub const WALK_MAX: usize = 32;

/// Whether a name ends in `.cfg`, ASCII case ignored.
pub open spec fn is_cfg(name: Seq<u8>) -> bool {
    bytes::has_suffix(name, bytes::text(".cfg"))
}

pub open spec fn has_lba(found: Seq<Located>, lba: u32) -> bool {
    exists|i: int| 0 <= i < found.len() && (#[trigger] found[i]).lba == lba
}

/// Whether the entry at `off` is the directory itself or its parent.
pub open spec fn is_dot(s: Seq<u8>, off: int) -> bool {
    s[off + 32] == 1 && s[off + 33] <= 1
}

pub open spec fn is_dir_entry(s: Seq<u8>, off: int) -> bool {
    s[off + 25] / 2 % 2 == 1
}

/// The list after the entry at `off`, not counting what lies in a directory.
pub open spec fn take_entry(s: Seq<u8>, off: int, sector: u32, found: Seq<Located>) -> Seq<Located> {
    let l = located(s, off, sector);
    if !is_dot(s, off) && is_cfg(entry_name(s, off)) && !is_dir_entry(s, off) && found.len()
        < WALK_MAX && !has_lba(found, l.lba) {
        found.push(l)
    } else {
        found
    }
}

/// Whether the walk goes into the entry at `off`.
pub open spec fn enters(s: Seq<u8>, off: int, dir_lba: u32, found: Seq<Located>) -> bool {
    !is_dot(s, off) && is_dir_entry(s, off) && bytes::spec_le32(s, off + 2) != dir_lba
        && found.len() < WALK_MAX
}

/// The configurations in a directory and below it, at most `depth` levels
/// down, behind those already found. Each file is listed once.
pub open spec fn walk_dir<S: IsoSource>(
    src: &S,
    lba: u32,
    size: u32,
    i: int,
    depth: nat,
    found: Seq<Located>,
) -> Seq<Located>
    decreases depth, iso9660::spec_sector_count(size) - i, 2049int,
{
    if i >= iso9660::spec_sector_count(size) || i < 0 {
        found
    } else {
        let n = iso9660::wrap32(lba + i);
        match iso_source::iso_sector(src, n) {
            None => found,
            Some(s) => walk_dir(
                src,
                lba,
                size,
                i + 1,
                depth,
                walk_sector(src, lba, size, i, s, 0, depth, found),
            ),
        }
    }
}

pub open spec fn walk_sector<S: IsoSource>(
    src: &S,
    lba: u32,
    size: u32,
    i: int,
    s: Seq<u8>,
    off: int,
    depth: nat,
    found: Seq<Located>,
) -> Seq<Located>
    decreases depth, iso9660::spec_sector_count(size) - i, 2048 - off,
{
    if i < 0 || i >= iso9660::spec_sector_count(size) || !entry_at(s, off, used(size, i)) {
        found
    } else {
        let n = iso9660::wrap32(lba + i);
        let a = take_entry(s, off, n, found);
        let b = if depth > 0 && enters(s, off, lba, a) {
            walk_dir(
                src,
                bytes::spec_le32(s, off + 2),
                bytes::spec_le32(s, off + 10),
                0,
                (depth - 1) as nat,
                a,
            )
        } else {
            a
        };
        walk_sector(src, lba, size, i, s, off + s[off], depth, b)
    }
}

#[verifier::loop_isolation(false)]
fn knows_lba(found: &Vec<Located>, lba: u32) -> (r: bool)
    ensures
        r == has_lba(found@, lba),
{
    let mut i: usize = 0;
    while i < found.len()
        invariant
            i <= found@.len(),
            forall|j: int| 0 <= j < i ==> (#[trigger] found@[j]).lba != lba,
        decreases found@.len() - i,
    {
        if found[i].lba == lba {
            return true;
        }
        i += 1;
    }
    false
}

fn note_entry(s: &[u8; 2048], off: usize, sector: u32, found: &mut Vec<Located>)
    requires
        off + 34 <= 2048,
        off + 33 + s@[off + 32] <= 2048,
    ensures
        final(found)@ == take_entry(s@, off as int, sector, old(found)@),
{
    if s[off + 32] == 1 && s[off + 33] <= 1 {
        return;
    }
    let name: Vec<u8> = read_entry_name(s, off);
    let cfg: bool = ends_with_ignore_case(&name, ".cfg".as_bytes());
    let dir: bool = s[off + 25] / 2 % 2 == 1;
    if cfg && !dir && found.len() < WALK_MAX {
        let l: Located = read_located(s, off, sector);
        if !knows_lba(found, l.lba) {
            found.push(l);
        }
    }
}

/// Collects the configurations in a directory and below it.
#[verifier::loop_isolation(false)]
pub fn recursive_find_cfg_with_loc<S: IsoSource>(
    src: &S,
    dir_lba: u32,
    dir_size: u32,
    depth: u32,
    found: &mut Vec<Located>,
)
    ensures
        final(found)@ == walk_dir(src, dir_lba, dir_size, 0, depth as nat, old(found)@),
    decreases depth,
{
    let total: u32 = sector_count(dir_size);
    let mut scratch: [u8; 2048] = [0; 2048];
    let ghost whole = walk_dir(src, dir_lba, dir_size, 0, depth as nat, found@);
    let mut i: u32 = 0;
    while i < total
        invariant
            i <= total,
            whole == walk_dir(src, dir_lba, dir_size, i as int, depth as nat, found@),
        decreases total - i,
    {
        let n: u32 = add32(dir_lba, i);
        if !read_iso_sector(src, n, &mut scratch) {
            return;
        }
        let limit: u64 = dir_size as u64 - i as u64 * 2048;
        let ghost sector = walk_sector(
            src,
            dir_lba,
            dir_size,
            i as int,
            scratch@,
            0,
            depth as nat,
            found@,
        );
        let mut off: usize = 0;
        let mut more: bool = true;
        while more
            invariant
                off <= 2048,
                more ==> sector == walk_sector(
                    src,
                    dir_lba,
                    dir_size,
                    i as int,
                    scratch@,
                    off as int,
                    depth as nat,
                    found@,
                ),
                !more ==> sector == found@,
            decreases
                if more {
                    2049 - off
                } else {
                    0
                },
        {
            match read_entry(&scratch, off, limit) {
                None => {
                    more = false;
                },
                Some(len) => {
                    note_entry(&scratch, off, n, found);
                    let dot: bool = scratch[off + 32] == 1 && scratch[off + 33] <= 1;
                    let dir: bool = scratch[off + 25] / 2 % 2 == 1;
                    let child: u32 = le32(&scratch, off + 2);
                    let size: u32 = le32(&scratch, off + 10);
                    if depth > 0 && !dot && dir && child != dir_lba && found.len() < WALK_MAX {
                        recursive_find_cfg_with_loc(src, child, size, depth - 1, found);
                    }
                    off += len;
                },
            }
        }
        i += 1;
    }
}

// ---------------------------------------------------------------------------
// Patching a configuration
// ---------------------------------------------------------------------------

/// At most this many configurations are tried.
pub const CANDIDATE_MAX: usize = 8;

/// A configuration to try, and a path to show for it.
pub struct CfgEntry {
    pub file: Located,
    pub path: Vec<u8>,
}

pub open spec fn cfg_files(entries: Seq<CfgEntry>) -> Seq<Located> {
    Seq::new(entries.len(), |i: int| entries[i].file)
}

/// The candidates after one more was offered: at most 8, each file once.
pub open spec fn with_candidate(files: Seq<Located>, l: Located) -> Seq<Located> {
    if files.len() >= CANDIDATE_MAX || has_lba(files, l.lba) {
        files
    } else {
        files.push(l)
    }
}

#[verifier::loop_isolation(false)]
pub fn add_cfg_entry(entries: &mut Vec<CfgEntry>, file: Located, path: &[u8])
    ensures
        cfg_files(final(entries)@) == with_candidate(cfg_files(old(entries)@), file),
        final(entries)@.len() > old(entries)@.len() ==> final(entries)@.last().path@ == path@.take(
            bytes::min_int(path@.len() as int, 63),
        ),
        forall|i: int|
            0 <= i < old(entries)@.len() ==> #[trigger] final(entries)@[i] == old(entries)@[i],
{
    if entries.len() >= CANDIDATE_MAX {
        return;
    }
    let ghost files = cfg_files(entries@);
    let mut j: usize = 0;
    while j < entries.len()
        invariant
            j <= entries@.len(),
            forall|k: int| 0 <= k < j ==> (#[trigger] files[k]).lba != file.lba,
        decreases entries@.len() - j,
    {
        if entries[j].file.lba == file.lba {
            assert(files[j as int].lba == file.lba);
            return;
        }
        j += 1;
    }
    let n: usize = if path.len() < 63 {
        path.len()
    } else {
        63
    };
    entries.push(CfgEntry { file, path: slice_vec(path, 0, n) });
    assert(cfg_files(entries@) =~= files.push(file));
}

/// The candidates at well-known places, in this order.
pub open spec fn known_candidates<S: IsoSource>(src: &S, root: (u32, u32)) -> Seq<Located> {
    let boot = bytes::text("BOOT");
    let grub = bytes::text("GRUB");
    let a = offered(
        Seq::empty(),
        find_path(src, root, boot, grub, bytes::text("GRUB.CFG")),
    );
    let b = offered(a, find_path(src, root, boot, grub, bytes::text("LOOPBACK.CFG")));
    let c = offered(
        b,
        find_path(src, root, bytes::text("EFI"), boot, bytes::text("GRUB.CFG")),
    );
    offered(c, find_path(src, root, bytes::text(""), bytes::text(""), bytes::text("GRUB.CFG")))
}

pub open spec fn offered(files: Seq<Located>, l: Option<Located>) -> Seq<Located> {
    match l {
        None => files,
        Some(l) => with_candidate(files, l),
    }
}

/// What a walk found, without empty files.
pub open spec fn walked_candidates(found: Seq<Located>, i: int, files: Seq<Located>) -> Seq<Located>
    decreases found.len() - i,
{
    if i < 0 || i >= found.len() {
        files
    } else {
        walked_candidates(
            found,
            i + 1,
            if found[i].size == 0 {
                files
            } else {
                with_candidate(files, found[i])
            },
        )
    }
}

/// The configurations to try: those at well-known places, or where there is
/// none, those that a walk of the whole image finds.
pub open spec fn candidates<S: IsoSource>(src: &S) -> Seq<Located> {
    match iso9660::root_dir(src) {
        None => Seq::empty(),
        Some(root) => {
            let known = known_candidates(src, root);
            if known.len() > 0 {
                known
            } else {
                walked_candidates(
                    walk_dir(src, root.0, root.1, 0, u32::MAX as nat, Seq::empty()),
                    0,
                    Seq::empty(),
                )
            }
        },
    }
}

fn offer<S: IsoSource>(
    src: &S,
    root: (u32, u32),
    dir1: &str,
    dir2: &str,
    name: &str,
    path: &str,
    entries: &mut Vec<CfgEntry>,
)
    ensures
        cfg_files(final(entries)@) == offered(
            cfg_files(old(entries)@),
            find_path(src, root, bytes::text(dir1), bytes::text(dir2), bytes::text(name)),
        ),
{
    match locate_path(src, root, dir1.as_bytes(), dir2.as_bytes(), name.as_bytes()) {
        None => {},
        Some(l) => add_cfg_entry(entries, l, path.as_bytes()),
    }
}

/// Collects the configurations to try.
#[verifier::loop_isolation(false)]
pub fn collect_cfg_entries<S: IsoSource>(src: &S) -> (r: Vec<CfgEntry>)
    ensures
        cfg_files(r@) == candidates(src),
{
    let mut entries: Vec<CfgEntry> = Vec::new();
    assert(cfg_files(entries@) =~= Seq::empty());
    let root: (u32, u32) = match parse_pvd(src) {
        None => {
            return entries;
        },
        Some(r) => r,
    };
    offer(src, root, "BOOT", "GRUB", "GRUB.CFG", "/boot/grub/grub.cfg", &mut entries);
    offer(src, root, "BOOT", "GRUB", "LOOPBACK.CFG", "/boot/grub/loopback.cfg", &mut entries);
    offer(src, root, "EFI", "BOOT", "GRUB.CFG", "/EFI/BOOT/grub.cfg", &mut entries);
    offer(src, root, "", "", "GRUB.CFG", "/grub.cfg", &mut entries);
    assert(cfg_files(entries@) == known_candidates(src, root));
    if entries.len() == 0 {
        let mut found: Vec<Located> = Vec::new();
        recursive_find_cfg_with_loc(src, root.0, root.1, u32::MAX, &mut found);
        let mut i: usize = 0;
        assert(cfg_files(entries@) =~= Seq::empty());
        while i < found.len()
            invariant
                i <= found@.len(),
                walked_candidates(found@, 0, Seq::empty()) == walked_candidates(
                    found@,
                    i as int,
                    cfg_files(entries@),
                ),
            decreases found@.len() - i,
        {
            let l: Located = found[i];
            if l.size != 0 {
                add_cfg_entry(&mut entries, l, "/<recursive>.cfg".as_bytes());
            }
            i += 1;
        }
    }
    entries
}

/// What the image to be booted is and how it is found again after the boot.
pub struct BootImage<'a> {
    pub kind: BootKind,
    pub name: &'a [u8],
    pub location: Option<&'a IsoLocation>,
    pub premount_target: &'a [u8],
}

impl<'a> BootImage<'a> {
    pub open spec fn wf(&self) -> bool {
        self.location matches Some(l) ==> l.wf() && boot_kind::offset_fits(*l)
    }

    /// The patched contents of a configuration, if it can be patched: it can
    /// be read in full, and it starts a Linux kernel.
    pub open spec fn patched<S: IsoSource>(&self, src: &S, l: Located) -> Option<Seq<u8>> {
        let data = iso9660::spec_read_extent(src, l.lba, l.size, 0, l.size as int);
        if data.len() < l.size || !(strategy::contains(data, bytes::text("linux "))
            || strategy::contains(data, bytes::text("linuxefi"))) {
            None
        } else {
            match strategy::patch_for(
                self.kind,
                self.name@,
                boot_kind::opt_loc(self.location),
                self.premount_target@,
            ) {
                None => None,
                Some(p) => Some(p.lines(data, 0)),
            }
        }
    }

    /// The first of the candidates from `i` on that can be patched and shown
    /// on the CD-ROM.
    pub open spec fn first_patchable<S: IsoSource>(
        &self,
        src: &S,
        v: VirtualBlockIo,
        files: Seq<Located>,
        i: int,
    ) -> Option<int>
        decreases files.len() - i,
    {
        if i < 0 || i >= files.len() {
            None
        } else if self.patched(src, files[i]) matches Some(c) && fits_behind(v, c) {
            Some(i)
        } else {
            self.first_patchable(src, v, files, i + 1)
        }
    }
}

pub open spec fn entry_place(l: Located) -> EntryPlace {
    EntryPlace { sector: l.dir_sector, offset: l.dir_offset }
}

/// What a try to patch a candidate comes to.
#[derive(Clone, Copy, PartialEq, Eq, Structural, Debug)]
pub enum Attempt {
    Patched,
    NotPatchable,
    /// Patched contents do not fit behind the image.
    NoRoom,
}

/// Whether patched contents fit behind the last block of the CD-ROM.
pub open spec fn fits_behind(v: VirtualBlockIo, content: Seq<u8>) -> bool {
    &&& content.len() <= u32::MAX
    &&& v.last_block + (content.len() + 2047) / 2048 <= u32::MAX
}

/// Whether `b` is the volume `a` with `content` shown in place of a file, in
/// sectors from `extent` on; there may be no volume.
pub open spec fn volume_redirects(
    a: Option<IsoFsCtx>,
    b: Option<IsoFsCtx>,
    file: Located,
    extent: int,
    content: Seq<u8>,
) -> bool {
    match a {
        None => b is None,
        Some(x) => {
            &&& b matches Some(y)
            &&& y == (IsoFsCtx { redirect: y.redirect, ..x })
            &&& y.redirect matches Some(r)
            &&& r.old_extent == file.lba
            &&& r.old_size == file.size
            &&& r.new_extent == extent
            &&& r.new_size == content.len()
            &&& r.content@ == content
        },
    }
}

/// Patches a candidate and shows the result in its place, on the CD-ROM and on
/// the volume.
pub fn try_patch_candidate<S: IsoSource>(
    src: &S,
    image: &BootImage,
    vbio: &mut VirtualBlockIo,
    volume: &mut Option<IsoFsCtx>,
    file: Located,
) -> (r: Attempt)
    requires
        image.wf(),
        old(vbio).wf(),
    ensures
        final(vbio).wf(),
        match image.patched(src, file) {
            None => r == Attempt::NotPatchable && *final(vbio) == *old(vbio) && *final(volume)
                == *old(volume),
            Some(content) => if fits_behind(*old(vbio), content) {
                &&& r == Attempt::Patched
                &&& virtual_blockio::replaces(
                    *old(vbio),
                    *final(vbio),
                    entry_place(file),
                    content,
                )
                &&& volume_redirects(
                    *old(volume),
                    *final(volume),
                    file,
                    (old(vbio).last_block + 1) % 0x1_0000_0000,
                    content,
                )
            } else {
                r == Attempt::NoRoom && *final(vbio) == *old(vbio) && *final(volume) == *old(volume)
            },
        },
{
    if file.size as u64 > usize::MAX as u64 {
        proof {
            assert(usize::MAX >= u32::MAX);
        }
    }
    let data: Vec<u8> = read_extent_data(src, file.lba, file.size, 0, file.size as usize);
    if data.len() < file.size as usize {
        return Attempt::NotPatchable;
    }
    if !has_text(&data, "linux ") && !has_text(&data, "linuxefi") {
        return Attempt::NotPatchable;
    }
    match patch_grub_cfg(&data, image.kind, image.name, image.location, image.premount_target) {
        None => Attempt::NotPatchable,
        Some(p) => {
            let n: u64 = p.buf.len() as u64;
            if n > u32::MAX as u64 || vbio.last_block > u32::MAX as u64 || vbio.last_block + (n + 2047)
                / 2048 > u32::MAX as u64 {
                return Attempt::NoRoom;
            }
            let new_extent: u32 = ((vbio.last_block + 1) % 0x1_0000_0000) as u32;
            vbio.replace_file(
                EntryPlace { sector: file.dir_sector, offset: file.dir_offset },
                &p.buf,
            );
            let seen: Option<IsoFsCtx> = volume.take();
            if let Some(ctx) = seen {
                let mut ctx: IsoFsCtx = ctx;
                ctx.redirect = Some(
                    FileRedirect {
                        old_extent: file.lba,
                        old_size: file.size,
                        new_extent,
                        new_size: n as u32,
                        content: p.buf,
                    },
                );
                *volume = Some(ctx);
            }
            Attempt::Patched
        },
    }
}

#[verifier::loop_isolation(false)]
fn has_text(data: &[u8], text: &str) -> (r: bool)
    ensures
        r == strategy::contains(data@, bytes::text(text)),
{
    let p: &[u8] = text.as_bytes();
    if data.len() < p.len() {
        return false;
    }
    let last: usize = data.len() - p.len();
    let mut i: usize = 0;
    loop
        invariant
            i <= last,
            forall|j: int| 0 <= j < i ==> !strategy::at(data@, j, p@),
        decreases last - i,
    {
        if bytes::bytes_eq(&data[i..i + p.len()], p) {
            assert(strategy::at(data@, i as int, p@));
            return true;
        }
        if i == last {
            return false;
        }
        i += 1;
    }
}

/// Finds a configuration of the image that starts a Linux kernel, and shows it
/// patched. Returns which of the candidates it was.
#[verifier::loop_isolation(false)]
pub fn patch_grub_cfg_blockio<S: IsoSource>(
    src: &S,
    image: &BootImage,
    vbio: &mut VirtualBlockIo,
    volume: &mut Option<IsoFsCtx>,
) -> (r: Option<usize>)
    requires
        image.wf(),
        old(vbio).wf(),
    ensures
        final(vbio).wf(),
        ({
            let files = candidates(src);
            match image.first_patchable(src, *old(vbio), files, 0) {
                None => r is None && *final(vbio) == *old(vbio) && *final(volume) == *old(volume),
                Some(i) => {
                    &&& r == Some(i as usize)
                    &&& volume_redirects(
                        *old(volume),
                        *final(volume),
                        files[i],
                        (old(vbio).last_block + 1) % 0x1_0000_0000,
                        image.patched(src, files[i])->0,
                    )
                    &&& virtual_blockio::replaces(
                        *old(vbio),
                        *final(vbio),
                        entry_place(files[i]),
                        image.patched(src, files[i])->0,
                    )
                },
            }
        }),
{
    let entries: Vec<CfgEntry> = collect_cfg_entries(src);
    let ghost files = candidates(src);
    let mut i: usize = 0;
    while i < entries.len()
        invariant
            i <= entries@.len(),
            vbio.wf(),
            *vbio == *old(vbio),
            *volume == *old(volume),
            image.first_patchable(src, *old(vbio), files, 0) == image.first_patchable(
                src,
                *old(vbio),
                files,
                i as int,
            ),
        decreases entries@.len() - i,
    {
        assert(files[i as int] == entries@[i as int].file);
        match try_patch_candidate(src, image, vbio, volume, entries[i].file) {
            Attempt::Patched => {
                return Some(i);
            },
            _ => {},
        }
        i += 1;
    }
    None
}

// ---------------------------------------------------------------------------
// Starting the boot loader
// ---------------------------------------------------------------------------

/// `name` as UTF-16 text, byte by byte, with terminator.
pub open spec fn wide_z(name: Seq<u8>) -> Seq<u8> {
    Seq::new(
        2 * name.len() + 2,
        |i: int|
            if i % 2 == 0 && i / 2 < name.len() {
                name[i / 2]
            } else {
                0u8
            },
    )
}

/// The device path of the boot loader: the CD-ROM with its size in sectors,
/// the loader's path, and the end.
pub open spec fn loader_device_path(iso_size_bytes: u64) -> Seq<u8> {
    let path = wide_z(bytes::text("\\EFI\\BOOT\\BOOTX64.EFI"));
    seq![0x04u8, 0x02, 24, 0] + bytes::zeros(12) + bytes::le_bytes64(iso_size_bytes / 2048)
        + seq![0x04u8, 0x04] + bytes::le_bytes16((4 + path.len()) as u16) + path + seq![
        0x7Fu8,
        0xFF,
        0x04,
        0x00,
    ]
}

#[verifier::loop_isolation(false)]
pub fn build_iso_device_path(iso_size_bytes: u64) -> (r: Vec<u8>)
    ensures
        r@ == loader_device_path(iso_size_bytes),
        r@.len() == 76,
{
    let name: &[u8] = "\\EFI\\BOOT\\BOOTX64.EFI".as_bytes();
    proof {
        reveal_strlit("\\EFI\\BOOT\\BOOTX64.EFI");
        vstd::string::is_ascii_spec_bytes("\\EFI\\BOOT\\BOOTX64.EFI");
    }
    let mut out: Vec<u8> = Vec::new();
    out.push(0x04);
    out.push(0x02);
    out.push(24);
    out.push(0);
    bytes::push_repeat(&mut out, 0, 12);
    push_le64(&mut out, iso_size_bytes / 2048);
    out.push(0x04);
    out.push(0x04);
    bytes::push_le16(&mut out, (4 + 2 * name.len() + 2) as u16);
    let ghost head = out@;
    let mut i: usize = 0;
    while i < name.len()
        invariant
            i <= name@.len(),
            out@ == head + wide_z(name@).take(2 * i),
        decreases name@.len() - i,
    {
        out.push(name[i]);
        out.push(0);
        i += 1;
        assert(out@ =~= head + wide_z(name@).take(2 * i));
    }
    out.push(0);
    out.push(0);
    assert(out@ =~= head + wide_z(name@));
    out.push(0x7F);
    out.push(0xFF);
    out.push(0x04);
    out.push(0x00);
    assert(out@ =~= loader_device_path(iso_size_bytes));
    out
}

/// What to do next when an image is started.
#[derive(Clone, Copy, PartialEq, Eq, Structural, Debug)]
pub enum ChainStep {
    DisableWatchdog,
    CreateCdrom,
    PatchConfig,
    FindLoader,
    ReadLoader,
    BuildPath,
    LoadImage,
    /// Frees the loader's file; the image was loaded or was not.
    FreeSource { loaded: bool },
    PointToCdrom,
    FreePath,
    StartImage,
    Returned,
    Failed(ChainError),
}

#[derive(Clone, Copy, PartialEq, Eq, Structural, Debug)]
pub enum ChainError {
    NoCdrom,
    NoLoader,
    LoaderUnreadable,
    LoadImage,
}

impl ChainStep {
    /// The step after this one, by whether this one succeeded.
    pub open spec fn spec_next(&self, ok: bool) -> ChainStep {
        match *self {
            ChainStep::DisableWatchdog => ChainStep::CreateCdrom,
            ChainStep::CreateCdrom => if ok {
                ChainStep::PatchConfig
            } else {
                ChainStep::Failed(ChainError::NoCdrom)
            },
            ChainStep::PatchConfig => ChainStep::FindLoader,
            ChainStep::FindLoader => if ok {
                ChainStep::ReadLoader
            } else {
                ChainStep::Failed(ChainError::NoLoader)
            },
            ChainStep::ReadLoader => if ok {
                ChainStep::BuildPath
            } else {
                ChainStep::Failed(ChainError::LoaderUnreadable)
            },
            ChainStep::BuildPath => ChainStep::LoadImage,
            ChainStep::LoadImage => ChainStep::FreeSource { loaded: ok },
            ChainStep::FreeSource { loaded } => if loaded {
                ChainStep::PointToCdrom
            } else {
                ChainStep::FreePath
            },
            ChainStep::PointToCdrom => ChainStep::StartImage,
            ChainStep::FreePath => ChainStep::Failed(ChainError::LoadImage),
            ChainStep::StartImage => ChainStep::Returned,
            ChainStep::Returned | ChainStep::Failed(_) => *self,
        }
    }

    /// The step after this one in the start of an image.
    pub fn uefi_chainload_iso(&self, ok: bool) -> (r: ChainStep)
        ensures
            r == self.spec_next(ok),
    {
        match *self {
            ChainStep::DisableWatchdog => ChainStep::CreateCdrom,
            ChainStep::CreateCdrom => if ok {
                ChainStep::PatchConfig
            } else {
                ChainStep::Failed(ChainError::NoCdrom)
            },
            ChainStep::PatchConfig => ChainStep::FindLoader,
            ChainStep::FindLoader => if ok {
                ChainStep::ReadLoader
            } else {
                ChainStep::Failed(ChainError::NoLoader)
            },
            ChainStep::ReadLoader => if ok {
                ChainStep::BuildPath
            } else {
                ChainStep::Failed(ChainError::LoaderUnreadable)
            },
            ChainStep::BuildPath => ChainStep::LoadImage,
            ChainStep::LoadImage => ChainStep::FreeSource { loaded: ok },
            ChainStep::FreeSource { loaded } => if loaded {
                ChainStep::PointToCdrom
            } else {
                ChainStep::FreePath
            },
            ChainStep::PointToCdrom => ChainStep::StartImage,
            ChainStep::FreePath => ChainStep::Failed(ChainError::LoadImage),
            ChainStep::StartImage => ChainStep::Returned,
            ChainStep::Returned => ChainStep::Returned,
            ChainStep::Failed(e) => ChainStep::Failed(e),
        }
    }
}

/// An image is started only after it was loaded, and the loader's file is
/// freed before that.
pub proof fn started_only_when_loaded(step: ChainStep, ok: bool)
    ensures
        step.spec_next(ok) == ChainStep::StartImage ==> step == ChainStep::PointToCdrom,
        step.spec_next(ok) == ChainStep::PointToCdrom ==> step == (ChainStep::FreeSource {
            loaded: true,
        }),
        step.spec_next(ok) == (ChainStep::FreeSource { loaded: true }) ==> step
            == ChainStep::LoadImage && ok,
{
}

// ---------------------------------------------------------------------------
// The menu
// ---------------------------------------------------------------------------

/// At most this many entries are shown.
pub const MENU_MAX: usize = 20;

#[derive(Clone, Copy, PartialEq, Eq, Structural, Debug)]
pub enum MenuAction {
    Boot(usize),
    Rescan,
    Ignore,
}

/// The character of a keystroke: printable ASCII, a line feed for the return
/// key, or nothing.
pub open spec fn key_char(k: Key) -> u8 {
    if 0x20 <= k.uc < 0x7F {
        k.uc as u8
    } else if k.uc == 0x0D || k.uc == 0x0A {
        0x0A
    } else {
        0
    }
}

/// What a keystroke asks for, with `count` entries in the menu: a digit boots
/// the entry of that number, 0 standing for 10.
pub open spec fn key_action(k: Key, count: int) -> MenuAction {
    let c = key_char(k);
    if 0x31 <= c <= 0x39 {
        if c - 0x31 < count {
            MenuAction::Boot((c - 0x31) as usize)
        } else {
            MenuAction::Ignore
        }
    } else if c == 0x30 && count >= 10 {
        MenuAction::Boot(9)
    } else if c == 0x72 || c == 0x52 {
        MenuAction::Rescan
    } else {
        MenuAction::Ignore
    }
}

pub fn menu_key(k: &Key, count: usize) -> (r: MenuAction)
    ensures
        r == key_action(*k, count as int),
        r matches MenuAction::Boot(i) ==> i < count,
{
    let c: u8 = if 0x20 <= k.uc && k.uc < 0x7F {
        k.uc as u8
    } else if k.uc == 0x0D || k.uc == 0x0A {
        0x0A
    } else {
        0
    };
    if 0x31 <= c && c <= 0x39 {
        let i: usize = (c - 0x31) as usize;
        if i < count {
            MenuAction::Boot(i)
        } else {
            MenuAction::Ignore
        }
    } else if c == 0x30 && count >= 10 {
        MenuAction::Boot(9)
    } else if c == 0x72 || c == 0x52 {
        MenuAction::Rescan
    } else {
        MenuAction::Ignore
    }
}

/// A line of the menu: number, name and size in MiB.
pub open spec fn menu_line(i: int, e: IsoEntry) -> Seq<u8> {
    seq![0x20u8] + digits::decimal((i + 1) as nat) + bytes::text(". ") + (if e.name_len > 0 && e.name@[0] != 0 {
        e.name@.subrange(0, e.name_len as int)
    } else {
        Seq::empty()
    }) + bytes::text(" (") + digits::decimal((e.file_size / 1048576) as nat) + bytes::text(" MiB)\r\n")
}

fn build_menu_line(i: usize, e: &IsoEntry) -> (r: Vec<u8>)
    requires
        e.name_len <= 256,
        i < 1000,
    ensures
        r@ == menu_line(i as int, *e),
{
    let mut out: Vec<u8> = Vec::new();
    out.push(0x20);
    push_all(&mut out, &print_dec(i as u64 + 1));
    push_all(&mut out, ". ".as_bytes());
    if e.name_len > 0 && e.name[0] != 0 {
        let name: &[u8] = &e.name;
        push_all(&mut out, &name[0..e.name_len]);
    }
    push_all(&mut out, " (".as_bytes());
    push_all(&mut out, &print_dec(e.file_size / 1048576));
    push_all(&mut out, " MiB)\r\n".as_bytes());
    assert(out@ =~= menu_line(i as int, *e));
    out
}

/// The lines of the menu from entry `i` on.
pub open spec fn menu_lines(files: Seq<IsoEntry>, i: int) -> Seq<Seq<u8>>
    decreases files.len() - i,
{
    if i < 0 || i >= files.len() || i >= MENU_MAX {
        Seq::empty()
    } else {
        seq![menu_line(i, files[i])] + menu_lines(files, i + 1)
    }
}

pub open spec fn line_views(lines: Seq<Vec<u8>>) -> Seq<Seq<u8>> {
    Seq::new(lines.len(), |i: int| lines[i]@)
}

/// The entries that the menu shows.
#[verifier::loop_isolation(false)]
pub fn show_menu(files: &[IsoEntry]) -> (r: Vec<Vec<u8>>)
    requires
        forall|i: int| 0 <= i < files@.len() ==> (#[trigger] files@[i]).name_len <= 256,
    ensures
        line_views(r@) == menu_lines(files@, 0),
{
    let mut out: Vec<Vec<u8>> = Vec::new();
    let mut i: usize = 0;
    assert(line_views(out@) + menu_lines(files@, 0) =~= menu_lines(files@, 0));
    while i < files.len() && i < MENU_MAX
        invariant
            i <= files@.len(),
            i <= MENU_MAX,
            menu_lines(files@, 0) == line_views(out@) + menu_lines(files@, i as int),
        decreases files@.len() - i,
    {
        let ghost before = line_views(out@);
        out.push(build_menu_line(i, &files[i]));
        assert(line_views(out@) =~= before.push(menu_line(i as int, files@[i as int])));
        assert(before + (seq![menu_line(i as int, files@[i as int])] + menu_lines(files@, i + 1))
            =~= line_views(out@) + menu_lines(files@, i + 1));
        i += 1;
    }
    assert(line_views(out@) + Seq::<Seq<u8>>::empty() =~= line_views(out@));
    out
}

} // verus!
