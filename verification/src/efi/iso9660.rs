//! ISO 9660 directories and files.

use vstd::prelude::*;
use crate::bytes;
use crate::bytes::{bytes_eq, eq_ignore_ascii_case, le32, push_all};
use crate::efi::iso_source;
use crate::efi::iso_source::{read_iso_sector, IsoSource};

verus! {

pub const BACKSLASH: u16 = 0x5C;

/// `n` reduced to a 32-bit sector number.
pub open spec fn wrap32(n: int) -> u32 {
    (n % 0x1_0000_0000) as u32
}

/// A file or directory: where its extent starts, the extent's size, and which
/// of the two it is.
#[derive(Clone, Copy, PartialEq, Eq, Structural, Debug)]
pub struct Extent {
    pub lba: u32,
    pub size: u32,
    pub is_dir: bool,
}

pub open spec fn spec_sector_count(size: u32) -> u32 {
    ((size + 2047) / 2048) as u32
}

pub fn sector_count(size: u32) -> (r: u32)
    ensures
        r == spec_sector_count(size),
{
    ((size as u64 + 2047) / 2048) as u32
}

pub fn add32(a: u32, b: u32) -> (r: u32)
    ensures
        r == wrap32(a + b),
{
    ((a as u64 + b as u64) % 0x1_0000_0000) as u32
}

// ---------------------------------------------------------------------------
// Directory records
// ---------------------------------------------------------------------------

/// Whether a well-formed record stands at `off` of a directory sector.
pub open spec fn record_at(s: Seq<u8>, off: int) -> bool {
    &&& off + 34 <= 2048
    &&& s[off] >= 34
    &&& off + s[off] <= 2048
    &&& 33 + s[off + 32] <= s[off]
}

/// The name in the record at `off`.
pub open spec fn record_name(s: Seq<u8>, off: int) -> Seq<u8> {
    s.subrange(off + 33, off + 33 + s[off + 32])
}

/// What the record at `off` describes.
pub open spec fn record_extent(s: Seq<u8>, off: int) -> Extent {
    Extent {
        lba: bytes::spec_le32(s, off + 2),
        size: bytes::spec_le32(s, off + 10),
        is_dir: s[off + 25] / 2 % 2 == 1,
    }
}

/// A name without its version suffix.
pub open spec fn effective_name(name: Seq<u8>) -> Seq<u8> {
    if name.len() >= 2 && name[name.len() - 2] == 0x3B {
        name.take(name.len() - 2)
    } else {
        name
    }
}

/// Where the text in a UCS-2 buffer ends.
pub open spec fn ucs2_len(s: Seq<u16>, i: int) -> int
    decreases s.len() - i,
{
    if i < 0 || i >= s.len() || s[i] == 0 {
        i
    } else {
        ucs2_len(s, i + 1)
    }
}

/// The text in a UCS-2 buffer, with `?` for what is not ASCII; at most 255
/// characters.
pub open spec fn ucs2_ascii(s: Seq<u16>) -> Seq<u8> {
    Seq::new(
        bytes::min_int(ucs2_len(s, 0), 255) as nat,
        |i: int| crate::scan::exfat::ascii_of(s[i]),
    )
}

/// Whether a record's name is the one looked for, version and case ignored.
pub open spec fn name_is(iso_name: Seq<u8>, want: Seq<u16>) -> bool {
    bytes::same_ignoring_case(effective_name(iso_name), ucs2_ascii(want))
}

pub fn iso_name_effective_len(name: &[u8]) -> (r: usize)
    ensures
        r == effective_name(name@).len(),
        r <= name@.len(),
        effective_name(name@) == name@.take(r as int),
{
    let n: usize = name.len();
    assert(name@.take(n as int) =~= name@);
    if n >= 2 && name[n - 2] == 0x3B {
        n - 2
    } else {
        n
    }
}

#[verifier::loop_isolation(false)]
fn ucs2_to_ascii(s: &[u16]) -> (r: Vec<u8>)
    ensures
        r@ == ucs2_ascii(s@),
{
    let mut out: Vec<u8> = Vec::new();
    let mut i: usize = 0;
    while i < s.len() && s[i] != 0
        invariant
            i <= s@.len(),
            ucs2_len(s@, 0) == ucs2_len(s@, i as int),
            out@ == Seq::new(
                bytes::min_int(i as int, 255) as nat,
                |j: int| crate::scan::exfat::ascii_of(s@[j]),
            ),
        decreases s@.len() - i,
    {
        if i < 255 {
            out.push(if s[i] < 0x80 {
                s[i] as u8
            } else {
                0x3F
            });
        }
        i += 1;
        assert(out@ =~= Seq::new(
            bytes::min_int(i as int, 255) as nat,
            |j: int| crate::scan::exfat::ascii_of(s@[j]),
        ));
    }
    out
}

pub fn match_iso_name(iso_name: &[u8], ucs2_name: &[u16]) -> (r: bool)
    ensures
        r == name_is(iso_name@, ucs2_name@),
{
    let n: usize = iso_name_effective_len(iso_name);
    let want: Vec<u8> = ucs2_to_ascii(ucs2_name);
    eq_ignore_ascii_case(&iso_name[0..n], &want)
}

/// The first record from `off` on that has the name looked for.
pub open spec fn find_in_sector(s: Seq<u8>, off: int, want: Seq<u16>) -> Option<Extent>
    decreases 2048 - off,
{
    if off < 0 || !record_at(s, off) {
        None
    } else if name_is(record_name(s, off), want) {
        Some(record_extent(s, off))
    } else {
        find_in_sector(s, off + s[off], want)
    }
}

/// The entry of that name in the sectors of a directory from sector `i` on; a
/// sector that cannot be read ends the search.
pub open spec fn find_in_dir<S: IsoSource>(
    src: &S,
    lba: u32,
    size: u32,
    i: int,
    want: Seq<u16>,
) -> Option<Extent>
    decreases spec_sector_count(size) - i,
{
    if i >= spec_sector_count(size) {
        None
    } else {
        match iso_source::iso_sector(src, wrap32(lba + i)) {
            None => None,
            Some(s) => match find_in_sector(s, 0, want) {
                Some(e) => Some(e),
                None => find_in_dir(src, lba, size, i + 1, want),
            },
        }
    }
}

/// Whether a well-formed record stands at `off`, and then its length.
pub fn read_record(s: &[u8; 2048], off: usize) -> (r: Option<usize>)
    requires
        off <= 65535,
    ensures
        r is Some <==> record_at(s@, off as int),
        r matches Some(n) ==> n == s@[off as int],
{
    if off + 34 > 2048 {
        return None;
    }
    let len: usize = s[off] as usize;
    if len < 34 || off + len > 2048 || 33 + s[off + 32] as usize > len {
        None
    } else {
        Some(len)
    }
}

pub fn read_extent(s: &[u8; 2048], off: usize) -> (r: Extent)
    requires
        off + 34 <= 2048,
    ensures
        r == record_extent(s@, off as int),
{
    Extent { lba: le32(s, off + 2), size: le32(s, off + 10), is_dir: s[off + 25] / 2 % 2 == 1 }
}

#[verifier::loop_isolation(false)]
fn search_sector(s: &[u8; 2048], want: &[u16]) -> (r: Option<Extent>)
    ensures
        r == find_in_sector(s@, 0, want@),
{
    let mut off: usize = 0;
    loop
        invariant
            off <= 2048,
            find_in_sector(s@, 0, want@) == find_in_sector(s@, off as int, want@),
        decreases 2048 - off,
    {
        match read_record(s, off) {
            None => {
                return None;
            },
            Some(len) => {
                let data: &[u8] = s;
                let name_len: usize = s[off + 32] as usize;
                if match_iso_name(&data[off + 33..off + 33 + name_len], want) {
                    return Some(read_extent(s, off));
                }
                off += len;
            },
        }
    }
}

/// The entry of that name in a directory.
#[verifier::loop_isolation(false)]
pub fn lookup_in_dir<S: IsoSource>(src: &S, dir_lba: u32, dir_size: u32, name: &[u16]) -> (r: Option<
    Extent,
>)
    ensures
        r == find_in_dir(src, dir_lba, dir_size, 0, name@),
{
    let total: u32 = sector_count(dir_size);
    let mut scratch: [u8; 2048] = [0; 2048];
    let mut i: u32 = 0;
    while i < total
        invariant
            i <= total,
            find_in_dir(src, dir_lba, dir_size, 0, name@) == find_in_dir(
                src,
                dir_lba,
                dir_size,
                i as int,
                name@,
            ),
        decreases total - i,
    {
        if !read_iso_sector(src, add32(dir_lba, i), &mut scratch) {
            return None;
        }
        if let Some(e) = search_sector(&scratch, name) {
            return Some(e);
        }
        i += 1;
    }
    None
}

/// The root directory, from the primary volume descriptor.
pub open spec fn root_dir<S: IsoSource>(src: &S) -> Option<(u32, u32)> {
    match iso_source::iso_sector(src, 16) {
        None => None,
        Some(pvd) => if pvd[0] != 1 || pvd.subrange(1, 6) != bytes::text("CD001") {
            None
        } else {
            Some((bytes::spec_le32(pvd, 158), bytes::spec_le32(pvd, 166)))
        },
    }
}

pub fn parse_pvd<S: IsoSource>(src: &S) -> (r: Option<(u32, u32)>)
    ensures
        r == root_dir(src),
{
    let mut pvd: [u8; 2048] = [0; 2048];
    if !read_iso_sector(src, 16, &mut pvd) {
        return None;
    }
    let s: &[u8] = &pvd;
    if s[0] != 1 || !bytes_eq(&s[1..6], "CD001".as_bytes()) {
        return None;
    }
    Some((le32(s, 158), le32(s, 166)))
}

// ---------------------------------------------------------------------------
// Paths
// ---------------------------------------------------------------------------

/// The end of the path component at `i`.
pub open spec fn component_end(path: Seq<u16>, i: int) -> int
    decreases path.len() - i,
{
    if i < 0 || i >= path.len() || path[i] == BACKSLASH {
        i
    } else {
        component_end(path, i + 1)
    }
}

/// The first place from `i` on that is no backslash.
pub open spec fn skip_slashes(path: Seq<u16>, i: int) -> int
    decreases path.len() - i,
{
    if 0 <= i < path.len() && path[i] == BACKSLASH {
        skip_slashes(path, i + 1)
    } else {
        i
    }
}

/// Where the path behind a device name starts: at the last backslash that
/// follows a closing parenthesis, or at the front.
pub open spec fn device_end(path: Seq<u16>, i: int) -> int
    decreases i,
{
    if i <= 0 || i >= path.len() {
        0
    } else if path[i - 1] == 0x29 && path[i] == BACKSLASH {
        i
    } else {
        device_end(path, i - 1)
    }
}

/// The extent that the components of `path` from `pos` on lead to.
pub open spec fn resolve_from<S: IsoSource>(
    src: &S,
    lba: u32,
    size: u32,
    path: Seq<u16>,
    pos: int,
) -> Option<Extent>
    decreases path.len() - pos,
{
    let end = component_end(path, pos);
    let next = if end < path.len() {
        end + 1
    } else {
        end
    };
    let more = next < path.len() && path[next] != 0;
    match find_in_dir(src, lba, size, 0, path.subrange(pos, end)) {
        None => None,
        Some(e) => if !more {
            Some(e)
        } else if !e.is_dir || next <= pos {
            None
        } else {
            resolve_from(src, e.lba, e.size, path, next)
        },
    }
}

/// The extent that `path` leads to from a directory.
pub open spec fn resolve<S: IsoSource>(src: &S, lba: u32, size: u32, path: Seq<u16>) -> Option<
    Extent,
> {
    let start = skip_slashes(path, device_end(path, path.len() - 1));
    if start >= path.len() {
        Some(Extent { lba, size, is_dir: true })
    } else {
        resolve_from(src, lba, size, path, start)
    }
}

fn path_start(path: &[u16]) -> (r: usize)
    ensures
        r == skip_slashes(path@, device_end(path@, path@.len() - 1)),
        r <= path@.len(),
{
    let mut pos: usize = 0;
    if path.len() > 0 {
        let mut i: usize = path.len() - 1;
        while i > 0
            invariant_except_break
                i < path@.len(),
                device_end(path@, path@.len() - 1) == device_end(path@, i as int),
                pos == 0,
            ensures
                pos == device_end(path@, path@.len() - 1),
                pos < path@.len(),
            decreases i,
        {
            if path[i - 1] == 0x29 && path[i] == BACKSLASH {
                pos = i;
                break;
            }
            i -= 1;
        }
    }
    let ghost from = pos;
    while pos < path.len() && path[pos] == BACKSLASH
        invariant
            pos <= path@.len(),
            from == device_end(path@, path@.len() - 1),
            skip_slashes(path@, from as int) == skip_slashes(path@, pos as int),
        decreases path@.len() - pos,
    {
        pos += 1;
    }
    pos
}

#[verifier::loop_isolation(false)]
fn find_component_end(path: &[u16], from: usize) -> (r: usize)
    requires
        from <= path@.len(),
    ensures
        r == component_end(path@, from as int),
        from <= r <= path@.len(),
{
    let mut i: usize = from;
    while i < path.len() && path[i] != BACKSLASH
        invariant
            from <= i <= path@.len(),
            component_end(path@, from as int) == component_end(path@, i as int),
        decreases path@.len() - i,
    {
        i += 1;
    }
    i
}

/// The extent that `path` leads to from a directory.
#[verifier::loop_isolation(false)]
pub fn resolve_path<S: IsoSource>(src: &S, start_lba: u32, start_size: u32, path: &[u16]) -> (r:
    Option<Extent>)
    ensures
        r == resolve(src, start_lba, start_size, path@),
{
    let mut pos: usize = path_start(path);
    if pos >= path.len() {
        return Some(Extent { lba: start_lba, size: start_size, is_dir: true });
    }
    let mut lba: u32 = start_lba;
    let mut size: u32 = start_size;
    loop
        invariant
            pos < path@.len(),
            resolve(src, start_lba, start_size, path@) == resolve_from(
                src,
                lba,
                size,
                path@,
                pos as int,
            ),
        decreases path@.len() - pos,
    {
        let end: usize = find_component_end(path, pos);
        let e: Extent = match lookup_in_dir(src, lba, size, &path[pos..end]) {
            None => {
                return None;
            },
            Some(e) => e,
        };
        let next: usize = if end < path.len() {
            end + 1
        } else {
            end
        };
        if next >= path.len() || path[next] == 0 {
            return Some(e);
        }
        if !e.is_dir {
            return None;
        }
        lba = e.lba;
        size = e.size;
        pos = next;
    }
}

// ---------------------------------------------------------------------------
// File data
// ---------------------------------------------------------------------------

/// `want` bytes from byte `from` of sector `n` on, as far as sectors can be
/// read.
pub open spec fn extent_data<S: IsoSource>(src: &S, n: int, from: int, want: int) -> Seq<u8>
    decreases want,
{
    if want <= 0 || !(0 <= from < 2048) {
        Seq::empty()
    } else {
        match iso_source::iso_sector(src, wrap32(n)) {
            None => Seq::empty(),
            Some(s) => {
                let copy = bytes::min_int(want, 2048 - from);
                s.subrange(from, from + copy) + extent_data(src, n + 1, 0, want - copy)
            },
        }
    }
}

/// What a read of `len` bytes at `offset` of an extent yields.
pub open spec fn spec_read_extent<S: IsoSource>(
    src: &S,
    lba: u32,
    size: u32,
    offset: u64,
    len: int,
) -> Seq<u8> {
    if offset >= size {
        Seq::empty()
    } else {
        extent_data(
            src,
            lba + offset as int / 2048,
            offset as int % 2048,
            bytes::min_int(size - offset, len),
        )
    }
}

/// Reads up to `len` bytes at `offset` of an extent.
#[verifier::loop_isolation(false)]
pub fn read_extent_data<S: IsoSource>(
    src: &S,
    lba: u32,
    extent_size: u32,
    offset: u64,
    len: usize,
) -> (r: Vec<u8>)
    ensures
        r@ == spec_read_extent(src, lba, extent_size, offset, len as int),
        r@.len() <= len,
{
    let mut out: Vec<u8> = Vec::new();
    if offset >= extent_size as u64 {
        return out;
    }
    let left: u64 = extent_size as u64 - offset;
    let want: usize = if (len as u64) < left {
        len
    } else {
        left as usize
    };
    let mut remaining: usize = want;
    let mut from: usize = (offset % 2048) as usize;
    let mut n: u64 = lba as u64 + offset / 2048;
    let ghost first = n as int;
    let ghost from0 = from as int;
    let mut scratch: [u8; 2048] = [0; 2048];
    assert(out@ + extent_data(src, first, from0, want as int) =~= extent_data(
        src,
        first,
        from0,
        want as int,
    ));
    while remaining > 0
        invariant
            remaining <= want,
            out@.len() + remaining == want,
            from < 2048,
            n + remaining <= 0x2_0000_0000 + 0xFFFF_FFFF,
            extent_data(src, first, from0, want as int) == out@ + extent_data(
                src,
                n as int,
                from as int,
                remaining as int,
            ),
        decreases remaining,
    {
        if !read_iso_sector(src, (n % 0x1_0000_0000) as u32, &mut scratch) {
            assert(out@ + Seq::<u8>::empty() =~= out@);
            return out;
        }
        let copy: usize = if remaining < 2048 - from {
            remaining
        } else {
            2048 - from
        };
        let ghost before = out@;
        let s: &[u8] = &scratch;
        push_all(&mut out, &s[from..from + copy]);
        let ghost rest = extent_data(src, n + 1, 0, remaining - copy);
        assert(before + (scratch@.subrange(from as int, from + copy) + rest) =~= out@ + rest);
        remaining -= copy;
        from = 0;
        n += 1;
    }
    assert(out@ + Seq::<u8>::empty() =~= out@);
    out
}

} // verus!
