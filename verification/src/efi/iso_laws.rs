//! How an ISO 9660 image is searched and read.

use vstd::prelude::*;
use crate::bytes;
use crate::efi::boot_kind;
use crate::efi::iso;
use crate::efi::iso::{BootImage, ChainError, ChainStep, Located, MenuAction};
use crate::efi::iso9660;
use crate::efi::iso9660::Extent;
use crate::efi::iso_source;
use crate::efi::iso_source::{BlockIoIsoSource, IsoSource, ReadPlan};
use crate::efi::protocol::Key;
use crate::efi::stage_laws;
use crate::efi::strategy;

verus! {

/// The number in the four bytes at `at`, the lowest byte first.
pub open spec fn number4(s: Seq<u8>, at: int) -> int {
    s[at] + 256 * s[at + 1] + 65536 * s[at + 2] + 16777216 * s[at + 3]
}

/// A byte with an upper-case letter made lower-case.
pub open spec fn folded(b: int) -> int {
    if 65 <= b <= 90 {
        b + 32
    } else {
        b
    }
}

// ---------------------------------------------------------------------------
// Directory records
// ---------------------------------------------------------------------------

/// A record tells where its file starts, how long it is and whether it is a
/// directory.
pub proof fn record_tells_of_its_file(s: Seq<u8>, off: int, sector: u32)
    requires
        0 <= off,
        off + 34 <= s.len(),
        s.len() == 2048,
    ensures
        ({
            let e = iso9660::record_extent(s, off);
            let l = iso::located(s, off, sector);
            &&& e.lba == number4(s, off + 2)
            &&& e.size == number4(s, off + 10)
            &&& e.is_dir == (s[off + 25] / 2 % 2 == 1)
            &&& l.lba == number4(s, off + 2)
            &&& l.size == number4(s, off + 10)
            &&& l.dir_sector == sector
            &&& l.dir_offset == off
            &&& iso::is_dir_entry(s, off) == (s[off + 25] / 2 % 2 == 1)
        }),
{
}

/// Two names are the same when their letters are, whatever their case and whatever
/// version the one on the image carries.
pub proof fn names_match_without_version_and_case(name: Seq<u8>, v: u8, want: Seq<u16>)
    requires
        want.len() <= 255,
        forall|i: int| 0 <= i < want.len() ==> 0 < #[trigger] want[i] < 128,
    ensures
        iso9660::name_is(name + seq![0x3Bu8, v], want) <==> {
            &&& name.len() == want.len()
            &&& forall|i: int|
                0 <= i < name.len() ==> folded(#[trigger] name[i] as int) == folded(want[i] as int)
        },
        name.len() >= 2 && name[name.len() - 2] != 0x3B ==> (iso9660::name_is(name, want) <==> {
            &&& name.len() == want.len()
            &&& forall|i: int|
                0 <= i < name.len() ==> folded(#[trigger] name[i] as int) == folded(want[i] as int)
        }),
{
    let full = name + seq![0x3Bu8, v];
    assert(full[full.len() - 2] == 0x3B);
    assert(full.take(full.len() - 2) =~= name);
    units_up_to_nul(want, 0);
    let u = iso9660::ucs2_ascii(want);
    assert(u.len() == want.len());
    assert forall|i: int| 0 <= i < want.len() implies u[i] == want[i] by {}
    if bytes::same_ignoring_case(name, u) {
        assert forall|i: int| 0 <= i < name.len() implies folded(#[trigger] name[i] as int)
            == folded(want[i] as int) by {
            assert(bytes::spec_lower(name[i]) == bytes::spec_lower(u[i]));
        }
    }
    if name.len() == want.len() && (forall|i: int|
        0 <= i < name.len() ==> folded(#[trigger] name[i] as int) == folded(want[i] as int)) {
        assert forall|i: int| 0 <= i < name.len() implies bytes::spec_lower(#[trigger] name[i])
            == bytes::spec_lower(u[i]) by {
            assert(folded(name[i] as int) == folded(want[i] as int));
        }
    }
}

proof fn units_up_to_nul(want: Seq<u16>, i: int)
    requires
        0 <= i <= want.len(),
        forall|k: int| 0 <= k < want.len() ==> 0 < #[trigger] want[k],
    ensures
        iso9660::ucs2_len(want, i) == want.len(),
    decreases want.len() - i,
{
    if i < want.len() {
        assert(0 < want[i]);
        units_up_to_nul(want, i + 1);
    }
}

/// Whether a directory record stands whole at `off` of a sector.
pub open spec fn is_record(s: Seq<u8>, off: int) -> bool {
    &&& 0 <= off
    &&& off + 34 <= 2048
    &&& 34 <= s[off]
    &&& off + s[off] <= 2048
    &&& 33 + s[off + 32] <= s[off]
}

/// Whether the records of a sector lead from `a` to `b`, and none of them has the
/// name that is looked for.
pub open spec fn passes(s: Seq<u8>, a: int, b: int, want: Seq<u16>) -> bool
    decreases b - a,
{
    if a >= b {
        a == b
    } else {
        &&& is_record(s, a)
        &&& !iso9660::name_is(s.subrange(a + 33, a + 33 + s[a + 32]), want)
        &&& a + s[a] <= b
        &&& passes(s, a + s[a], b, want)
    }
}

/// The first record of the name is the one that is found in a sector.
pub proof fn first_record_of_the_name_is_found(s: Seq<u8>, a: int, b: int, want: Seq<u16>)
    requires
        s.len() == 2048,
        0 <= a <= b,
        passes(s, a, b, want),
        is_record(s, b) ==> iso9660::name_is(s.subrange(b + 33, b + 33 + s[b + 32]), want),
    ensures
        is_record(s, b) ==> iso9660::find_in_sector(s, a, want) == Some(
            Extent {
                lba: number4(s, b + 2) as u32,
                size: number4(s, b + 10) as u32,
                is_dir: s[b + 25] / 2 % 2 == 1,
            },
        ),
        !is_record(s, b) ==> iso9660::find_in_sector(s, a, want) is None,
    decreases b - a,
{
    if a < b {
        first_record_of_the_name_is_found(s, a + s[a], b, want);
    }
}

/// What is read of sector `n` of an image; nothing where it ends before.
pub open spec fn image_sector<S: IsoSource>(src: &S, n: int) -> Option<Seq<u8>> {
    let data = src.spec_read((n * 2048) as u64, 2048);
    if n * 2048 + 2048 <= src.spec_size() && data.len() >= 2048 {
        Some(data)
    } else {
        None
    }
}

/// A directory is searched from its first sector on, and each of its sectors is.
pub proof fn directory_is_searched_in_order<S: IsoSource>(
    src: &S,
    lba: u32,
    size: u32,
    i: int,
    k: int,
    want: Seq<u16>,
)
    requires
        0 <= i <= k,
        k * 2048 < size + 2048,
        lba + k <= u32::MAX,
        forall|j: int|
            i <= j < k ==> (#[trigger] image_sector(src, lba + j) matches Some(s)
                && iso9660::find_in_sector(s, 0, want) is None),
    ensures
        k * 2048 < size ==> iso9660::find_in_dir(src, lba, size, i, want) == (match image_sector(
            src,
            lba + k,
        ) {
            None => None,
            Some(s) => match iso9660::find_in_sector(s, 0, want) {
                Some(e) => Some(e),
                None => iso9660::find_in_dir(src, lba, size, k + 1, want),
            },
        }),
        k * 2048 >= size ==> iso9660::find_in_dir(src, lba, size, i, want) is None,
    decreases k - i,
{
    if i < k {
        assert(image_sector(src, lba + i) is Some);
        directory_is_searched_in_order(src, lba, size, i + 1, k, want);
    }
}

/// The root directory is where the first volume descriptor says, which is in sector
/// 16 and says that it is one.
pub proof fn root_is_where_the_descriptor_says<S: IsoSource>(src: &S)
    ensures
        ({
            let is_descriptor = |s: Seq<u8>|
                s[0] == 1 && s[1] == 0x43 && s[2] == 0x44 && s[3] == 0x30 && s[4] == 0x30 && s[5]
                    == 0x31;
            &&& iso9660::root_dir(src) is Some <==> image_sector(src, 16) is Some && is_descriptor(
                image_sector(src, 16)->0,
            )
            &&& iso9660::root_dir(src) matches Some(r) ==> r.0 == number4(
                image_sector(src, 16)->0,
                158,
            ) && r.1 == number4(image_sector(src, 16)->0, 166)
        }),
{
    reveal_strlit("CD001");
    vstd::string::is_ascii_spec_bytes("CD001");
    let t = bytes::text("CD001");
    assert(t =~= seq![0x43u8, 0x44, 0x30, 0x30, 0x31]);
    if image_sector(src, 16) is Some {
        let s = image_sector(src, 16)->0;
        let u = s.subrange(1, 6);
        assert(u.len() == 5);
        if u == t {
            assert(u[0] == 0x43 && u[1] == 0x44 && u[2] == 0x30 && u[3] == 0x30 && u[4] == 0x31);
        }
        if s[1] == 0x43 && s[2] == 0x44 && s[3] == 0x30 && s[4] == 0x30 && s[5] == 0x31 {
            assert(u =~= t);
        }
    }
}

// ---------------------------------------------------------------------------
// Paths
// ---------------------------------------------------------------------------

/// A path without backslashes.
pub open spec fn is_component(a: Seq<u16>) -> bool {
    forall|i: int| 0 <= i < a.len() ==> #[trigger] a[i] != 0x5C
}

proof fn component_goes_on(path: Seq<u16>, pos: int, end: int)
    requires
        0 <= pos <= end <= path.len(),
        forall|i: int| pos <= i < end ==> #[trigger] path[i] != 0x5C,
        end < path.len() ==> path[end] == 0x5C,
    ensures
        iso9660::component_end(path, pos) == end,
    decreases end - pos,
{
    if pos < end {
        assert(path[pos] != 0x5C);
        component_goes_on(path, pos + 1, end);
    }
}

proof fn component_shift(path: Seq<u16>, k: int, pos: int)
    requires
        0 <= k <= pos <= path.len(),
    ensures
        iso9660::component_end(path, pos) == iso9660::component_end(path.skip(k), pos - k) + k,
        pos <= iso9660::component_end(path, pos) <= path.len(),
    decreases path.len() - pos,
{
    if pos < path.len() {
        assert(path.skip(k)[pos - k] == path[pos]);
        component_shift(path, k, pos + 1);
    }
}

proof fn resolve_shift<S: IsoSource>(src: &S, lba: u32, size: u32, path: Seq<u16>, k: int, pos: int)
    requires
        0 <= k <= pos <= path.len(),
    ensures
        iso9660::resolve_from(src, lba, size, path, pos) == iso9660::resolve_from(
            src,
            lba,
            size,
            path.skip(k),
            pos - k,
        ),
    decreases path.len() - pos,
{
    let t = path.skip(k);
    component_shift(path, k, pos);
    let end = iso9660::component_end(path, pos);
    let next = if end < path.len() {
        end + 1
    } else {
        end
    };
    assert(path.subrange(pos, end) =~= t.subrange(pos - k, end - k));
    if next < path.len() {
        assert(t[next - k] == path[next]);
    }
    match iso9660::find_in_dir(src, lba, size, 0, path.subrange(pos, end)) {
        None => {},
        Some(e) => {
            if next < path.len() && path[next] != 0 && e.is_dir && next > pos {
                resolve_shift(src, e.lba, e.size, path, k, next);
            }
        },
    }
}

/// The first name of a path is looked up in the directory, and the rest of the path
/// in what was found, which has to be a directory. A backslash or a NUL at the end
/// changes nothing.
pub proof fn path_is_followed_name_by_name<S: IsoSource>(
    src: &S,
    lba: u32,
    size: u32,
    a: Seq<u16>,
    b: Seq<u16>,
)
    requires
        is_component(a),
    ensures
        iso9660::resolve_from(src, lba, size, a, 0) == iso9660::find_in_dir(src, lba, size, 0, a),
        iso9660::resolve_from(src, lba, size, a + seq![0x5Cu16] + b, 0) == (
        match iso9660::find_in_dir(src, lba, size, 0, a) {
            None => None,
            Some(e) => if b.len() == 0 || b[0] == 0 {
                Some(e)
            } else if e.is_dir {
                iso9660::resolve_from(src, e.lba, e.size, b, 0)
            } else {
                None
            },
        }),
{
    component_goes_on(a, 0, a.len() as int);
    assert(a.subrange(0, a.len() as int) =~= a);
    let path = a + seq![0x5Cu16] + b;
    component_goes_on(path, 0, a.len() as int);
    assert(path.subrange(0, a.len() as int) =~= a);
    let next = a.len() + 1;
    assert(path.skip(next as int) =~= b);
    match iso9660::find_in_dir(src, lba, size, 0, a) {
        None => {},
        Some(e) => {
            resolve_shift(src, e.lba, e.size, path, next as int, next as int);
        },
    }
}

proof fn slashes_go_on(path: Seq<u16>, i: int, n: int)
    requires
        0 <= i <= n <= path.len(),
        forall|k: int| i <= k < n ==> #[trigger] path[k] == 0x5C,
        n < path.len() ==> path[n] != 0x5C,
    ensures
        iso9660::skip_slashes(path, i) == n,
    decreases n - i,
{
    if i < n {
        assert(path[i] == 0x5C);
        slashes_go_on(path, i + 1, n);
    }
}

proof fn no_device(path: Seq<u16>, i: int)
    requires
        i < path.len(),
        forall|k: int| 0 < k < path.len() ==> !(path[k - 1] == 0x29 && #[trigger] path[k] == 0x5C),
    ensures
        iso9660::device_end(path, i) == 0,
    decreases i,
{
    if i > 0 {
        assert(!(path[i - 1] == 0x29 && path[i] == 0x5C));
        no_device(path, i - 1);
    }
}

proof fn device_goes_on(path: Seq<u16>, d: int, i: int)
    requires
        0 < d <= i < path.len(),
        path[d - 1] == 0x29,
        path[d] == 0x5C,
        forall|k: int| d < k < path.len() ==> !(path[k - 1] == 0x29 && #[trigger] path[k] == 0x5C),
    ensures
        iso9660::device_end(path, i) == d,
    decreases i,
{
    if i > d {
        assert(!(path[i - 1] == 0x29 && path[i] == 0x5C));
        device_goes_on(path, d, i - 1);
    }
}

/// A path is followed from behind the backslashes that it starts with. A device in
/// front of it, which ends in a bracket, is not part of it. A path with nothing else
/// is the directory itself.
pub proof fn path_starts_behind_its_device<S: IsoSource>(
    src: &S,
    lba: u32,
    size: u32,
    device: Seq<u16>,
    n: nat,
    rest: Seq<u16>,
)
    requires
        n > 0 || device.len() == 0,
        device.len() > 0 ==> device.last() == 0x29,
        rest.len() > 0 ==> rest[0] != 0x5C,
        !(exists|k: int|
            0 < k < rest.len() && rest[k - 1] == 0x29 && #[trigger] rest[k] == 0x5C),
    ensures
        iso9660::resolve(src, lba, size, device + Seq::new(n, |i: int| 0x5Cu16) + rest) == (
        if rest.len() == 0 {
            Some(Extent { lba, size, is_dir: true })
        } else {
            iso9660::resolve_from(src, lba, size, rest, 0)
        }),
{
    let path = device + Seq::new(n, |i: int| 0x5Cu16) + rest;
    let d = device.len() as int;
    let start = d + n;
    assert forall|k: int| d < k < path.len() implies !(path[k - 1] == 0x29 && #[trigger] path[k]
        == 0x5C) by {
        if k > start {
            assert(path[k] == rest[k - start]);
            assert(path[k - 1] == rest[k - 1 - start]);
        } else if k == start {
            assert(path[k] == rest[0]);
        } else {
            assert(path[k - 1] == 0x5C);
        }
    }
    if d == 0 {
        no_device(path, path.len() - 1);
    } else {
        assert(path[d - 1] == device[d - 1]);
        assert(path[d] == 0x5C);
        device_goes_on(path, d, path.len() - 1);
    }
    if rest.len() > 0 {
        assert(path[start as int] == rest[0]);
    }
    slashes_go_on(path, d, start as int);
    assert(path.skip(start as int) =~= rest);
    if rest.len() > 0 {
        resolve_shift(src, lba, size, path, start as int, start as int);
    }
}

// ---------------------------------------------------------------------------
// Contents
// ---------------------------------------------------------------------------

proof fn extent_bytes<S: IsoSource>(src: &S, n: int, from: int, want: int)
    requires
        0 <= n,
        0 <= from < 2048,
        0 <= want,
        n * 2048 + from + want <= 0x1_0000_0000 * 2048,
        forall|j: int|
            n * 2048 <= j * 2048 < n * 2048 + from + want ==> #[trigger] image_sector(src, j)
                is Some,
    ensures
        iso9660::extent_data(src, n, from, want).len() == want,
        forall|k: int|
            0 <= k < want ==> #[trigger] iso9660::extent_data(src, n, from, want)[k]
                == image_sector(src, n + (from + k) / 2048)->0[(from + k) % 2048],
    decreases want,
{
    if want > 0 {
        assert(image_sector(src, n) is Some);
        assert(n < 0x1_0000_0000);
        assert(iso9660::wrap32(n) == n);
        let s = image_sector(src, n)->0;
        assert(iso_source::iso_sector(src, iso9660::wrap32(n)) == Some(s));
        let copy = bytes::min_int(want, 2048 - from);
        if copy < want {
            extent_bytes(src, n + 1, 0, want - copy);
        }
        let rest = iso9660::extent_data(src, n + 1, 0, want - copy);
        assert(rest.len() == want - copy);
        let all = iso9660::extent_data(src, n, from, want);
        assert(all == s.subrange(from, from + copy) + rest);
        assert forall|k: int| 0 <= k < want implies #[trigger] all[k] == image_sector(
            src,
            n + (from + k) / 2048,
        )->0[(from + k) % 2048] by {
            if k < copy {
                assert((from + k) / 2048 == 0 && (from + k) % 2048 == from + k);
            } else {
                assert(all[k] == rest[k - copy]);
                assert((from + k) / 2048 == 1 + (k - copy) / 2048 && (from + k) % 2048 == (k - copy)
                    % 2048);
            }
        }
    }
}

/// A file is read byte for byte from its first sector on, as far as it reaches.
pub proof fn file_is_read_byte_for_byte<S: IsoSource>(
    src: &S,
    lba: u32,
    size: u32,
    offset: u64,
    len: int,
)
    requires
        0 <= len,
        lba * 2048 + size <= 0x1_0000_0000 * 2048,
        forall|j: int|
            lba * 2048 <= j * 2048 < lba * 2048 + size ==> #[trigger] image_sector(src, j) is Some,
    ensures
        ({
            let r = iso9660::spec_read_extent(src, lba, size, offset, len);
            &&& offset >= size ==> r.len() == 0
            &&& offset + len <= size ==> r.len() == len
            &&& offset <= size < offset + len ==> r.len() == size - offset
            &&& forall|k: int|
                0 <= k < r.len() ==> #[trigger] r[k] == image_sector(
                    src,
                    lba + (offset + k) / 2048,
                )->0[(offset + k) % 2048]
        }),
{
    if offset < size {
        let n = lba + offset as int / 2048;
        let from = offset as int % 2048;
        let want = bytes::min_int(size - offset, len);
        extent_bytes(src, n, from, want);
        let r = iso9660::spec_read_extent(src, lba, size, offset, len);
        assert forall|k: int| 0 <= k < r.len() implies #[trigger] r[k] == image_sector(
            src,
            lba + (offset + k) / 2048,
        )->0[(offset + k) % 2048] by {
            assert(n + (from + k) / 2048 == lba + (offset + k) / 2048);
            assert((from + k) % 2048 == (offset + k) % 2048);
        }
    }
}

/// A file that is read in two pieces is read as in one.
pub proof fn reading_goes_on<S: IsoSource>(
    src: &S,
    lba: u32,
    size: u32,
    offset: u64,
    a: int,
    b: int,
)
    requires
        0 <= a,
        0 <= b,
        offset + a <= u64::MAX,
        lba * 2048 + size <= 0x1_0000_0000 * 2048,
        forall|j: int|
            lba * 2048 <= j * 2048 < lba * 2048 + size ==> #[trigger] image_sector(src, j) is Some,
    ensures
        iso9660::spec_read_extent(src, lba, size, offset, a + b) == iso9660::spec_read_extent(
            src,
            lba,
            size,
            offset,
            a,
        ) + iso9660::spec_read_extent(src, lba, size, (offset + a) as u64, b),
{
    file_is_read_byte_for_byte(src, lba, size, offset, a + b);
    file_is_read_byte_for_byte(src, lba, size, offset, a);
    file_is_read_byte_for_byte(src, lba, size, (offset + a) as u64, b);
    let x = iso9660::spec_read_extent(src, lba, size, offset, a + b);
    let y = iso9660::spec_read_extent(src, lba, size, offset, a);
    let z = iso9660::spec_read_extent(src, lba, size, (offset + a) as u64, b);
    assert(x.len() == y.len() + z.len());
    assert forall|k: int| 0 <= k < x.len() implies x[k] == (y + z)[k] by {
        if k >= y.len() {
            assert(y.len() == a);
            assert((y + z)[k] == z[k - a]);
            assert((offset + a) as u64 + (k - a) == offset + k);
        }
    }
    assert(x =~= y + z);
}

/// The bytes that are asked for of an image on a disk are read where the image lies:
/// whole sectors at once, and a part of a sector by itself.
pub proof fn image_is_read_where_it_lies(src: BlockIoIsoSource, offset: u64, len: int)
    requires
        0 < len <= usize::MAX,
        offset < src.iso_size,
        src.iso_lba + offset / 512 + len <= u64::MAX,
    ensures
        match src.spec_plan(offset, len) {
            ReadPlan::Nothing => false,
            ReadPlan::Whole { lba, len: n } => {
                &&& lba * 512 == src.iso_lba * 512 + offset
                &&& n <= len
                &&& n == len || offset + n == src.iso_size
            },
            ReadPlan::Split { first, from, copy, rest } => {
                &&& first * 512 + from == src.iso_lba * 512 + offset
                &&& 0 < copy <= len
                &&& from + copy <= 512
                &&& match rest {
                    None => copy == len,
                    Some((lba, n)) => copy + n == len && from + copy == 512 && lba * 512
                        == src.iso_lba * 512 + offset + copy,
                }
            },
        },
{
}

// ---------------------------------------------------------------------------
// Boot loader and configuration
// ---------------------------------------------------------------------------

/// Whether the entries of a sector lead from `a` to `b`, and none of them has the
/// name that is looked for.
pub open spec fn entries_pass(s: Seq<u8>, a: int, b: int, limit: int, name: Seq<u8>) -> bool
    decreases b - a,
{
    if a >= b {
        a == b
    } else {
        &&& is_entry(s, a, limit)
        &&& !is_named(s, a, name)
        &&& a + s[a] <= b
        &&& entries_pass(s, a + s[a], b, limit, name)
    }
}

/// Whether an entry stands at `off` of the `limit` bytes that are used in a sector.
pub open spec fn is_entry(s: Seq<u8>, off: int, limit: int) -> bool {
    &&& off + 34 <= 2048
    &&& off < limit
    &&& s[off] != 0
    &&& off + s[off] <= 2048
    &&& off + 33 + s[off + 32] <= 2048
}

/// Whether an entry has a name, the version at its end and the case of its letters
/// aside.
pub open spec fn is_named(s: Seq<u8>, off: int, name: Seq<u8>) -> bool {
    let n = s[off + 32] as int;
    let bare = if n >= 2 && s[off + 33 + n - 2] == 0x3B {
        n - 2
    } else {
        n
    };
    &&& bare == name.len()
    &&& forall|i: int|
        0 <= i < bare ==> folded(#[trigger] s[off + 33 + i] as int) == folded(name[i] as int)
}

proof fn entry_names(s: Seq<u8>, off: int, limit: int, name: Seq<u8>)
    requires
        s.len() == 2048,
        0 <= off,
        is_entry(s, off, limit),
    ensures
        is_named(s, off, name) == bytes::same_ignoring_case(iso::entry_name(s, off), name),
{
    let n = s[off + 32] as int;
    let full = s.subrange(off + 33, off + 33 + n);
    let e = iso::entry_name(s, off);
    let bare = if n >= 2 && s[off + 33 + n - 2] == 0x3B {
        n - 2
    } else {
        n
    };
    if n >= 2 {
        assert(full[n - 2] == s[off + 33 + n - 2]);
    }
    assert(e.len() == bare);
    assert forall|i: int| 0 <= i < bare implies #[trigger] e[i] == s[off + 33 + i] by {}
    if bytes::same_ignoring_case(e, name) {
        assert forall|i: int| 0 <= i < bare implies folded(#[trigger] s[off + 33 + i] as int)
            == folded(name[i] as int) by {
            assert(bytes::spec_lower(e[i]) == bytes::spec_lower(name[i]));
        }
    }
    if is_named(s, off, name) {
        assert forall|i: int| 0 <= i < e.len() implies bytes::spec_lower(#[trigger] e[i])
            == bytes::spec_lower(name[i]) by {
            assert(folded(s[off + 33 + i] as int) == folded(name[i] as int));
        }
    }
}

/// The first entry of the name in a sector is the one that is found, and where it
/// stands is told with it.
pub proof fn first_entry_of_the_name_is_found(
    s: Seq<u8>,
    a: int,
    b: int,
    limit: int,
    sector: u32,
    name: Seq<u8>,
)
    requires
        s.len() == 2048,
        0 <= a <= b,
        entries_pass(s, a, b, limit, name),
        is_entry(s, b, limit) ==> is_named(s, b, name),
    ensures
        is_entry(s, b, limit) ==> iso::find_in_sector(s, a, limit, sector, name) == Some(
            Located {
                lba: number4(s, b + 2) as u32,
                size: number4(s, b + 10) as u32,
                dir_sector: sector,
                dir_offset: b as u32,
            },
        ),
        !is_entry(s, b, limit) ==> iso::find_in_sector(s, a, limit, sector, name) is None,
    decreases b - a,
{
    if a < b {
        entry_names(s, a, limit, name);
        first_entry_of_the_name_is_found(s, a + s[a], b, limit, sector, name);
    } else if is_entry(s, b, limit) {
        entry_names(s, b, limit, name);
    }
}

/// A directory is searched for a file sector by sector. Of the last sector only what
/// belongs to the directory is.
pub proof fn directory_is_searched_for_the_file<S: IsoSource>(
    src: &S,
    lba: u32,
    size: u32,
    i: int,
    k: int,
    name: Seq<u8>,
)
    requires
        0 <= i <= k,
        k * 2048 < size + 2048,
        lba + k <= u32::MAX,
        forall|j: int|
            i <= j < k ==> (#[trigger] image_sector(src, lba + j) matches Some(s)
                && iso::find_in_sector(s, 0, size - j * 2048, (lba + j) as u32, name) is None),
    ensures
        k * 2048 < size ==> iso::find(src, lba, size, i, name) == (match image_sector(src, lba + k) {
            None => None,
            Some(s) => match iso::find_in_sector(s, 0, size - k * 2048, (lba + k) as u32, name) {
                Some(e) => Some(e),
                None => iso::find(src, lba, size, k + 1, name),
            },
        }),
        k * 2048 >= size ==> iso::find(src, lba, size, i, name) is None,
    decreases k - i,
{
    if i < k {
        assert(image_sector(src, lba + i) is Some);
        directory_is_searched_for_the_file(src, lba, size, i + 1, k, name);
    }
}

/// The boot loader of an image is the file `BOOTX64.EFI` in `BOOT` in `EFI`, and an
/// image that lacks any of the three has none.
pub proof fn loader_is_bootx64<S: IsoSource>(src: &S)
    ensures
        iso::boot_loader(src) is Some ==> iso9660::root_dir(src) is Some,
        iso9660::root_dir(src) matches Some(root) ==> {
            let efi = iso::find(src, root.0, root.1, 0, bytes::text("EFI"));
            &&& efi is None ==> iso::boot_loader(src) is None
            &&& efi matches Some(e) ==> {
                let boot = iso::find(src, e.lba, e.size, 0, bytes::text("BOOT"));
                &&& boot is None ==> iso::boot_loader(src) is None
                &&& boot matches Some(b) ==> iso::boot_loader(src) == iso::find(
                    src,
                    b.lba,
                    b.size,
                    0,
                    bytes::text("BOOTX64.EFI"),
                )
            }
        },
{
    reveal_strlit("EFI");
    vstd::string::is_ascii_spec_bytes("EFI");
    assert(bytes::text("EFI").len() == 3);
}

/// The configuration that GRUB reads first is the first that is patched.
pub proof fn grub_configuration_comes_first<S: IsoSource>(src: &S)
    requires
        iso9660::root_dir(src) is Some,
    ensures
        ({
            let root = iso9660::root_dir(src)->0;
            let at = |dir1: Seq<u8>, dir2: Seq<u8>, name: Seq<u8>|
                iso::find_path(src, root, dir1, dir2, name);
            let (boot, grub, efi, none) = (
                bytes::text("BOOT"),
                bytes::text("GRUB"),
                bytes::text("EFI"),
                bytes::text(""),
            );
            let a = at(boot, grub, bytes::text("GRUB.CFG"));
            let b = at(boot, grub, bytes::text("LOOPBACK.CFG"));
            let c = at(efi, boot, bytes::text("GRUB.CFG"));
            let d = at(none, none, bytes::text("GRUB.CFG"));
            let files = iso::candidates(src);
            &&& a matches Some(l) ==> files.len() > 0 && files[0] == l
            &&& a is None && b is Some ==> files.len() > 0 && files[0] == b->0
            &&& a is None && b is None && c is Some ==> files.len() > 0 && files[0] == c->0
            &&& a is None && b is None && c is None && d is Some ==> files == seq![d->0]
            &&& a is Some && b is Some && (a->0).lba != (b->0).lba ==> files.len() > 1 && files[1]
                == b->0
        }),
{
}

/// Whether no two of the files start at the same sector.
pub open spec fn all_apart(files: Seq<Located>) -> bool {
    forall|i: int, j: int|
        0 <= i < j < files.len() ==> (#[trigger] files[i]).lba != (#[trigger] files[j]).lba
}

proof fn candidate_keeps_apart(files: Seq<Located>, l: Located)
    requires
        all_apart(files),
        files.len() <= 8,
    ensures
        all_apart(iso::with_candidate(files, l)),
        iso::with_candidate(files, l).len() <= 8,
        iso::with_candidate(files, l).len() >= files.len(),
        forall|i: int|
            0 <= i < files.len() ==> #[trigger] iso::with_candidate(files, l)[i] == files[i],
{
}

proof fn walked_keep_apart(found: Seq<Located>, i: int, files: Seq<Located>)
    requires
        all_apart(files),
        files.len() <= 8,
    ensures
        all_apart(iso::walked_candidates(found, i, files)),
        iso::walked_candidates(found, i, files).len() <= 8,
    decreases found.len() - i,
{
    if 0 <= i < found.len() {
        candidate_keeps_apart(files, found[i]);
        let next = if found[i].size == 0 {
            files
        } else {
            iso::with_candidate(files, found[i])
        };
        walked_keep_apart(found, i + 1, next);
    }
}

/// No file is patched twice, and no more than eight are tried.
pub proof fn candidates_differ<S: IsoSource>(src: &S)
    ensures
        all_apart(iso::candidates(src)),
        iso::candidates(src).len() <= 8,
{
    if iso9660::root_dir(src) is Some {
        let root = iso9660::root_dir(src)->0;
        walked_keep_apart(
            iso::walk_dir(src, root.0, root.1, 0, u32::MAX as nat, Seq::empty()),
            0,
            Seq::empty(),
        );
    }
}

/// A file is taken up from a directory when it is no directory itself and its name
/// ends in `.cfg`; what is known already, or goes beyond 32 files, is not.
pub proof fn configuration_files_are_taken_up(s: Seq<u8>, off: int, sector: u32, found: Seq<Located>)
    requires
        s.len() == 2048,
        0 <= off,
        is_entry(s, off, 2048),
    ensures
        ({
            let after = iso::take_entry(s, off, sector, found);
            let n = s[off + 32] as int;
            let bare = if n >= 2 && s[off + 33 + n - 2] == 0x3B {
                n - 2
            } else {
                n
            };
            let end = off + 33 + bare;
            let is_cfg = bare >= 4 && s[end - 4] == 0x2E && folded(s[end - 3] as int) == 0x63 && folded(
                s[end - 2] as int,
            ) == 0x66 && folded(s[end - 1] as int) == 0x67;
            let is_dir = s[off + 25] / 2 % 2 == 1;
            let known = exists|i: int|
                0 <= i < found.len() && (#[trigger] found[i]).lba == number4(s, off + 2);
            &&& after == found || is_cfg && !is_dir && !known && found.len() < 32
            &&& is_cfg && !is_dir && !known && found.len() < 32 ==> after == found.push(
                Located {
                    lba: number4(s, off + 2) as u32,
                    size: number4(s, off + 10) as u32,
                    dir_sector: sector,
                    dir_offset: off as u32,
                },
            )
        }),
{
    reveal_strlit(".cfg");
    vstd::string::is_ascii_spec_bytes(".cfg");
    let t = bytes::text(".cfg");
    assert(t =~= seq![0x2Eu8, 0x63, 0x66, 0x67]);
    let n = s[off + 32] as int;
    let full = s.subrange(off + 33, off + 33 + n);
    let e = iso::entry_name(s, off);
    let bare = if n >= 2 && s[off + 33 + n - 2] == 0x3B {
        n - 2
    } else {
        n
    };
    if n >= 2 {
        assert(full[n - 2] == s[off + 33 + n - 2]);
    }
    assert(e.len() == bare);
    assert forall|i: int| 0 <= i < bare implies #[trigger] e[i] == s[off + 33 + i] by {}
    let end = off + 33 + bare;
    if bare >= 4 {
        let u = e.subrange(e.len() - 4, e.len() as int);
        assert(u.len() == 4);
        assert(u[0] == s[end - 4] && u[1] == s[end - 3] && u[2] == s[end - 2] && u[3] == s[end - 1]);
        if bytes::same_ignoring_case(u, t) {
            assert(bytes::spec_lower(u[0]) == bytes::spec_lower(t[0]));
            assert(bytes::spec_lower(u[1]) == bytes::spec_lower(t[1]));
            assert(bytes::spec_lower(u[2]) == bytes::spec_lower(t[2]));
            assert(bytes::spec_lower(u[3]) == bytes::spec_lower(t[3]));
        }
        if u[0] == 0x2E && folded(u[1] as int) == 0x63 && folded(u[2] as int) == 0x66 && folded(
            u[3] as int,
        ) == 0x67 {
            assert forall|i: int| 0 <= i < u.len() implies bytes::spec_lower(#[trigger] u[i])
                == bytes::spec_lower(t[i]) by {
                assert(i == 0 || i == 1 || i == 2 || i == 3);
            }
            assert(bytes::same_ignoring_case(u, t));
        }
    }
}

/// Whether files that were found stay found, in their places.
pub open spec fn goes_on(a: Seq<Located>, b: Seq<Located>) -> bool {
    a.len() <= b.len() && b.take(a.len() as int) == a
}

proof fn goes_on_further(a: Seq<Located>, b: Seq<Located>, c: Seq<Located>)
    requires
        goes_on(a, b),
        goes_on(b, c),
    ensures
        goes_on(a, c),
{
    assert(c.take(a.len() as int) =~= c.take(b.len() as int).take(a.len() as int));
}

proof fn taking_goes_on(s: Seq<u8>, off: int, sector: u32, found: Seq<Located>)
    ensures
        goes_on(found, iso::take_entry(s, off, sector, found)),
{
    let l = iso::located(s, off, sector);
    assert(found.take(found.len() as int) =~= found);
    assert(found.push(l).take(found.len() as int) =~= found);
}

proof fn walking_dir_goes_on<S: IsoSource>(
    src: &S,
    lba: u32,
    size: u32,
    i: int,
    depth: nat,
    found: Seq<Located>,
)
    ensures
        goes_on(found, iso::walk_dir(src, lba, size, i, depth, found)),
    decreases depth, iso9660::spec_sector_count(size) - i, 2049int,
{
    assert(found.take(found.len() as int) =~= found);
    if 0 <= i < iso9660::spec_sector_count(size) {
        let n = iso9660::wrap32(lba + i);
        if iso_source::iso_sector(src, n) is Some {
            let s = iso_source::iso_sector(src, n)->0;
            walking_sector_goes_on(src, lba, size, i, s, 0, depth, found);
            let next = iso::walk_sector(src, lba, size, i, s, 0, depth, found);
            walking_dir_goes_on(src, lba, size, i + 1, depth, next);
            goes_on_further(found, next, iso::walk_dir(src, lba, size, i + 1, depth, next));
        }
    }
}

proof fn walking_sector_goes_on<S: IsoSource>(
    src: &S,
    lba: u32,
    size: u32,
    i: int,
    s: Seq<u8>,
    off: int,
    depth: nat,
    found: Seq<Located>,
)
    ensures
        goes_on(found, iso::walk_sector(src, lba, size, i, s, off, depth, found)),
    decreases depth, iso9660::spec_sector_count(size) - i, 2048 - off,
{
    assert(found.take(found.len() as int) =~= found);
    if 0 <= i < iso9660::spec_sector_count(size) && iso::entry_at(s, off, iso::used(size, i)) {
        let n = iso9660::wrap32(lba + i);
        let a = iso::take_entry(s, off, n, found);
        taking_goes_on(s, off, n, found);
        let b = if depth > 0 && iso::enters(s, off, lba, a) {
            iso::walk_dir(
                src,
                bytes::spec_le32(s, off + 2),
                bytes::spec_le32(s, off + 10),
                0,
                (depth - 1) as nat,
                a,
            )
        } else {
            a
        };
        if depth > 0 && iso::enters(s, off, lba, a) {
            walking_dir_goes_on(
                src,
                bytes::spec_le32(s, off + 2),
                bytes::spec_le32(s, off + 10),
                0,
                (depth - 1) as nat,
                a,
            );
        } else {
            assert(a.take(a.len() as int) =~= a);
        }
        goes_on_further(found, a, b);
        walking_sector_goes_on(src, lba, size, i, s, off + s[off], depth, b);
        goes_on_further(
            found,
            b,
            iso::walk_sector(src, lba, size, i, s, off + s[off], depth, b),
        );
    }
}

/// Every configuration file that the search comes to is found, unless 32 files were
/// found before; a file that starts where another one does counts as that one.
pub proof fn every_configuration_is_found<S: IsoSource>(
    src: &S,
    lba: u32,
    size: u32,
    i: int,
    s: Seq<u8>,
    off: int,
    depth: nat,
    found: Seq<Located>,
)
    requires
        s.len() == 2048,
        0 <= i,
        i * 2048 < size,
        0 <= off,
        is_entry(s, off, size - i * 2048),
        s[off + 32] > 4,
        iso::is_cfg(iso::entry_name(s, off)),
        s[off + 25] / 2 % 2 == 0,
    ensures
        ({
            let r = iso::walk_sector(src, lba, size, i, s, off, depth, found);
            r.len() >= 32 || exists|k: int|
                0 <= k < r.len() && (#[trigger] r[k]).lba == number4(s, off + 2)
        }),
{
    let n = iso9660::wrap32(lba + i);
    let a = iso::take_entry(s, off, n, found);
    let r = iso::walk_sector(src, lba, size, i, s, off, depth, found);
    assert(iso::entry_at(s, off, iso::used(size, i)));
    walking_sector_goes_on(src, lba, size, i, s, off + s[off], depth, a);
    assert(!iso::enters(s, off, lba, a));
    assert(r == iso::walk_sector(src, lba, size, i, s, off + s[off], depth, a));
    if r.len() < 32 {
        assert(found.len() < 32) by {
            taking_goes_on(s, off, n, found);
        }
        if iso::has_lba(found, bytes::spec_le32(s, off + 2)) {
            let k = choose|k: int|
                0 <= k < found.len() && (#[trigger] found[k]).lba == bytes::spec_le32(s, off + 2);
            assert(a == found);
            assert(r.take(a.len() as int)[k] == a[k]);
            assert(r[k].lba == number4(s, off + 2));
        } else {
            let k = found.len() as int;
            assert(a[k].lba == number4(s, off + 2));
            assert(r.take(a.len() as int)[k] == a[k]);
            assert(r[k].lba == number4(s, off + 2));
        }
    }
}

/// A directory that the search comes to is searched too, but for the one it stands
/// in, and what is found there stays found.
pub proof fn directories_are_searched<S: IsoSource>(
    src: &S,
    lba: u32,
    size: u32,
    i: int,
    s: Seq<u8>,
    off: int,
    depth: nat,
    found: Seq<Located>,
)
    requires
        s.len() == 2048,
        0 <= i,
        i * 2048 < size,
        0 <= off,
        is_entry(s, off, size - i * 2048),
        s[off + 32] > 1,
        s[off + 25] / 2 % 2 == 1,
        number4(s, off + 2) != lba,
        depth > 0,
        found.len() < 32,
    ensures
        goes_on(
            iso::walk_dir(
                src,
                number4(s, off + 2) as u32,
                number4(s, off + 10) as u32,
                0,
                (depth - 1) as nat,
                found,
            ),
            iso::walk_sector(src, lba, size, i, s, off, depth, found),
        ),
{
    let n = iso9660::wrap32(lba + i);
    assert(iso::entry_at(s, off, iso::used(size, i)));
    assert(iso::take_entry(s, off, n, found) == found);
    assert(iso::enters(s, off, lba, found));
    let b = iso::walk_dir(
        src,
        number4(s, off + 2) as u32,
        number4(s, off + 10) as u32,
        0,
        (depth - 1) as nat,
        found,
    );
    walking_sector_goes_on(src, lba, size, i, s, off + s[off], depth, b);
}

/// An image is started step by step: its CD-ROM, its configuration, its loader, and
/// then the loader itself. What fails on the way ends it with its own error, but for
/// the configuration, which may be left as it is.
pub proof fn image_is_started_in_order(ok: bool)
    ensures
        ({
            let good = |s: ChainStep| s.spec_next(true);
            let bad = |s: ChainStep| s.spec_next(false);
            &&& ChainStep::DisableWatchdog.spec_next(ok) == ChainStep::CreateCdrom
            &&& good(ChainStep::CreateCdrom) == ChainStep::PatchConfig
            &&& ChainStep::PatchConfig.spec_next(ok) == ChainStep::FindLoader
            &&& good(ChainStep::FindLoader) == ChainStep::ReadLoader
            &&& good(ChainStep::ReadLoader) == ChainStep::BuildPath
            &&& good(ChainStep::BuildPath) == ChainStep::LoadImage
            &&& good(good(ChainStep::LoadImage)) == ChainStep::PointToCdrom
            &&& good(ChainStep::PointToCdrom) == ChainStep::StartImage
            &&& good(ChainStep::StartImage) == ChainStep::Returned
            &&& bad(ChainStep::CreateCdrom) == ChainStep::Failed(ChainError::NoCdrom)
            &&& bad(ChainStep::FindLoader) == ChainStep::Failed(ChainError::NoLoader)
            &&& bad(ChainStep::ReadLoader) == ChainStep::Failed(ChainError::LoaderUnreadable)
            &&& good(good(bad(ChainStep::LoadImage))) == ChainStep::Failed(ChainError::LoadImage)
        }),
{
}

/// A file is patched as a configuration when all of it can be read and it has a linux
/// line; it then has the patched lines of that file.
pub proof fn configuration_is_patched_whole<S: IsoSource>(src: &S, image: BootImage, l: Located)
    requires
        image.wf(),
    ensures
        ({
            let data = iso9660::spec_read_extent(src, l.lba, l.size, 0, l.size as int);
            let patch = strategy::patch_for(
                image.kind,
                image.name@,
                boot_kind::opt_loc(image.location),
                image.premount_target@,
            );
            &&& image.patched(src, l) matches Some(c) ==> patch is Some && c == (patch->0).lines(
                data,
                0,
            )
            &&& image.patched(src, l) is Some <==> data.len() >= l.size && (strategy::contains(
                data,
                bytes::text("linux "),
            ) || strategy::contains(data, bytes::text("linuxefi")))
        }),
{
    stage_laws::arguments_always_fit(
        image.kind,
        image.name@,
        boot_kind::opt_loc(image.location),
        image.premount_target@,
    );
}

/// The device path that the loader is started with names the image by its length in
/// blocks and the loader by its path.
pub proof fn device_path_names_the_loader(iso_size: u64)
    ensures
        ({
            let p = iso::loader_device_path(iso_size);
            let path = bytes::text("\\EFI\\BOOT\\BOOTX64.EFI");
            &&& p.len() == 76
            &&& p[0] == 4 && p[1] == 2 && p[2] == 24 && p[3] == 0
            &&& number4(p, 16) + 0x1_0000_0000 * number4(p, 20) == iso_size / 2048
            &&& p[24] == 4 && p[25] == 4 && p[26] == 48 && p[27] == 0
            &&& path.len() == 21
            &&& forall|i: int|
                0 <= i < 21 ==> p[28 + 2 * i] == #[trigger] path[i] && p[28 + 2 * i + 1] == 0
            &&& p[70] == 0 && p[71] == 0
            &&& p[72] == 0x7F && p[73] == 0xFF && p[74] == 4 && p[75] == 0
        }),
{
    reveal_strlit("\\EFI\\BOOT\\BOOTX64.EFI");
    vstd::string::is_ascii_spec_bytes("\\EFI\\BOOT\\BOOTX64.EFI");
    let path = bytes::text("\\EFI\\BOOT\\BOOTX64.EFI");
    assert(path.len() == 21);
    let w = iso::wide_z(path);
    assert(w.len() == 44);
    let n: u64 = iso_size / 2048;
    let b = bytes::le_bytes64(n);
    assert(b.len() == 8);
    let head = seq![0x04u8, 0x02, 24, 0] + bytes::zeros(12);
    let two = bytes::le_bytes16(48u16);
    let p = iso::loader_device_path(iso_size);
    assert(p =~= head + b + seq![0x04u8, 0x04] + two + w + seq![0x7Fu8, 0xFF, 0x04, 0x00]);
    assert(p.subrange(16, 24) =~= b);
    assert(p.subrange(28, 72) =~= w);
    bytes::le64_round_trip(n);
    assert(bytes::spec_le64(b, 0) == n);
    assert(number4(p, 16) == number4(b, 0) && number4(p, 20) == number4(b, 4)) by {
        assert forall|i: int| 0 <= i < 8 implies p[16 + i] == #[trigger] b[i] by {}
        assert(p[16] == b[0] && p[17] == b[1] && p[18] == b[2] && p[19] == b[3]);
        assert(p[20] == b[4] && p[21] == b[5] && p[22] == b[6] && p[23] == b[7]);
    }
    assert(bytes::spec_le32(b, 0) == number4(b, 0));
    assert(bytes::spec_le32(b, 4) == number4(b, 4));
    assert forall|i: int| 0 <= i < 21 implies p[28 + 2 * i] == #[trigger] path[i] && p[28 + 2 * i
        + 1] == 0 by {
        assert(p[28 + 2 * i] == w[2 * i]);
        assert(p[28 + 2 * i + 1] == w[2 * i + 1]);
    }
    assert(p[70] == w[42] && p[71] == w[43]);
}

// ---------------------------------------------------------------------------
// Menu
// ---------------------------------------------------------------------------

/// The digits choose a file, 0 the tenth, as far as there is one; `r` looks again.
pub proof fn keys_choose_a_file(k: Key, count: int)
    requires
        0 <= count <= usize::MAX,
    ensures
        ({
            let r = iso::key_action(k, count);
            &&& 1 <= k.uc - 0x30 <= 9 && k.uc - 0x30 <= count ==> r == MenuAction::Boot(
                (k.uc - 0x31) as usize,
            )
            &&& k.uc == 0x30 && count >= 10 ==> r == MenuAction::Boot(9)
            &&& k.uc == 0x72 || k.uc == 0x52 ==> r == MenuAction::Rescan
            &&& r matches MenuAction::Boot(i) ==> i < count && i < 10 && (k.uc - 0x30) % 10 == (i + 1)
                % 10 && 0x30 <= k.uc <= 0x39
            &&& r == MenuAction::Rescan ==> k.uc == 0x72 || k.uc == 0x52
        }),
{
}

} // verus!
