//! Root directories of NTFS volumes: the master file table record of the root,
//! the names in its index, and the first data run of each file.

use vstd::prelude::*;
use crate::bytes;
use crate::bytes::{le16, le32, le64, push_all, push_repeat, WORD};
use crate::scan::chain;
use crate::scan::found;
use crate::scan::found::has_bootable_name;

verus! {

/// The longest file record that is read.
pub const RECORD_MAX: usize = 4096;

/// The number of the root directory's record.
pub const ROOT_RECORD: u32 = 5;

pub const ATTR_DATA: u32 = 0x80;

pub const ATTR_INDEX_ROOT: u32 = 0x90;

/// Placement of an NTFS volume on the disk.
#[derive(Clone, Copy, PartialEq, Eq, Structural, Debug)]
pub struct NtfsGeometry {
    pub part1_lba: u64,
    pub mft_start_lba: u64,
    pub sectors_per_cluster: u32,
    pub mft_record_size: u64,
}

/// A name from the root index and the file record it belongs to.
pub struct Candidate {
    pub name: Vec<u8>,
    pub record: u32,
}

pub struct CandidateView {
    pub name: Seq<u8>,
    pub record: u32,
}

impl View for Candidate {
    type V = CandidateView;

    open spec fn view(&self) -> CandidateView {
        CandidateView { name: self.name@, record: self.record }
    }
}

pub open spec fn candidate_views(c: Seq<Candidate>) -> Seq<CandidateView> {
    Seq::new(c.len(), |i: int| c[i]@)
}

pub open spec fn names_fit(c: Seq<Candidate>) -> bool {
    forall|i: int| 0 <= i < c.len() ==> (#[trigger] c[i]).name@.len() <= 255
}

// ---------------------------------------------------------------------------
// Variable-length integers
// ---------------------------------------------------------------------------

pub open spec fn pow256(n: nat) -> nat
    decreases n,
{
    if n == 0 {
        1
    } else {
        256 * pow256((n - 1) as nat)
    }
}

/// The little-endian number in `s[i..end]`.
pub open spec fn varlen(s: Seq<u8>, i: int, end: int) -> nat
    decreases end - i,
{
    if i >= end {
        0
    } else {
        s[i] as nat + 256 * varlen(s, i + 1, end)
    }
}

/// How many bytes of an `n`-byte number are there to be read.
pub open spec fn varlen_end(len: int, n: int) -> int {
    bytes::min_int(bytes::min_int(len, n), 8)
}

/// The two's-complement reading of an `n`-byte number; 0 for a width that is
/// not 1 to 8.
pub open spec fn varlen_signed(s: Seq<u8>, n: int) -> int {
    let v = varlen(s, 0, varlen_end(s.len() as int, n));
    if n <= 0 || n > 8 {
        0
    } else if 2 * v >= pow256(n as nat) {
        v - pow256(n as nat)
    } else {
        v as int
    }
}

proof fn pow256_grows(a: nat, b: nat)
    requires
        a <= b,
    ensures
        0 < pow256(a) <= pow256(b),
    decreases b,
{
    if a < b {
        pow256_grows(a, (b - 1) as nat);
    } else if b > 0 {
        pow256_grows((b - 1) as nat, (b - 1) as nat);
    }
}

proof fn pow256_of_8()
    ensures
        pow256(8) == 0x1_0000_0000_0000_0000,
{
    reveal_with_fuel(pow256, 9);
}

proof fn varlen_bound(s: Seq<u8>, i: int, end: int)
    requires
        i <= end,
    ensures
        varlen(s, i, end) < pow256((end - i) as nat),
    decreases end - i,
{
    if i < end {
        varlen_bound(s, i + 1, end);
    }
}

pub fn parse_varlen_le(data: &[u8], n: usize) -> (r: u64)
    ensures
        r == varlen(data@, 0, varlen_end(data@.len() as int, n as int)),
{
    let mut end: usize = data.len();
    if n < end {
        end = n;
    }
    if end > 8 {
        end = 8;
    }
    let mut i: usize = end;
    let mut val: u64 = 0;
    while i > 0
        invariant
            i <= end <= 8,
            end <= data@.len(),
            val == varlen(data@, i as int, end as int),
        decreases i,
    {
        i -= 1;
        proof {
            varlen_bound(data@, i as int, end as int);
            pow256_grows((end - i) as nat, 8);
            pow256_of_8();
        }
        val = data[i] as u64 + 256 * val;
    }
    val
}

pub fn parse_varlen_le_signed(data: &[u8], n: usize) -> (r: i64)
    ensures
        r == varlen_signed(data@, n as int),
{
    if n == 0 || n > 8 {
        return 0;
    }
    let val: u64 = parse_varlen_le(data, n);
    let mut m: u128 = 1;
    let mut i: usize = 0;
    while i < n
        invariant
            i <= n <= 8,
            m == pow256(i as nat),
        decreases n - i,
    {
        proof {
            pow256_grows((i + 1) as nat, 8);
            pow256_of_8();
        }
        m = 256 * m;
        i += 1;
    }
    proof {
        let end = varlen_end(data@.len() as int, n as int);
        varlen_bound(data@, 0, end);
        pow256_grows(end as nat, n as nat);
        pow256_grows(n as nat, 8);
        pow256_of_8();
    }
    if 2 * (val as u128) >= m {
        (val as i128 - m as i128) as i64
    } else {
        val as i64
    }
}

// ---------------------------------------------------------------------------
// File records
// ---------------------------------------------------------------------------

/// The sectors of a record in a zero-padded buffer.
pub open spec fn record_buffer(rec: Seq<u8>) -> Seq<u8> {
    rec + bytes::zeros((RECORD_MAX - rec.len()) as nat)
}

pub open spec fn fixup_applies(rec: Seq<u8>, rec_size: int) -> bool {
    let at = bytes::spec_le16(rec, 4);
    0 < at && at + 2 <= rec_size && bytes::spec_le16(rec, 6) > 1
}

/// Where the word is saved that belongs at the end of the sector of byte `k`.
pub open spec fn saved_at(at: int, k: int) -> int {
    at + 2 * (k / 512 + 1)
}

/// The record with the last two bytes of each of its sectors put back from the
/// update sequence array, which saves them behind the sequence number.
pub open spec fn fixed_up(rec: Seq<u8>, rec_size: int) -> Seq<u8> {
    let at = bytes::spec_le16(rec, 4) as int;
    let count = bytes::spec_le16(rec, 6) as int;
    if fixup_applies(rec, rec_size) {
        Seq::new(
            rec.len(),
            |k: int|
                {
                    let i = k / 512 + 1;
                    if i < count && i * 512 <= rec_size && saved_at(at, k) + 2 <= rec_size && k
                        % 512 >= 510 {
                        rec[saved_at(at, k) + k % 512 - 510]
                    } else {
                        rec[k]
                    }
                },
        )
    } else {
        rec
    }
}

/// The attributes of a record, unless their offset lies outside of it.
pub open spec fn attributes(rec: Seq<u8>, rec_size: int) -> Option<Seq<u8>> {
    let r = fixed_up(record_buffer(rec), rec_size);
    let at = bytes::spec_le16(r, 0x14) as int;
    if at >= rec_size {
        None
    } else {
        Some(r.subrange(at, RECORD_MAX as int))
    }
}

/// Whether a well-sized attribute stands at `off`.
pub open spec fn attr_at(a: Seq<u8>, off: int) -> bool {
    let kind = bytes::spec_le32(a, off);
    let len = bytes::spec_le32(a, off + 4);
    &&& off + 4 < a.len()
    &&& kind != 0xFFFF_FFFF
    &&& kind != 0
    &&& off + 8 <= a.len()
    &&& len >= 24
    &&& off + len <= a.len()
}

/// Where the data of a file starts and its size, from the data attribute at
/// `off`: only data outside the record counts, and only its first run.
pub open spec fn data_run(g: NtfsGeometry, a: Seq<u8>, off: int) -> Option<(u64, u64)> {
    let len = bytes::spec_le32(a, off + 4) as int;
    let run = bytes::spec_le16(a, off + 0x20) as int;
    let head = a[off + run] as int;
    if a[off + 8] == 0 || len < 56 || run == 0 || run >= len || head == 0 || 1 + head % 16 + head
        / 16 > len - run {
        None
    } else {
        let cluster = varlen_signed(
            a.subrange(off + run + 1 + head % 16, off + len),
            head / 16,
        );
        Some(
            (
                chain::wrap64(g.part1_lba + chain::wrap64(cluster) * g.sectors_per_cluster),
                bytes::spec_le64(a, off + 0x30),
            ),
        )
    }
}

/// The first data attribute from `off` on.
pub open spec fn data_attr(g: NtfsGeometry, a: Seq<u8>, off: int) -> Option<(u64, u64)>
    decreases a.len() - off,
{
    if !attr_at(a, off) {
        None
    } else if bytes::spec_le32(a, off) == ATTR_DATA {
        data_run(g, a, off)
    } else {
        data_attr(g, a, off + bytes::spec_le32(a, off + 4))
    }
}

/// Where the file of a record starts and its size.
pub open spec fn file_info(g: NtfsGeometry, rec: Seq<u8>) -> Option<(u64, u64)> {
    match attributes(rec, g.mft_record_size as int) {
        None => None,
        Some(a) => data_attr(g, a, 0),
    }
}

/// The low bytes of `n` UTF-16 units at `at`, NULs left out and `?` for what
/// is not ASCII.
pub open spec fn index_name(s: Seq<u8>, at: int, n: nat) -> Seq<u8>
    decreases n,
{
    if n == 0 {
        Seq::empty()
    } else if s[at] == 0 {
        index_name(s, at + 2, (n - 1) as nat)
    } else {
        seq![if s[at] < 0x80 { s[at] } else { 0x3Fu8 }] + index_name(s, at + 2, (n - 1) as nat)
    }
}

/// The bootable file that the index entry at `at` names, if it names one.
pub open spec fn index_entry(s: Seq<u8>, at: int) -> Option<CandidateView> {
    let left = s.len() - at;
    let n = s[at + 0x50] as int;
    let name = index_name(s, at + 0x52, n as nat);
    let record = bytes::spec_le32(s, at);
    if left < 0x52 || s[at + 12] / 2 % 2 == 1 || n == 0 || 0x52 + 2 * n > left || record == 0
        || !found::is_bootable(name) {
        None
    } else {
        Some(CandidateView { name, record })
    }
}

/// The bootable files named by the index entries from `at` on.
pub open spec fn index_entries(s: Seq<u8>, at: int) -> Seq<CandidateView>
    decreases s.len() - at,
{
    let len = bytes::spec_le16(s, at + 8) as int;
    if s.len() - at < 0x50 || len < 8 || len > s.len() - at {
        Seq::empty()
    } else {
        let rest = index_entries(s, at + len);
        match index_entry(s, at) {
            None => rest,
            Some(c) => seq![c] + rest,
        }
    }
}

/// The bootable files named by an index root, whose header says where its
/// entries start.
pub open spec fn index_root(s: Seq<u8>) -> Seq<CandidateView> {
    if s.len() < 20 || bytes::spec_le32(s, 0x10) + 0x10 >= s.len() {
        Seq::empty()
    } else {
        index_entries(s, bytes::spec_le32(s, 0x10) + 0x10)
    }
}

/// The bootable files named by the index roots among the attributes from `off` on.
pub open spec fn index_attrs(a: Seq<u8>, off: int) -> Seq<CandidateView>
    decreases a.len() - off,
{
    let len = bytes::spec_le32(a, off + 4) as int;
    let val = bytes::spec_le16(a, off + 0x14) as int;
    if !attr_at(a, off) {
        Seq::empty()
    } else if bytes::spec_le32(a, off) == ATTR_INDEX_ROOT && a[off + 8] == 0 && val < len {
        index_root(a.subrange(off + val, off + len)) + index_attrs(a, off + len)
    } else {
        index_attrs(a, off + len)
    }
}

/// The bootable files named in the record of a directory.
pub open spec fn root_candidates(g: NtfsGeometry, rec: Seq<u8>) -> Seq<CandidateView> {
    match attributes(rec, g.mft_record_size as int) {
        None => Seq::empty(),
        Some(a) => index_attrs(a, 0),
    }
}

/// Puts the sector ends of a record buffer back.
#[verifier::loop_isolation(false)]
fn fix_up(rec: &mut Vec<u8>, rec_size: usize)
    requires
        old(rec)@.len() == RECORD_MAX,
        rec_size <= RECORD_MAX,
    ensures
        final(rec)@ == fixed_up(old(rec)@, rec_size as int),
{
    let at: usize = le16(rec, 4) as usize;
    let count: usize = le16(rec, 6) as usize;
    if at == 0 || at + 2 > rec_size || count <= 1 {
        return;
    }
    let saved: Vec<u8> = bytes::slice_vec(rec, 0, RECORD_MAX);
    assert(saved@ =~= old(rec)@);
    let mut i: usize = 1;
    while i < count && i * 512 <= rec_size && at + 2 * i + 2 <= rec_size
        invariant
            1 <= i <= count,
            i * 512 <= rec_size + 512,
            saved@ == old(rec)@,
            rec@ == Seq::new(
                RECORD_MAX as nat,
                |k: int|
                    if k / 512 + 1 < i && k % 512 >= 510 {
                        old(rec)@[saved_at(at as int, k) + k % 512 - 510]
                    } else {
                        old(rec)@[k]
                    },
            ),
            forall|k: int| 0 <= k && k / 512 + 1 < i ==> #[trigger] saved_at(at as int, k) + 2
                <= rec_size && (k / 512 + 1) * 512 <= rec_size,
        decreases count - i,
    {
        rec[i * 512 - 2] = saved[at + 2 * i];
        rec[i * 512 - 1] = saved[at + 2 * i + 1];
        i += 1;
        assert(rec@ =~= Seq::new(
            RECORD_MAX as nat,
            |k: int|
                if k / 512 + 1 < i && k % 512 >= 510 {
                    old(rec)@[saved_at(at as int, k) + k % 512 - 510]
                } else {
                    old(rec)@[k]
                },
        ));
    }
    assert(rec@ =~= fixed_up(old(rec)@, rec_size as int));
}

/// The attributes of a record that was read sector by sector.
fn read_attributes(rec: &[u8], rec_size: usize) -> (r: Option<Vec<u8>>)
    requires
        rec@.len() <= RECORD_MAX,
        rec_size <= RECORD_MAX,
    ensures
        r is None <==> attributes(rec@, rec_size as int) is None,
        r matches Some(a) ==> attributes(rec@, rec_size as int) == Some(a@),
{
    let mut buf: Vec<u8> = Vec::new();
    push_all(&mut buf, rec);
    push_repeat(&mut buf, 0, RECORD_MAX - rec.len());
    assert(buf@ =~= record_buffer(rec@));
    fix_up(&mut buf, rec_size);
    let at: usize = le16(&buf, 0x14) as usize;
    if at >= rec_size {
        None
    } else {
        Some(bytes::slice_vec(&buf, at, RECORD_MAX))
    }
}

/// Whether a well-sized attribute stands at `off`, and then its length.
fn read_attr(a: &[u8], off: usize) -> (r: Option<usize>)
    requires
        a@.len() <= RECORD_MAX,
        off <= a@.len(),
    ensures
        r is Some <==> attr_at(a@, off as int),
        r matches Some(n) ==> n == bytes::spec_le32(a@, off + 4),
{
    if a.len() - off <= 4 {
        return None;
    }
    let kind: u32 = le32(a, off);
    if kind == 0xFFFF_FFFF || kind == 0 {
        return None;
    }
    if a.len() - off < 8 {
        return None;
    }
    let len: u32 = le32(a, off + 4);
    if len < 24 || len as u64 > (a.len() - off) as u64 {
        return None;
    }
    Some(len as usize)
}

/// The sector at which cluster `cluster` of the volume starts.
fn run_lba(g: &NtfsGeometry, cluster: i64) -> (r: u64)
    ensures
        r == chain::wrap64(g.part1_lba + chain::wrap64(cluster as int) * g.sectors_per_cluster),
{
    let lcn: u128 = if cluster < 0 {
        (cluster as i128 + WORD as i128) as u128
    } else {
        cluster as u128
    };
    assert(lcn == chain::wrap64(cluster as int));
    assert(0 <= lcn * g.sectors_per_cluster <= 0xFFFF_FFFF_FFFF_FFFFu64 * 0xFFFF_FFFFu32)
        by (nonlinear_arith)
        requires
            lcn <= 0xFFFF_FFFF_FFFF_FFFFu64,
            g.sectors_per_cluster <= 0xFFFF_FFFFu32,
    ;
    ((g.part1_lba as u128 + lcn * g.sectors_per_cluster as u128) % WORD) as u64
}

fn read_data_run(g: &NtfsGeometry, a: &[u8], off: usize, len: usize) -> (r: Option<(u64, u64)>)
    requires
        a@.len() <= RECORD_MAX,
        attr_at(a@, off as int),
        len == bytes::spec_le32(a@, off + 4),
    ensures
        r == data_run(*g, a@, off as int),
{
    if a[off + 8] == 0 || len < 56 {
        return None;
    }
    let run: usize = le16(a, off + 0x20) as usize;
    let size: u64 = le64(a, off + 0x30);
    if run == 0 || run >= len {
        return None;
    }
    let head: u8 = a[off + run];
    let len_bytes: usize = (head % 16) as usize;
    let off_bytes: usize = (head / 16) as usize;
    if head == 0 || 1 + len_bytes + off_bytes > len - run {
        return None;
    }
    let coff: i64 = parse_varlen_le_signed(&a[off + run + 1 + len_bytes..off + len], off_bytes);
    Some((run_lba(g, coff), size))
}

/// Where the data of a file starts and its size, from its attributes.
#[verifier::loop_isolation(false)]
pub fn parse_ntfs_data_attr(g: &NtfsGeometry, attrs: &[u8]) -> (r: Option<(u64, u64)>)
    requires
        attrs@.len() <= RECORD_MAX,
    ensures
        r == data_attr(*g, attrs@, 0),
{
    let mut off: usize = 0;
    while off <= attrs.len()
        invariant
            off <= attrs@.len(),
            data_attr(*g, attrs@, 0) == data_attr(*g, attrs@, off as int),
        decreases attrs@.len() - off,
    {
        match read_attr(attrs, off) {
            None => {
                return None;
            },
            Some(len) => {
                if le32(attrs, off) == ATTR_DATA {
                    return read_data_run(g, attrs, off, len);
                }
                off += len;
            },
        }
    }
    None
}

/// Where the file of a record starts and its size.
pub fn get_ntfs_file_info(g: &NtfsGeometry, rec: &[u8]) -> (r: Option<(u64, u64)>)
    requires
        rec@.len() <= RECORD_MAX,
        g.mft_record_size <= RECORD_MAX,
    ensures
        r == file_info(*g, rec@),
{
    match read_attributes(rec, g.mft_record_size as usize) {
        None => None,
        Some(a) => {
            assert(a@.len() <= RECORD_MAX);
            parse_ntfs_data_attr(g, &a)
        },
    }
}

#[verifier::loop_isolation(false)]
fn read_index_name(s: &[u8], at: usize, n: usize) -> (r: Vec<u8>)
    requires
        at + 2 * n <= s@.len() <= RECORD_MAX,
    ensures
        r@ == index_name(s@, at as int, n as nat),
        r@.len() <= n,
{
    let mut out: Vec<u8> = Vec::new();
    let mut j: usize = 0;
    while j < n
        invariant
            j <= n,
            out@.len() <= j,
            index_name(s@, at as int, n as nat) == out@ + index_name(
                s@,
                at + 2 * j,
                (n - j) as nat,
            ),
        decreases n - j,
    {
        let lo: u8 = s[at + 2 * j];
        let ghost before = out@;
        let ghost rest = index_name(s@, at + 2 * j + 2, (n - j - 1) as nat);
        if lo != 0 {
            let c: u8 = if lo < 0x80 {
                lo
            } else {
                0x3F
            };
            out.push(c);
            assert(before + (seq![c] + rest) =~= out@ + rest);
        }
        j += 1;
    }
    assert(out@ + Seq::<u8>::empty() =~= out@);
    out
}

fn read_index_entry(s: &[u8], at: usize) -> (r: Option<Candidate>)
    requires
        at + 0x50 <= s@.len() <= RECORD_MAX,
    ensures
        r is Some <==> index_entry(s@, at as int) is Some,
        r matches Some(c) ==> index_entry(s@, at as int) == Some(c@) && c.name@.len() <= 255,
{
    let left: usize = s.len() - at;
    let record: u32 = le32(s, at);
    if left < 0x52 || s[at + 12] / 2 % 2 == 1 {
        return None;
    }
    let n: usize = s[at + 0x50] as usize;
    if n == 0 || 0x52 + 2 * n > left {
        return None;
    }
    let name: Vec<u8> = read_index_name(s, at + 0x52, n);
    if record == 0 || !has_bootable_name(&name) {
        return None;
    }
    Some(Candidate { name, record })
}

/// Appends the bootable files named by the index entries of `s` from `from` on.
#[verifier::loop_isolation(false)]
pub fn parse_ntfs_index_entries(s: &[u8], from: usize, out: &mut Vec<Candidate>)
    requires
        from <= s@.len() <= RECORD_MAX,
        names_fit(old(out)@),
    ensures
        names_fit(final(out)@),
        candidate_views(final(out)@) == candidate_views(old(out)@) + index_entries(
            s@,
            from as int,
        ),
{
    let mut at: usize = from;
    while s.len() - at >= 0x50
        invariant
            from <= at <= s@.len(),
            names_fit(out@),
            candidate_views(old(out)@) + index_entries(s@, from as int) == candidate_views(out@)
                + index_entries(s@, at as int),
        decreases s@.len() - at,
    {
        let len: usize = le16(s, at + 8) as usize;
        if len < 8 || len > s.len() - at {
            assert(candidate_views(out@) + Seq::<CandidateView>::empty() =~= candidate_views(out@));
            return;
        }
        let ghost before = candidate_views(out@);
        let ghost rest = index_entries(s@, at + len);
        match read_index_entry(s, at) {
            None => {},
            Some(c) => {
                let ghost cv = c@;
                out.push(c);
                assert(candidate_views(out@) =~= before.push(cv));
                assert(before + (seq![cv] + rest) =~= candidate_views(out@) + rest);
            },
        }
        at += len;
    }
    assert(candidate_views(out@) + Seq::<CandidateView>::empty() =~= candidate_views(out@));
}

/// Appends the bootable files named by an index root.
pub fn parse_ntfs_index_root(s: &[u8], out: &mut Vec<Candidate>)
    requires
        s@.len() <= RECORD_MAX,
        names_fit(old(out)@),
    ensures
        names_fit(final(out)@),
        candidate_views(final(out)@) == candidate_views(old(out)@) + index_root(s@),
{
    if s.len() < 20 || le32(s, 0x10) as u64 + 0x10 >= s.len() as u64 {
        assert(candidate_views(out@) + Seq::<CandidateView>::empty() =~= candidate_views(out@));
        return;
    }
    parse_ntfs_index_entries(s, le32(s, 0x10) as usize + 0x10, out);
}

/// The bootable files named by the index roots among `attrs`.
#[verifier::loop_isolation(false)]
pub fn parse_ntfs_attrs(attrs: &[u8]) -> (r: Vec<Candidate>)
    requires
        attrs@.len() <= RECORD_MAX,
    ensures
        names_fit(r@),
        candidate_views(r@) == index_attrs(attrs@, 0),
{
    let mut out: Vec<Candidate> = Vec::new();
    let mut off: usize = 0;
    assert(candidate_views(out@) + index_attrs(attrs@, 0) =~= index_attrs(attrs@, 0));
    while off <= attrs.len()
        invariant
            off <= attrs@.len(),
            names_fit(out@),
            index_attrs(attrs@, 0) == candidate_views(out@) + index_attrs(attrs@, off as int),
        decreases attrs@.len() - off,
    {
        match read_attr(attrs, off) {
            None => {
                assert(candidate_views(out@) + Seq::<CandidateView>::empty() =~= candidate_views(
                    out@,
                ));
                return out;
            },
            Some(len) => {
                let val: usize = le16(attrs, off + 0x14) as usize;
                let ghost before = candidate_views(out@);
                let ghost rest = index_attrs(attrs@, off + len);
                if le32(attrs, off) == ATTR_INDEX_ROOT && attrs[off + 8] == 0 && val < len {
                    parse_ntfs_index_root(&attrs[off + val..off + len], &mut out);
                    assert(before + (index_root(attrs@.subrange(off + val, off + len)) + rest)
                        =~= candidate_views(out@) + rest);
                }
                off += len;
            },
        }
    }
    out
}

/// The bootable files named in the record of the root directory.
pub fn read_root(g: &NtfsGeometry, rec: &[u8]) -> (r: Vec<Candidate>)
    requires
        rec@.len() <= RECORD_MAX,
        g.mft_record_size <= RECORD_MAX,
    ensures
        names_fit(r@),
        candidate_views(r@) == root_candidates(*g, rec@),
{
    match read_attributes(rec, g.mft_record_size as usize) {
        None => {
            let none: Vec<Candidate> = Vec::new();
            assert(candidate_views(none@) =~= Seq::empty());
            none
        },
        Some(a) => {
            assert(a@.len() <= RECORD_MAX);
            parse_ntfs_attrs(&a)
        },
    }
}

} // verus!
