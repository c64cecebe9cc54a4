//! Byte-level vocabulary shared by every on-disk and in-memory format: little-
//! and big-endian fields, ASCII text, ASCII case folding and region updates.

use vstd::prelude::*;
use vstd::string::*;

verus! {

/// The number of values of a 64-bit machine word.
pub const WORD: u128 = 0x1_0000_0000_0000_0000;

/// The bytes of an ASCII literal.
pub open spec fn text(s: &str) -> Seq<u8> {
    s.spec_bytes()
}

/// `n` zero bytes.
pub open spec fn zeros(n: nat) -> Seq<u8> {
    Seq::new(n, |i: int| 0u8)
}

pub open spec fn min_int(a: int, b: int) -> int {
    if a <= b {
        a
    } else {
        b
    }
}

/// The 16-bit little-endian field at `at`.
pub open spec fn spec_le16(s: Seq<u8>, at: int) -> u16 {
    (s[at] + 256 * s[at + 1]) as u16
}

/// The 32-bit little-endian field at `at`.
pub open spec fn spec_le32(s: Seq<u8>, at: int) -> u32 {
    (s[at] + 256 * s[at + 1] + 65536 * s[at + 2] + 16777216 * s[at + 3]) as u32
}

/// The 64-bit little-endian field at `at`.
pub open spec fn spec_le64(s: Seq<u8>, at: int) -> u64 {
    (spec_le32(s, at) + 0x1_0000_0000 * spec_le32(s, at + 4)) as u64
}

/// The 32-bit big-endian field at `at`.
pub open spec fn spec_be32(s: Seq<u8>, at: int) -> u32 {
    (s[at + 3] + 256 * s[at + 2] + 65536 * s[at + 1] + 16777216 * s[at]) as u32
}

pub open spec fn le_bytes16(v: u16) -> Seq<u8> {
    seq![(v % 256) as u8, (v / 256) as u8]
}

pub open spec fn le_bytes32(v: u32) -> Seq<u8> {
    seq![(v % 256) as u8, (v / 256 % 256) as u8, (v / 65536 % 256) as u8, (v / 16777216) as u8]
}

pub open spec fn le_bytes64(v: u64) -> Seq<u8> {
    le_bytes32((v % 0x1_0000_0000) as u32) + le_bytes32((v / 0x1_0000_0000) as u32)
}

pub open spec fn be_bytes32(v: u32) -> Seq<u8> {
    seq![(v / 16777216) as u8, (v / 65536 % 256) as u8, (v / 256 % 256) as u8, (v % 256) as u8]
}

/// `s` with `t` written over it from `at` on.
pub open spec fn overlay(s: Seq<u8>, at: int, t: Seq<u8>) -> Seq<u8> {
    Seq::new(s.len(), |i: int| if at <= i < at + t.len() { t[i - at] } else { s[i] })
}

pub open spec fn spec_lower(b: u8) -> u8 {
    if 0x41 <= b <= 0x5A {
        (b + 0x20) as u8
    } else {
        b
    }
}

/// Equality of byte strings up to ASCII case.
pub open spec fn same_ignoring_case(a: Seq<u8>, b: Seq<u8>) -> bool {
    &&& a.len() == b.len()
    &&& forall|i: int| 0 <= i < a.len() ==> spec_lower(#[trigger] a[i]) == spec_lower(b[i])
}

/// Whether `name` ends in `suffix`, ASCII case ignored.
pub open spec fn has_suffix(name: Seq<u8>, suffix: Seq<u8>) -> bool {
    &&& name.len() >= suffix.len()
    &&& same_ignoring_case(name.subrange(name.len() - suffix.len(), name.len() as int), suffix)
}

pub fn le16(s: &[u8], at: usize) -> (r: u16)
    requires
        at + 2 <= s@.len(),
    ensures
        r == spec_le16(s@, at as int),
{
    s[at] as u16 + s[at + 1] as u16 * 256
}

pub fn le32(s: &[u8], at: usize) -> (r: u32)
    requires
        at + 4 <= s@.len(),
    ensures
        r == spec_le32(s@, at as int),
{
    s[at] as u32 + s[at + 1] as u32 * 256 + s[at + 2] as u32 * 65536 + s[at + 3] as u32 * 16777216
}

pub fn le64(s: &[u8], at: usize) -> (r: u64)
    requires
        at + 8 <= s@.len(),
    ensures
        r == spec_le64(s@, at as int),
{
    assert(s.len() <= usize::MAX);
    le32(s, at) as u64 + le32(s, at + 4) as u64 * 0x1_0000_0000
}

pub fn push_le16(out: &mut Vec<u8>, v: u16)
    ensures
        final(out)@ == old(out)@ + le_bytes16(v),
{
    out.push((v % 256) as u8);
    out.push((v / 256) as u8);
}

pub fn push_le32(out: &mut Vec<u8>, v: u32)
    ensures
        final(out)@ == old(out)@ + le_bytes32(v),
{
    out.push((v % 256) as u8);
    out.push((v / 256 % 256) as u8);
    out.push((v / 65536 % 256) as u8);
    out.push((v / 16777216) as u8);
}

pub fn push_le64(out: &mut Vec<u8>, v: u64)
    ensures
        final(out)@ == old(out)@ + le_bytes64(v),
{
    push_le32(out, (v % 0x1_0000_0000) as u32);
    push_le32(out, (v / 0x1_0000_0000) as u32);
}

pub fn push_all(out: &mut Vec<u8>, s: &[u8])
    ensures
        final(out)@ == old(out)@ + s@,
{
    let mut i: usize = 0;
    while i < s.len()
        invariant
            i <= s@.len(),
            out@ == old(out)@ + s@.subrange(0, i as int),
        decreases s@.len() - i,
    {
        out.push(s[i]);
        i += 1;
        assert(s@.subrange(0, i as int) =~= s@.subrange(0, i - 1).push(s@[i - 1]));
    }
    assert(s@.subrange(0, s@.len() as int) =~= s@);
}

pub fn push_repeat(out: &mut Vec<u8>, b: u8, n: usize)
    ensures
        final(out)@ == old(out)@ + Seq::new(n as nat, |i: int| b),
{
    let mut i: usize = 0;
    while i < n
        invariant
            i <= n,
            out@ == old(out)@ + Seq::new(i as nat, |j: int| b),
        decreases n - i,
    {
        out.push(b);
        i += 1;
        assert(out@ =~= old(out)@ + Seq::new(i as nat, |j: int| b));
    }
}

/// Writes `src` over `dst` from `at` on.
pub fn put(dst: &mut [u8], at: usize, src: &[u8])
    requires
        at + src@.len() <= old(dst)@.len(),
    ensures
        final(dst)@ == overlay(old(dst)@, at as int, src@),
{
    let mut i: usize = 0;
    while i < src.len()
        invariant
            i <= src@.len(),
            at + src@.len() <= old(dst)@.len(),
            dst@ == overlay(old(dst)@, at as int, src@.subrange(0, i as int)),
        decreases src@.len() - i,
    {
        assert(dst.len() <= usize::MAX);
        dst[at + i] = src[i];
        i += 1;
        assert(dst@ =~= overlay(old(dst)@, at as int, src@.subrange(0, i as int)));
    }
    assert(src@.subrange(0, src@.len() as int) =~= src@);
}

/// A copy of `s[from..to]`.
pub fn slice_vec(s: &[u8], from: usize, to: usize) -> (r: Vec<u8>)
    requires
        from <= to <= s@.len(),
    ensures
        r@ == s@.subrange(from as int, to as int),
{
    let mut out: Vec<u8> = Vec::new();
    push_all(&mut out, &s[from..to]);
    assert(out@ =~= s@.subrange(from as int, to as int));
    out
}

pub fn lower(b: u8) -> (r: u8)
    ensures
        r == spec_lower(b),
{
    if 0x41 <= b && b <= 0x5A {
        b + 0x20
    } else {
        b
    }
}

pub fn bytes_eq(a: &[u8], b: &[u8]) -> (r: bool)
    ensures
        r == (a@ == b@),
{
    if a.len() != b.len() {
        return false;
    }
    let mut i: usize = 0;
    while i < a.len()
        invariant
            i <= a@.len() == b@.len(),
            forall|j: int| 0 <= j < i ==> a@[j] == b@[j],
        decreases a@.len() - i,
    {
        if a[i] != b[i] {
            return false;
        }
        i += 1;
    }
    assert(a@ =~= b@);
    true
}

pub fn eq_ignore_ascii_case(a: &[u8], b: &[u8]) -> (r: bool)
    ensures
        r == same_ignoring_case(a@, b@),
{
    if a.len() != b.len() {
        return false;
    }
    let mut i: usize = 0;
    while i < a.len()
        invariant
            i <= a@.len() == b@.len(),
            forall|j: int| 0 <= j < i ==> spec_lower(a@[j]) == spec_lower(b@[j]),
        decreases a@.len() - i,
    {
        if lower(a[i]) != lower(b[i]) {
            return false;
        }
        i += 1;
    }
    true
}

pub fn ends_with_ignore_case(name: &[u8], suffix: &[u8]) -> (r: bool)
    ensures
        r == has_suffix(name@, suffix@),
{
    let n: usize = name.len();
    if n < suffix.len() {
        return false;
    }
    eq_ignore_ascii_case(&name[n - suffix.len()..n], suffix)
}

/// A field written by `push_le16` reads back.
pub proof fn le16_round_trip(v: u16)
    ensures
        spec_le16(le_bytes16(v), 0) == v,
{
}

/// A field written by `push_le32` reads back.
pub proof fn le32_round_trip(v: u32)
    ensures
        spec_le32(le_bytes32(v), 0) == v,
{
}

/// The bytes of a field are those of the number it holds.
pub proof fn le16_stored(s: Seq<u8>, at: int)
    requires
        0 <= at,
        at + 2 <= s.len(),
    ensures
        le_bytes16(spec_le16(s, at)) == s.subrange(at, at + 2),
{
    assert(le_bytes16(spec_le16(s, at)) =~= s.subrange(at, at + 2));
}

/// The bytes of a field are those of the number it holds.
pub proof fn le32_stored(s: Seq<u8>, at: int)
    requires
        0 <= at,
        at + 4 <= s.len(),
    ensures
        le_bytes32(spec_le32(s, at)) == s.subrange(at, at + 4),
{
    assert(le_bytes32(spec_le32(s, at)) =~= s.subrange(at, at + 4));
}

/// A field written by `push_le64` reads back.
pub proof fn le64_round_trip(v: u64)
    ensures
        spec_le64(le_bytes64(v), 0) == v,
{
    let lo = (v % 0x1_0000_0000) as u32;
    let hi = (v / 0x1_0000_0000) as u32;
    let s = le_bytes64(v);
    le32_round_trip(lo);
    le32_round_trip(hi);
    assert(spec_le32(s, 0) == spec_le32(le_bytes32(lo), 0));
    assert(spec_le32(s, 4) == spec_le32(le_bytes32(hi), 0));
}

} // verus!
