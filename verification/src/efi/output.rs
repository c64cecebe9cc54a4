//! Console text.

use vstd::prelude::*;
use crate::bytes;
use crate::bytes::{push_all, slice_vec};
use crate::digits;
use crate::digits::{decimal_buffer, hex_text};

verus! {

/// The longest text that is printed at once.
pub const LINE_MAX: usize = 255;

/// `s` as the firmware wants it: one 16-bit unit per byte, at most 255 of them,
/// and a terminating zero.
pub open spec fn units(s: Seq<u8>) -> Seq<u16> {
    Seq::new(
        bytes::min_int(s.len() as int, LINE_MAX as int) as nat,
        |i: int| s[i] as u16,
    ).push(0)
}

#[verifier::loop_isolation(false)]
pub fn prints(s: &[u8]) -> (r: Vec<u16>)
    ensures
        r@ == units(s@),
{
    let len: usize = if s.len() < LINE_MAX {
        s.len()
    } else {
        LINE_MAX
    };
    let mut out: Vec<u16> = Vec::new();
    let mut i: usize = 0;
    while i < len
        invariant
            i <= len <= s@.len(),
            out@ == Seq::new(i as nat, |j: int| s@[j] as u16),
        decreases len - i,
    {
        out.push(s[i] as u16);
        i += 1;
        assert(out@ =~= Seq::new(i as nat, |j: int| s@[j] as u16));
    }
    out.push(0);
    out
}

/// `prefix` followed by all 16 hexadecimal digits of `val`.
pub fn print_hex(prefix: &[u8], val: u64) -> (r: Vec<u8>)
    ensures
        r@ == prefix@ + digits::hex(val as nat, 16, 0x41),
{
    let mut out: Vec<u8> = slice_vec(prefix, 0, prefix.len());
    assert(out@ =~= prefix@);
    let digits: Vec<u8> = hex_text(val, 16, 0x41);
    push_all(&mut out, &digits);
    out
}

/// The decimal digits of `v` and how many there are. They stand at the end of
/// the buffer, except that zero stands at its start.
pub fn format_u64_buf(v: u64) -> (r: ([u8; 20], usize))
    ensures
        r.1 == digits::decimal(v as nat).len(),
        1 <= r.1 <= 20,
        v == 0 ==> r.0@ == seq![0x30u8] + bytes::zeros(19),
        v > 0 ==> r.0@ == bytes::zeros((20 - r.1) as nat) + digits::decimal(v as nat),
{
    proof {
        digits::decimal_len_u64(v);
    }
    if v == 0 {
        let mut buf: [u8; 20] = [0; 20];
        buf[0] = 0x30;
        assert(buf@ =~= seq![0x30u8] + bytes::zeros(19));
        return (buf, 1);
    }
    let (buf, pos) = decimal_buffer(v);
    assert(buf@ =~= buf@.subrange(0, pos as int) + buf@.subrange(pos as int, 20));
    (buf, 20 - pos)
}

/// What is printed for `v`: its decimal numeral.
pub fn print_dec(v: u64) -> (r: Vec<u8>)
    ensures
        r@ == digits::decimal(v as nat),
{
    let (buf, len) = format_u64_buf(v);
    let start: usize = if v == 0 {
        0
    } else {
        20 - len
    };
    let r: Vec<u8> = slice_vec(&buf, start, start + len);
    assert(r@ =~= digits::decimal(v as nat));
    r
}

} // verus!
