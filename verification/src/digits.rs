//! Numbers as decimal and hexadecimal text.

use vstd::prelude::*;
use crate::bytes::slice_vec;

verus! {

/// The decimal numeral of `v`.
pub open spec fn decimal(v: nat) -> Seq<u8>
    decreases v,
{
    if v < 10 {
        seq![(0x30 + v) as u8]
    } else {
        decimal(v / 10).push((0x30 + v % 10) as u8)
    }
}

/// The number that a decimal numeral denotes.
pub open spec fn decimal_value(s: Seq<u8>) -> int
    decreases s.len(),
{
    if s.len() == 0 {
        0
    } else {
        10 * decimal_value(s.drop_last()) + (s.last() - 0x30)
    }
}

pub open spec fn all_digits(s: Seq<u8>) -> bool {
    forall|i: int| 0 <= i < s.len() ==> 0x30 <= #[trigger] s[i] <= 0x39
}

/// The digit for `n`, with letters from `ten` on.
pub open spec fn hex_digit(n: int, ten: u8) -> u8 {
    if n < 10 {
        (0x30 + n) as u8
    } else {
        (ten + n - 10) as u8
    }
}

/// The last `n` hexadecimal digits of `v`.
pub open spec fn hex(v: nat, n: nat, ten: u8) -> Seq<u8>
    decreases n,
{
    if n == 0 {
        Seq::empty()
    } else {
        hex(v / 16, (n - 1) as nat, ten).push(hex_digit((v % 16) as int, ten))
    }
}

/// A decimal numeral denotes the number it was made from.
pub proof fn decimal_round_trip(v: nat)
    ensures
        decimal_value(decimal(v)) == v,
        all_digits(decimal(v)),
        decimal(v).len() > 0,
    decreases v,
{
    reveal_with_fuel(decimal_value, 2);
    if v < 10 {
        assert(decimal(v).drop_last() =~= Seq::empty());
    } else {
        decimal_round_trip(v / 10);
        assert(decimal(v).drop_last() =~= decimal(v / 10));
    }
}

/// A numeral denotes at least what its front denotes.
pub proof fn decimal_value_grows(s: Seq<u8>, n: int)
    requires
        0 <= n <= s.len(),
        all_digits(s),
    ensures
        0 <= decimal_value(s.take(n)) <= decimal_value(s),
    decreases s.len(),
{
    if s.len() > 0 {
        if n == s.len() {
            assert(s.take(n) =~= s);
            decimal_value_grows(s.drop_last(), n - 1);
        } else {
            decimal_value_grows(s.drop_last(), n);
            assert(s.drop_last().take(n) =~= s.take(n));
        }
    } else {
        assert(s.take(n) =~= s);
    }
}

pub open spec fn pow10(n: nat) -> nat
    decreases n,
{
    if n == 0 {
        1
    } else {
        10 * pow10((n - 1) as nat)
    }
}

proof fn decimal_len(v: nat, n: nat)
    requires
        v < pow10(n),
        n > 0,
    ensures
        decimal(v).len() <= n,
    decreases n,
{
    reveal_with_fuel(pow10, 2);
    if v >= 10 {
        decimal_len(v / 10, (n - 1) as nat);
    }
}

/// A 64-bit number has at most 20 decimal digits.
pub proof fn decimal_len_u64(v: u64)
    ensures
        1 <= decimal(v as nat).len() <= 20,
{
    reveal_with_fuel(pow10, 21);
    decimal_len(v as nat, 20);
    decimal_round_trip(v as nat);
}

/// The decimal numeral of `v`, right-aligned in 20 bytes, and where it starts.
#[verifier::loop_isolation(false)]
pub fn decimal_buffer(v: u64) -> (r: ([u8; 20], usize))
    ensures
        r.1 + decimal(v as nat).len() == 20,
        r.0@.subrange(r.1 as int, 20) == decimal(v as nat),
        r.0@.subrange(0, r.1 as int) == crate::bytes::zeros(r.1 as nat),
{
    let mut buf: [u8; 20] = [0; 20];
    let mut pos: usize = 20;
    let mut n: u64 = v;
    proof {
        decimal_len_u64(v);
        assert(decimal(v as nat) + buf@.subrange(20, 20) =~= decimal(v as nat));
    }
    while n >= 10
        invariant
            pos <= 20,
            decimal(v as nat) == decimal(n as nat) + buf@.subrange(pos as int, 20),
            decimal(v as nat).len() <= 20,
            forall|i: int| 0 <= i < pos ==> buf@[i] == 0,
        decreases n,
    {
        proof {
            decimal_round_trip((n / 10) as nat);
        }
        let ghost before = buf@;
        pos -= 1;
        buf[pos] = 0x30 + (n % 10) as u8;
        assert(buf@.subrange(pos as int, 20) =~= seq![(0x30 + n % 10) as u8] + before.subrange(
            pos + 1,
            20,
        ));
        assert(decimal(n as nat) + before.subrange(pos + 1, 20) =~= decimal((n / 10) as nat)
            + buf@.subrange(pos as int, 20));
        n = n / 10;
    }
    let ghost before = buf@;
    pos -= 1;
    buf[pos] = 0x30 + n as u8;
    assert(buf@.subrange(pos as int, 20) =~= decimal(n as nat) + before.subrange(pos + 1, 20));
    assert(buf@.subrange(0, pos as int) =~= crate::bytes::zeros(pos as nat));
    (buf, pos)
}

/// The decimal numeral of `v`.
pub fn decimal_text(v: u64) -> (r: Vec<u8>)
    ensures
        r@ == decimal(v as nat),
{
    let (buf, pos) = decimal_buffer(v);
    slice_vec(&buf, pos, 20)
}

pub fn to_hex_digit(n: u8, ten: u8) -> (r: u8)
    requires
        n < 16,
        ten <= 0x61,
    ensures
        r == hex_digit(n as int, ten),
{
    if n < 10 {
        0x30 + n
    } else {
        ten + (n - 10)
    }
}

/// The last `n` hexadecimal digits of `v`.
pub fn hex_text(v: u64, n: usize, ten: u8) -> (r: Vec<u8>)
    requires
        ten <= 0x61,
    ensures
        r@ == hex(v as nat, n as nat, ten),
        r@.len() == n,
    decreases n,
{
    if n == 0 {
        return Vec::new();
    }
    let mut out: Vec<u8> = hex_text(v / 16, n - 1, ten);
    out.push(to_hex_digit((v % 16) as u8, ten));
    out
}

} // verus!
