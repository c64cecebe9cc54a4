//! The parameters on the kernel's command line.

use vstd::prelude::*;
use vstd::utf8;
use crate::bytes;
use crate::bytes::bytes_eq;
use crate::digits;
use crate::text;
use crate::text::{chars_of, from_utf8};

verus! {

/// The largest offset of a disk image within its partition.
pub const MAX_OFFSET: u64 = 0x200_0000_0000;

/// Where the disk image is, as far as the command line tells.
pub struct CmdlineParams {
    pub iso_offset: Option<u64>,
    pub part_guid: Option<String>,
    pub part_num: Option<u32>,
    pub iso_path: Option<String>,
    pub iso_size: Option<u64>,
}

#[verifier::ext_equal]
pub struct ParamsView {
    pub iso_offset: Option<u64>,
    pub part_guid: Option<Seq<char>>,
    pub part_num: Option<u32>,
    pub iso_path: Option<Seq<char>>,
    pub iso_size: Option<u64>,
}

pub open spec fn opt_text(s: Option<String>) -> Option<Seq<char>> {
    match s {
        Some(s) => Some(s@),
        None => None,
    }
}

impl View for CmdlineParams {
    type V = ParamsView;

    open spec fn view(&self) -> ParamsView {
        ParamsView {
            iso_offset: self.iso_offset,
            part_guid: opt_text(self.part_guid),
            part_num: self.part_num,
            iso_path: opt_text(self.iso_path),
            iso_size: self.iso_size,
        }
    }
}

pub open spec fn no_params() -> ParamsView {
    ParamsView {
        iso_offset: None,
        part_guid: None,
        part_num: None,
        iso_path: None,
        iso_size: None,
    }
}

impl Default for CmdlineParams {
    fn default() -> (r: Self)
        ensures
            r@ == no_params(),
    {
        CmdlineParams {
            iso_offset: None,
            part_guid: None,
            part_num: None,
            iso_path: None,
            iso_size: None,
        }
    }
}

/// What separates parameters.
pub open spec fn is_blank(b: u8) -> bool {
    b == 0x20 || b == 0x09 || b == 0x0A
}

pub open spec fn skip_blanks(s: Seq<u8>, i: int) -> int
    decreases s.len() - i,
{
    if 0 <= i < s.len() && is_blank(s[i]) {
        skip_blanks(s, i + 1)
    } else {
        i
    }
}

pub open spec fn token_end(s: Seq<u8>, i: int) -> int
    decreases s.len() - i,
{
    if 0 <= i < s.len() && !is_blank(s[i]) {
        token_end(s, i + 1)
    } else {
        i
    }
}

/// The first equals sign from `i` on.
pub open spec fn equals_at(t: Seq<u8>, i: int) -> Option<int>
    decreases t.len() - i,
{
    if i < 0 || i >= t.len() {
        None
    } else if t[i] == 0x3D {
        Some(i)
    } else {
        equals_at(t, i + 1)
    }
}

/// The number that a value denotes, as far as 64 bits go; 0 where it is not
/// made of digits.
pub open spec fn number(s: Seq<u8>, max: int) -> int {
    if digits::all_digits(s) {
        bytes::min_int(digits::decimal_value(s), max)
    } else {
        0
    }
}

/// Whether a text may be a partition's GUID.
pub open spec fn guid_text(s: Seq<char>) -> bool {
    forall|i: int|
        0 <= i < s.len() ==> ('0' <= #[trigger] s[i] <= '9' || 'a' <= s[i] <= 'z' || 'A' <= s[i]
            <= 'Z' || s[i] == '-')
}

/// The parameters after one more token.
pub open spec fn taken(p: ParamsView, t: Seq<u8>) -> ParamsView {
    match equals_at(t, 0) {
        None => p,
        Some(eq) => taken_value(p, t.take(eq), t.skip(eq + 1)),
    }
}

/// The parameters after a key and its value.
pub open spec fn taken_value(p: ParamsView, key: Seq<u8>, val: Seq<u8>) -> ParamsView {
    let n64 = number(val, u64::MAX as int);
    let n32 = number(val, u32::MAX as int);
    let text = utf8::decode_utf8(val);
    if key == bytes::text("choosable.iso_offset") {
        if 0 < n64 <= MAX_OFFSET {
            ParamsView { iso_offset: Some(n64 as u64), ..p }
        } else {
            p
        }
    } else if key == bytes::text("choosable.part_guid") {
        if utf8::valid_utf8(val) && guid_text(text::lower(text)) {
            ParamsView { part_guid: Some(text::lower(text)), ..p }
        } else {
            p
        }
    } else if key == bytes::text("choosable.part_num") {
        if 0 < n32 {
            ParamsView { part_num: Some(n32 as u32), ..p }
        } else {
            p
        }
    } else if key == bytes::text("choosable.iso_path") {
        if utf8::valid_utf8(val) {
            ParamsView { iso_path: Some(text), ..p }
        } else {
            p
        }
    } else if key == bytes::text("choosable.iso_size") {
        if 0 < n64 {
            ParamsView { iso_size: Some(n64 as u64), ..p }
        } else {
            p
        }
    } else {
        p
    }
}

/// The parameters after the command line from `i` on.
pub open spec fn params_from(s: Seq<u8>, i: int, p: ParamsView) -> ParamsView
    decreases s.len() - i,
    when 0 <= i <= s.len()
    via params_shrink
{
    let a = skip_blanks(s, i);
    if a >= s.len() {
        p
    } else {
        let b = token_end(s, a);
        params_from(s, b, taken(p, s.subrange(a, b)))
    }
}

#[via_fn]
proof fn params_shrink(s: Seq<u8>, i: int, p: ParamsView) {
    let a = skip_blanks(s, i);
    skip_bounds(s, i);
    if a < s.len() {
        reveal_with_fuel(token_end, 2);
        token_bounds(s, a + 1);
    }
}

pub proof fn skip_bounds(s: Seq<u8>, i: int)
    requires
        0 <= i <= s.len(),
    ensures
        i <= skip_blanks(s, i) <= s.len(),
        skip_blanks(s, i) < s.len() ==> !is_blank(s[skip_blanks(s, i)]),
    decreases s.len() - i,
{
    if i < s.len() && is_blank(s[i]) {
        skip_bounds(s, i + 1);
    }
}

proof fn token_bounds(s: Seq<u8>, i: int)
    requires
        0 <= i <= s.len(),
    ensures
        i <= token_end(s, i) <= s.len(),
    decreases s.len() - i,
{
    if i < s.len() && !is_blank(s[i]) {
        token_bounds(s, i + 1);
    }
}

// ---------------------------------------------------------------------------

/// The number that a value denotes, at most `max`.
#[verifier::loop_isolation(false)]
fn parse_number(val: &[u8], max: u64) -> (r: u64)
    requires
        max >= 10,
    ensures
        r == number(val@, max as int),
{
    let mut v: u64 = 0;
    let mut i: usize = 0;
    while i < val.len()
        invariant
            i <= val@.len(),
            digits::all_digits(val@.take(i as int)),
            v == bytes::min_int(digits::decimal_value(val@.take(i as int)), max as int),
        decreases val@.len() - i,
    {
        let b: u8 = val[i];
        if b < 0x30 || b > 0x39 {
            return 0;
        }
        assert(val@.take(i + 1).drop_last() =~= val@.take(i as int));
        proof {
            digits::decimal_value_grows(val@.take(i as int), 0);
        }
        let next: u64 = match v.checked_mul(10) {
            Some(tens) => tens.saturating_add((b - 0x30) as u64),
            None => u64::MAX,
        };
        v = if next < max {
            next
        } else {
            max
        };
        i += 1;
    }
    assert(val@.take(i as int) =~= val@);
    v
}

fn is_guid_text(s: &str) -> (r: bool)
    ensures
        r == guid_text(s@),
{
    let v: Vec<char> = chars_of(s);
    let mut i: usize = 0;
    while i < v.len()
        invariant
            v@ == s@,
            i <= v@.len(),
            guid_text(s@.take(i as int)),
        decreases v@.len() - i,
    {
        let c: char = v[i];
        if !(('0' <= c && c <= '9') || ('a' <= c && c <= 'z') || ('A' <= c && c <= 'Z') || c
            == '-') {
            return false;
        }
        i += 1;
        assert(forall|k: int| 0 <= k < i - 1 ==> s@.take(i as int)[k] == s@.take(i - 1)[k]);
    }
    assert(s@.take(i as int) =~= s@);
    true
}

fn find_equals(t: &[u8]) -> (r: Option<usize>)
    ensures
        match r {
            Some(i) => i < t@.len() && equals_at(t@, 0) == Some(i as int),
            None => equals_at(t@, 0) is None,
        },
{
    let mut i: usize = 0;
    while i < t.len()
        invariant
            i <= t@.len(),
            equals_at(t@, 0) == equals_at(t@, i as int),
        decreases t@.len() - i,
    {
        if t[i] == 0x3D {
            return Some(i);
        }
        i += 1;
    }
    None
}

impl CmdlineParams {
    fn take_value(&mut self, key: &[u8], val: &[u8])
        ensures
            final(self)@ == taken_value(old(self)@, key@, val@),
    {
        if bytes_eq(key, "choosable.iso_offset".as_bytes()) {
            let v: u64 = parse_number(val, u64::MAX);
            if v > 0 && v <= MAX_OFFSET {
                self.iso_offset = Some(v);
            }
        } else if bytes_eq(key, "choosable.part_guid".as_bytes()) {
            if let Some(s) = from_utf8(val) {
                let lower: String = s.to_lowercase();
                if is_guid_text(&lower) {
                    self.part_guid = Some(lower);
                }
            }
        } else if bytes_eq(key, "choosable.part_num".as_bytes()) {
            let v: u64 = parse_number(val, u32::MAX as u64);
            if v > 0 {
                self.part_num = Some(v as u32);
            }
        } else if bytes_eq(key, "choosable.iso_path".as_bytes()) {
            if let Some(s) = from_utf8(val) {
                self.iso_path = Some(s);
            }
        } else if bytes_eq(key, "choosable.iso_size".as_bytes()) {
            let v: u64 = parse_number(val, u64::MAX);
            if v > 0 {
                self.iso_size = Some(v);
            }
        }
    }
}

/// The parameters on a command line.
#[verifier::loop_isolation(false)]
pub fn parse_cmdline(buf: &[u8]) -> (r: CmdlineParams)
    ensures
        r@ == params_from(buf@, 0, no_params()),
{
    let mut params: CmdlineParams = CmdlineParams::default();
    let mut i: usize = 0;
    while i < buf.len()
        invariant
            i <= buf@.len(),
            params_from(buf@, 0, no_params()) == params_from(buf@, i as int, params@),
        decreases buf@.len() - i,
    {
        let ghost at = i as int;
        while i < buf.len() && (buf[i] == 0x20 || buf[i] == 0x09 || buf[i] == 0x0A)
            invariant
                at <= i <= buf@.len(),
                skip_blanks(buf@, at) == skip_blanks(buf@, i as int),
            decreases buf@.len() - i,
        {
            i += 1;
        }
        if i >= buf.len() {
            return params;
        }
        let start: usize = i;
        while i < buf.len() && buf[i] != 0x20 && buf[i] != 0x09 && buf[i] != 0x0A
            invariant
                start <= i <= buf@.len(),
                i == start ==> i < buf@.len() && !is_blank(buf@[i as int]),
                token_end(buf@, start as int) == token_end(buf@, i as int),
            decreases buf@.len() - i,
        {
            i += 1;
        }
        let token: &[u8] = &buf[start..i];
        assert(token@ =~= buf@.subrange(start as int, i as int));
        if let Some(eq) = find_equals(token) {
            let key: &[u8] = &token[0..eq];
            let val: &[u8] = &token[eq + 1..token.len()];
            assert(key@ =~= token@.take(eq as int));
            assert(val@ =~= token@.skip(eq + 1));
            params.take_value(key, val);
        }
    }
    params
}

} // verus!
