//! Text: trimming, splitting, searching and numbers.

use vstd::prelude::*;
use crate::digits;
use crate::digits::{decimal_text, hex_text};

verus! {

/// `String::push`: appends the character.
pub assume_specification[ String::push ](s: &mut String, c: char)
    ensures
        final(s)@ == old(s)@.push(c),
;

/// The lower-case form of a text beyond ASCII, by Unicode's rules.
pub uninterp spec fn unicode_lower(s: Seq<char>) -> Seq<char>;

/// The upper-case form of a text beyond ASCII, by Unicode's rules.
pub uninterp spec fn unicode_upper(s: Seq<char>) -> Seq<char>;

/// Whether Unicode counts a character beyond ASCII as a number.
pub uninterp spec fn unicode_numeric(c: char) -> bool;

pub open spec fn ascii_only(s: Seq<char>) -> bool {
    forall|i: int| 0 <= i < s.len() ==> (#[trigger] s[i] as int) < 0x80
}

pub open spec fn ascii_lower(c: char) -> char {
    if 'A' <= c <= 'Z' {
        (c as int + 0x20) as char
    } else {
        c
    }
}

pub open spec fn ascii_upper(c: char) -> char {
    if 'a' <= c <= 'z' {
        (c as int - 0x20) as char
    } else {
        c
    }
}

/// The lower-case form of a text.
pub open spec fn lower(s: Seq<char>) -> Seq<char> {
    if ascii_only(s) {
        Seq::new(s.len(), |i: int| ascii_lower(s[i]))
    } else {
        unicode_lower(s)
    }
}

/// The upper-case form of a text.
pub open spec fn upper(s: Seq<char>) -> Seq<char> {
    if ascii_only(s) {
        Seq::new(s.len(), |i: int| ascii_upper(s[i]))
    } else {
        unicode_upper(s)
    }
}

/// Whether a character is numeric.
pub open spec fn numeric(c: char) -> bool {
    if (c as int) < 0x80 {
        is_digit(c)
    } else {
        unicode_numeric(c)
    }
}

/// `str::to_lowercase`: the lower-case form, which of an ASCII text differs in
/// the capital letters only. Of any other text only that the form depends on
/// nothing but the text.
pub assume_specification[ str::to_lowercase ](s: &str) -> (r: String)
    ensures
        ascii_only(s@) ==> r@ == Seq::new(s@.len(), |i: int| ascii_lower(s@[i])),
        !ascii_only(s@) ==> r@ == unicode_lower(s@),
;

/// `str::to_uppercase`: the upper-case form, which of an ASCII text differs in
/// the small letters only. Of any other text only that the form depends on
/// nothing but the text.
pub assume_specification[ str::to_uppercase ](s: &str) -> (r: String)
    ensures
        ascii_only(s@) ==> r@ == Seq::new(s@.len(), |i: int| ascii_upper(s@[i])),
        !ascii_only(s@) ==> r@ == unicode_upper(s@),
;

/// `char::is_numeric`: of the ASCII characters, the digits. Of any other
/// character only that the answer depends on nothing but the character.
pub assume_specification[ char::is_numeric ](c: char) -> (r: bool)
    ensures
        (c as int) < 0x80 ==> r == is_digit(c),
        (c as int) >= 0x80 ==> r == unicode_numeric(c),
;

/// `std::str::from_utf8`: the text that the bytes encode, where they are valid
/// UTF-8 and nowhere else.
#[verifier::external_body]
pub(crate) fn from_utf8(v: &[u8]) -> (r: Option<String>)
    ensures
        match r {
            Some(s) => vstd::utf8::valid_utf8(v@) && s@ == vstd::utf8::decode_utf8(v@),
            None => !vstd::utf8::valid_utf8(v@),
        },
{
    match std::str::from_utf8(v) {
        Ok(s) => Some(s.to_string()),
        Err(_) => None,
    }
}

/// ASCII bytes as text.
pub open spec fn ascii(s: Seq<u8>) -> Seq<char> {
    Seq::new(s.len(), |i: int| s[i] as char)
}

/// ASCII bytes are valid UTF-8, and encode themselves as text.
pub proof fn ascii_is_utf8(s: Seq<u8>)
    requires
        forall|i: int| 0 <= i < s.len() ==> #[trigger] s[i] < 0x80,
    ensures
        vstd::utf8::valid_utf8(s),
        vstd::utf8::decode_utf8(s) == ascii(s),
        ascii_only(ascii(s)),
{
    let chars = ascii(s);
    assert(vstd::utf8::is_ascii_chars(chars));
    vstd::utf8::is_ascii_chars_encode_utf8(chars);
    assert(vstd::utf8::encode_utf8(chars) =~= s);
    vstd::utf8::encode_utf8_valid_utf8(chars);
    vstd::utf8::encode_utf8_decode_utf8(chars);
}

/// The decimal numeral of `v`.
pub open spec fn numeral(v: nat) -> Seq<char> {
    ascii(digits::decimal(v))
}

/// Whether a character is white space.
pub open spec fn is_space(c: char) -> bool {
    let n = c as int;
    ||| 0x09 <= n <= 0x0D
    ||| n == 0x20
    ||| n == 0x85
    ||| n == 0xA0
    ||| n == 0x1680
    ||| 0x2000 <= n <= 0x200A
    ||| n == 0x2028
    ||| n == 0x2029
    ||| n == 0x202F
    ||| n == 0x205F
    ||| n == 0x3000
}

pub open spec fn starts(s: Seq<char>, p: Seq<char>) -> bool {
    p.len() <= s.len() && s.take(p.len() as int) == p
}

/// The first place from `i` on that is not white space.
pub open spec fn skip_spaces(s: Seq<char>, i: int) -> int
    decreases s.len() - i,
{
    if 0 <= i < s.len() && is_space(s[i]) {
        skip_spaces(s, i + 1)
    } else {
        i
    }
}

/// The first place from `i` on that is white space.
pub open spec fn word_end(s: Seq<char>, i: int) -> int
    decreases s.len() - i,
{
    if 0 <= i < s.len() && !is_space(s[i]) {
        word_end(s, i + 1)
    } else {
        i
    }
}

/// The place behind the last character before `n` that is not white space, but
/// not before `from`.
pub open spec fn last_word_end(s: Seq<char>, from: int, n: int) -> int
    decreases n,
{
    if 0 <= from < n <= s.len() && is_space(s[n - 1]) {
        last_word_end(s, from, n - 1)
    } else {
        n
    }
}

/// The text without white space around it.
pub open spec fn trimmed(s: Seq<char>) -> Seq<char> {
    let a = skip_spaces(s, 0);
    s.subrange(a, last_word_end(s, a, s.len() as int))
}

/// The words from `i` on.
pub open spec fn words_from(s: Seq<char>, i: int) -> Seq<Seq<char>>
    decreases s.len() - i,
    when 0 <= i <= s.len()
    via words_shrink
{
    let a = skip_spaces(s, i);
    if a >= s.len() {
        Seq::empty()
    } else {
        let b = word_end(s, a);
        seq![s.subrange(a, b)] + words_from(s, b)
    }
}

#[via_fn]
proof fn words_shrink(s: Seq<char>, i: int) {
    let a = skip_spaces(s, i);
    skip_bounds(s, i);
    if a < s.len() {
        reveal_with_fuel(word_end, 2);
        word_bounds(s, a + 1);
    }
}

/// The words of a text.
pub open spec fn words(s: Seq<char>) -> Seq<Seq<char>> {
    words_from(s, 0)
}

pub proof fn skip_bounds(s: Seq<char>, i: int)
    requires
        0 <= i <= s.len(),
    ensures
        i <= skip_spaces(s, i) <= s.len(),
        skip_spaces(s, i) < s.len() ==> !is_space(s[skip_spaces(s, i)]),
    decreases s.len() - i,
{
    if i < s.len() && is_space(s[i]) {
        skip_bounds(s, i + 1);
    }
}

pub proof fn word_bounds(s: Seq<char>, i: int)
    requires
        0 <= i <= s.len(),
    ensures
        i <= word_end(s, i) <= s.len(),
    decreases s.len() - i,
{
    if i < s.len() && !is_space(s[i]) {
        word_bounds(s, i + 1);
    }
}

/// The first line break from `i` on.
pub open spec fn line_end(s: Seq<char>, i: int) -> int
    decreases s.len() - i,
{
    if 0 <= i < s.len() && s[i] != '\n' {
        line_end(s, i + 1)
    } else {
        i
    }
}

pub proof fn line_bounds(s: Seq<char>, i: int)
    requires
        0 <= i <= s.len(),
    ensures
        i <= line_end(s, i) <= s.len(),
    decreases s.len() - i,
{
    if i < s.len() && s[i] != '\n' {
        line_bounds(s, i + 1);
    }
}

/// A line without the carriage return that a line break may start with.
pub open spec fn without_return(s: Seq<char>) -> Seq<char> {
    if s.len() > 0 && s.last() == '\r' {
        s.drop_last()
    } else {
        s
    }
}

/// The lines from `i` on.
pub open spec fn lines_from(s: Seq<char>, i: int) -> Seq<Seq<char>>
    decreases s.len() - i,
    when 0 <= i <= s.len()
    via lines_shrink
{
    if i >= s.len() {
        Seq::empty()
    } else {
        let e = line_end(s, i);
        if e >= s.len() {
            seq![s.subrange(i, e)]
        } else {
            seq![without_return(s.subrange(i, e))] + lines_from(s, e + 1)
        }
    }
}

#[via_fn]
proof fn lines_shrink(s: Seq<char>, i: int) {
    line_bounds(s, i);
}

/// The lines of a text.
pub open spec fn lines(s: Seq<char>) -> Seq<Seq<char>> {
    lines_from(s, 0)
}

/// The first place from `i` on where `p` stands.
pub open spec fn find_from(s: Seq<char>, p: Seq<char>, i: int) -> Option<int>
    decreases s.len() + 1 - i,
{
    if i < 0 || i + p.len() > s.len() {
        None
    } else if s.subrange(i, i + p.len()) == p {
        Some(i)
    } else {
        find_from(s, p, i + 1)
    }
}

pub open spec fn contains(s: Seq<char>, p: Seq<char>) -> bool {
    find_from(s, p, 0) is Some
}

pub open spec fn is_digit(c: char) -> bool {
    '0' <= c <= '9'
}

pub open spec fn all_digits(s: Seq<char>) -> bool {
    forall|i: int| 0 <= i < s.len() ==> is_digit(#[trigger] s[i])
}

/// The number that a decimal numeral denotes.
pub open spec fn value(s: Seq<char>) -> int
    decreases s.len(),
{
    if s.len() == 0 {
        0
    } else {
        10 * value(s.drop_last()) + (s.last() as int - 0x30)
    }
}

/// The number that a text denotes: digits, perhaps behind a plus sign, and no
/// more than `max`.
pub open spec fn number(s: Seq<char>, max: int) -> Option<int> {
    let d = if s.len() > 0 && s[0] == '+' {
        s.skip(1)
    } else {
        s
    };
    if d.len() > 0 && all_digits(d) && value(d) <= max {
        Some(value(d))
    } else {
        None
    }
}

pub open spec fn str_views(v: Seq<&str>) -> Seq<Seq<char>> {
    Seq::new(v.len(), |i: int| v[i]@)
}

pub open spec fn string_views(v: Seq<String>) -> Seq<Seq<char>> {
    Seq::new(v.len(), |i: int| v[i]@)
}

// ---------------------------------------------------------------------------

/// The characters of a text.
pub fn chars_of(s: &str) -> (r: Vec<char>)
    ensures
        r@ == s@,
{
    let mut out: Vec<char> = Vec::new();
    for c in it: s.chars()
        invariant
            it.seq() == s@,
            out@ == s@.take(it.index()),
    {
        out.push(c);
        assert(s@.take(it.index() + 1) =~= s@.take(it.index()).push(c));
    }
    assert(s@.take(s@.len() as int) =~= s@);
    out
}

/// The text that characters make.
pub fn string_of(v: &[char]) -> (r: String)
    ensures
        r@ == v@,
{
    let mut out: String = String::new();
    let mut i: usize = 0;
    while i < v.len()
        invariant
            i <= v@.len(),
            out@ == v@.take(i as int),
        decreases v@.len() - i,
    {
        out.push(v[i]);
        i += 1;
        assert(v@.take(i as int) =~= v@.take(i - 1).push(v@[i - 1]));
    }
    assert(v@.take(v@.len() as int) =~= v@);
    out
}

pub fn push_str(out: &mut String, s: &str)
    ensures
        final(out)@ == old(out)@ + s@,
{
    out.append(s);
}

/// The texts one after another.
pub fn join2(a: &str, b: &str) -> (r: String)
    ensures
        r@ == a@ + b@,
{
    let mut out: String = a.to_owned();
    out.append(b);
    out
}

pub fn join3(a: &str, b: &str, c: &str) -> (r: String)
    ensures
        r@ == a@ + b@ + c@,
{
    let mut out: String = join2(a, b);
    out.append(c);
    out
}

/// Appends ASCII bytes.
fn push_ascii(out: &mut String, s: &[u8])
    ensures
        final(out)@ == old(out)@ + ascii(s@),
{
    let ghost before = out@;
    let mut i: usize = 0;
    assert(before + ascii(s@.take(0)) =~= before);
    while i < s.len()
        invariant
            i <= s@.len(),
            out@ == before + ascii(s@.take(i as int)),
        decreases s@.len() - i,
    {
        out.push(s[i] as char);
        i += 1;
        assert(before + ascii(s@.take(i as int)) =~= (before + ascii(s@.take(i - 1))).push(
            s@[i - 1] as char,
        ));
    }
    assert(s@.take(s@.len() as int) =~= s@);
}

/// Appends the decimal numeral of `v`.
pub fn push_number(out: &mut String, v: u64)
    ensures
        final(out)@ == old(out)@ + numeral(v as nat),
{
    let t: Vec<u8> = decimal_text(v);
    push_ascii(out, &t);
}

/// Appends the last `n` hexadecimal digits of `v`, in capitals.
pub fn push_hex(out: &mut String, v: u64, n: usize)
    ensures
        final(out)@ == old(out)@ + ascii(digits::hex(v as nat, n as nat, 0x41)),
{
    let t: Vec<u8> = hex_text(v, n, 0x41);
    push_ascii(out, &t);
}

pub fn number_text(v: u64) -> (r: String)
    ensures
        r@ == numeral(v as nat),
{
    let mut out: String = String::new();
    push_number(&mut out, v);
    assert(Seq::<char>::empty() + numeral(v as nat) =~= numeral(v as nat));
    out
}

pub fn space(c: char) -> (r: bool)
    ensures
        r == is_space(c),
{
    let n: u32 = c as u32;
    (0x09 <= n && n <= 0x0D) || n == 0x20 || n == 0x85 || n == 0xA0 || n == 0x1680 || (0x2000 <= n
        && n <= 0x200A) || n == 0x2028 || n == 0x2029 || n == 0x202F || n == 0x205F || n == 0x3000
}

pub fn chars_eq(a: &[char], b: &[char]) -> (r: bool)
    ensures
        r == (a@ == b@),
{
    if a.len() != b.len() {
        return false;
    }
    let mut i: usize = 0;
    while i < a.len()
        invariant
            a@.len() == b@.len(),
            i <= a@.len(),
            forall|j: int| 0 <= j < i ==> a@[j] == b@[j],
        decreases a@.len() - i,
    {
        if a[i] != b[i] {
            return false;
        }
        i += 1;
    }
    assert(a@ =~= b@);
    true
}

pub fn str_eq(a: &str, b: &str) -> (r: bool)
    ensures
        r == (a@ == b@),
{
    let x: Vec<char> = chars_of(a);
    let y: Vec<char> = chars_of(b);
    chars_eq(&x, &y)
}

pub fn starts_with(s: &str, p: &str) -> (r: bool)
    ensures
        r == starts(s@, p@),
{
    let x: Vec<char> = chars_of(s);
    let y: Vec<char> = chars_of(p);
    if y.len() > x.len() {
        return false;
    }
    let v: &[char] = x.as_slice();
    let head: &[char] = &v[0..y.len()];
    assert(head@ =~= s@.take(p@.len() as int));
    chars_eq(head, &y)
}

fn skip(v: &[char], from: usize) -> (r: usize)
    requires
        from <= v@.len(),
    ensures
        r == skip_spaces(v@, from as int),
        from <= r <= v@.len(),
{
    let mut i: usize = from;
    while i < v.len() && space(v[i])
        invariant
            from <= i <= v@.len(),
            skip_spaces(v@, from as int) == skip_spaces(v@, i as int),
        decreases v@.len() - i,
    {
        i += 1;
    }
    i
}

/// The text without white space around it.
pub fn trim(s: &str) -> (r: &str)
    ensures
        r@ == trimmed(s@),
{
    let v: Vec<char> = chars_of(s);
    let a: usize = skip(&v, 0);
    let mut b: usize = v.len();
    while b > a && space(v[b - 1])
        invariant
            v@ == s@,
            a <= b <= v@.len(),
            last_word_end(s@, a as int, v@.len() as int) == last_word_end(s@, a as int, b as int),
        decreases b,
    {
        b -= 1;
    }
    s.substring_char(a, b)
}

/// The words of a text.
#[verifier::loop_isolation(false)]
pub fn split_words<'a>(s: &'a str) -> (r: Vec<&'a str>)
    ensures
        str_views(r@) == words(s@),
{
    let v: Vec<char> = chars_of(s);
    let mut out: Vec<&'a str> = Vec::new();
    let mut i: usize = 0;
    assert(str_views(out@) + words_from(s@, 0) =~= words_from(s@, 0));
    while i < v.len()
        invariant
            i <= v@.len(),
            str_views(out@) + words_from(s@, i as int) == words(s@),
        decreases v@.len() - i,
    {
        let a: usize = skip(&v, i);
        proof {
            skip_bounds(s@, i as int);
        }
        if a >= v.len() {
            assert(str_views(out@) + Seq::empty() =~= str_views(out@));
            return out;
        }
        let mut b: usize = a;
        while b < v.len() && !space(v[b])
            invariant
                a <= b <= v@.len(),
                word_end(s@, a as int) == word_end(s@, b as int),
            decreases v@.len() - b,
        {
            b += 1;
        }
        let ghost before = out@;
        out.push(s.substring_char(a, b));
        assert(str_views(out@) =~= str_views(before).push(s@.subrange(a as int, b as int)));
        assert(str_views(before) + (seq![s@.subrange(a as int, b as int)] + words_from(
            s@,
            b as int,
        )) =~= str_views(out@) + words_from(s@, b as int));
        i = b;
    }
    assert(str_views(out@) + Seq::empty() =~= str_views(out@));
    out
}

/// The lines of a text.
#[verifier::loop_isolation(false)]
pub fn split_lines<'a>(s: &'a str) -> (r: Vec<&'a str>)
    ensures
        str_views(r@) == lines(s@),
{
    let v: Vec<char> = chars_of(s);
    let mut out: Vec<&'a str> = Vec::new();
    let mut i: usize = 0;
    assert(str_views(out@) + lines_from(s@, 0) =~= lines_from(s@, 0));
    while i < v.len()
        invariant
            i <= v@.len(),
            str_views(out@) + lines_from(s@, i as int) == lines(s@),
        decreases v@.len() - i,
    {
        let mut e: usize = i;
        while e < v.len() && v[e] != '\n'
            invariant
                i <= e <= v@.len(),
                line_end(s@, i as int) == line_end(s@, e as int),
            decreases v@.len() - e,
        {
            e += 1;
        }
        let ghost before = out@;
        if e >= v.len() {
            out.push(s.substring_char(i, e));
            assert(str_views(out@) =~= str_views(before) + seq![s@.subrange(i as int, e as int)]);
            return out;
        }
        let end: usize = if e > i && v[e - 1] == '\r' {
            e - 1
        } else {
            e
        };
        out.push(s.substring_char(i, end));
        let ghost line = without_return(s@.subrange(i as int, e as int));
        assert(line =~= s@.subrange(i as int, end as int));
        assert(str_views(out@) =~= str_views(before).push(line));
        assert(str_views(before) + (seq![line] + lines_from(s@, e + 1)) =~= str_views(out@)
            + lines_from(s@, e + 1));
        i = e + 1;
    }
    assert(str_views(out@) + Seq::empty() =~= str_views(out@));
    out
}

/// The first place where `p` stands in `s`.
#[verifier::loop_isolation(false)]
pub fn find(s: &[char], p: &[char]) -> (r: Option<usize>)
    ensures
        match r {
            Some(i) => find_from(s@, p@, 0) == Some(i as int) && i + p@.len() <= s@.len(),
            None => find_from(s@, p@, 0) is None,
        },
{
    assert(s.len() <= usize::MAX);
    assert(p.len() <= usize::MAX);
    let mut i: usize = 0;
    while s.len() - i >= p.len()
        invariant
            i <= s@.len(),
            find_from(s@, p@, 0) == find_from(s@, p@, i as int),
        decreases s@.len() + 1 - i,
    {
        let part: &[char] = &s[i..i + p.len()];
        assert(part@ =~= s@.subrange(i as int, i + p@.len()));
        if chars_eq(part, p) {
            return Some(i);
        }
        assert(i < s@.len()) by {
            if i == s@.len() {
                assert(part@ =~= p@);
            }
        }
        i += 1;
    }
    None
}

pub fn has(s: &str, p: &str) -> (r: bool)
    ensures
        r == contains(s@, p@),
{
    let x: Vec<char> = chars_of(s);
    let y: Vec<char> = chars_of(p);
    find(&x, &y).is_some()
}

/// The number that a text denotes, if it is no more than `max`.
#[verifier::loop_isolation(false)]
pub fn parse_number(s: &str, max: u64) -> (r: Option<u64>)
    ensures
        match r {
            Some(v) => number(s@, max as int) == Some(v as int),
            None => number(s@, max as int) is None,
        },
{
    let v: Vec<char> = chars_of(s);
    let all: &[char] = v.as_slice();
    let from: usize = if v.len() > 0 && v[0] == '+' {
        1
    } else {
        0
    };
    let d: &[char] = &all[from..v.len()];
    let ghost digits = if s@.len() > 0 && s@[0] == '+' {
        s@.skip(1)
    } else {
        s@
    };
    assert(d@ =~= digits);
    if d.len() == 0 {
        return None;
    }
    let mut acc: u64 = 0;
    let mut i: usize = 0;
    while i < d.len()
        invariant
            i <= d@.len(),
            all_digits(d@.take(i as int)),
            acc == value(d@.take(i as int)),
            acc <= max,
        decreases d@.len() - i,
    {
        let c: char = d[i];
        if !('0' <= c && c <= '9') {
            return None;
        }
        let n: u64 = (c as u32 - 0x30) as u64;
        assert(d@.take(i + 1).drop_last() =~= d@.take(i as int));
        let next: Option<u64> = match acc.checked_mul(10) {
            Some(tens) => tens.checked_add(n),
            None => None,
        };
        match next {
            Some(x) if x <= max => {
                acc = x;
            },
            _ => {
                proof {
                    if all_digits(d@) {
                        value_grows(d@, i + 1);
                    }
                }
                return None;
            },
        }
        i += 1;
    }
    assert(d@.take(i as int) =~= d@);
    Some(acc)
}

proof fn value_grows(s: Seq<char>, n: int)
    requires
        0 <= n <= s.len(),
        all_digits(s),
    ensures
        0 <= value(s.take(n)) <= value(s),
    decreases s.len(),
{
    if s.len() > 0 {
        if n == s.len() {
            assert(s.take(n) =~= s);
            value_grows(s.drop_last(), n - 1);
        } else {
            value_grows(s.drop_last(), n);
            assert(s.drop_last().take(n) =~= s.take(n));
        }
    } else {
        assert(s.take(n) =~= s);
    }
}

proof fn numeral_value(v: nat)
    ensures
        value(numeral(v)) == v,
        all_digits(numeral(v)),
        numeral(v).len() > 0,
        numeral(v)[0] != '+',
    decreases v,
{
    reveal_with_fuel(value, 2);
    digits::decimal_round_trip(v);
    if v < 10 {
        assert(numeral(v).drop_last() =~= Seq::empty());
    } else {
        numeral_value(v / 10);
        assert(numeral(v).drop_last() =~= numeral(v / 10));
    }
}

/// A decimal numeral starts with a digit.
pub proof fn numeral_starts_with_digit(v: nat)
    ensures
        numeral(v).len() > 0,
        is_digit(numeral(v)[0]),
{
    numeral_value(v);
}

/// A decimal numeral denotes the number it was made from.
pub proof fn numeral_round_trip(v: nat, max: int)
    requires
        v <= max,
    ensures
        number(numeral(v), max) == Some(v as int),
{
    numeral_value(v);
}

} // verus!
