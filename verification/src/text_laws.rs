//! How text is taken apart.

use vstd::prelude::*;
use crate::text;

verus! {

/// Whether there is no white space in a text.
pub open spec fn no_space(s: Seq<char>) -> bool {
    forall|i: int| 0 <= i < s.len() ==> !text::is_space(#[trigger] s[i])
}

/// Whether a text is white space only.
pub open spec fn all_space(s: Seq<char>) -> bool {
    forall|i: int| 0 <= i < s.len() ==> text::is_space(#[trigger] s[i])
}

/// White space is what separates words: blanks, tabs and line endings among it, and
/// no letter, digit or sign of ASCII.
pub proof fn blanks_are_white_space(c: char)
    ensures
        text::is_space(' ') && text::is_space('\t') && text::is_space('\n') && text::is_space('\r'),
        0x21 <= c as int <= 0x7E ==> !text::is_space(c),
        0x2000 <= c as int <= 0x200A ==> text::is_space(c),
        c as int >= 0x7F ==> (text::is_space(c) ==> c as int == 0x85 || c as int == 0xA0 || c as int
            == 0x1680 || 0x2000 <= c as int <= 0x200A || c as int == 0x2028 || c as int == 0x2029 || c
            as int == 0x202F || c as int == 0x205F || c as int == 0x3000),
        c as int == 0x85 || c as int == 0xA0 || c as int == 0x3000 ==> text::is_space(c),
{
}

// ---------------------------------------------------------------------------
// Words
// ---------------------------------------------------------------------------

proof fn skip_shift(s: Seq<char>, k: int, i: int)
    requires
        0 <= k <= i <= s.len(),
    ensures
        text::skip_spaces(s, i) == text::skip_spaces(s.skip(k), i - k) + k,
    decreases s.len() - i,
{
    if i < s.len() {
        assert(s.skip(k)[i - k] == s[i]);
        skip_shift(s, k, i + 1);
    }
}

proof fn word_shift(s: Seq<char>, k: int, i: int)
    requires
        0 <= k <= i <= s.len(),
    ensures
        text::word_end(s, i) == text::word_end(s.skip(k), i - k) + k,
    decreases s.len() - i,
{
    if i < s.len() {
        assert(s.skip(k)[i - k] == s[i]);
        word_shift(s, k, i + 1);
    }
}

proof fn words_shift(s: Seq<char>, k: int, i: int)
    requires
        0 <= k <= i <= s.len(),
    ensures
        text::words_from(s, i) == text::words_from(s.skip(k), i - k),
    decreases s.len() - i,
{
    let t = s.skip(k);
    skip_shift(s, k, i);
    text::skip_bounds(s, i);
    let a = text::skip_spaces(s, i);
    if a < s.len() {
        word_shift(s, k, a);
        text::word_bounds(s, a);
        let b = text::word_end(s, a);
        assert(text::word_end(s, a) > a) by {
            text::word_bounds(s, a + 1);
            assert(!text::is_space(s[a]));
        }
        assert(s.subrange(a, b) =~= t.subrange(a - k, b - k));
        words_shift(s, k, b);
    }
}

proof fn skips_to(s: Seq<char>, i: int, n: int)
    requires
        0 <= i <= n <= s.len(),
        forall|k: int| i <= k < n ==> text::is_space(#[trigger] s[k]),
        n < s.len() ==> !text::is_space(s[n]),
    ensures
        text::skip_spaces(s, i) == n,
    decreases n - i,
{
    if i < n {
        assert(text::is_space(s[i]));
        skips_to(s, i + 1, n);
    }
}

proof fn word_goes_to(s: Seq<char>, i: int, n: int)
    requires
        0 <= i <= n <= s.len(),
        forall|k: int| i <= k < n ==> !text::is_space(#[trigger] s[k]),
        n < s.len() ==> text::is_space(s[n]),
    ensures
        text::word_end(s, i) == n,
    decreases n - i,
{
    if i < n {
        assert(!text::is_space(s[i]));
        word_goes_to(s, i + 1, n);
    }
}

/// A text of white space has no words. What stands between white space is a word: the
/// first word of a text is what stands in front of the first white space behind it,
/// and the other words are those of the rest.
pub proof fn words_stand_between_white_space(front: Seq<char>, word: Seq<char>, rest: Seq<char>)
    requires
        all_space(front),
        no_space(word),
        word.len() > 0,
        rest.len() > 0 ==> text::is_space(rest[0]),
    ensures
        text::words(front).len() == 0,
        text::words(front + word + rest) == seq![word] + text::words(rest),
        text::words(word) == seq![word],
{
    skips_to(front, 0, front.len() as int);
    let s = front + word + rest;
    let a = front.len() as int;
    let b = a + word.len();
    assert(s[a] == word[0]);
    skips_to(s, 0, a);
    if rest.len() > 0 {
        assert(s[b] == rest[0]);
    }
    assert forall|k: int| a <= k < b implies !text::is_space(#[trigger] s[k]) by {
        assert(s[k] == word[k - a]);
    }
    word_goes_to(s, a, b);
    assert(s.subrange(a, b) =~= word);
    words_shift(s, b, b);
    assert(s.skip(b) =~= rest);
    assert(!text::is_space(word[0]));
    skips_to(word, 0, 0);
    word_goes_to(word, 0, word.len() as int);
    assert(word.subrange(0, word.len() as int) =~= word);
    let e = Seq::<char>::empty();
    assert(text::words_from(word, word.len() as int) =~= Seq::<Seq<char>>::empty()) by {
        skips_to(word, word.len() as int, word.len() as int);
    }
    assert(seq![word] + Seq::<Seq<char>>::empty() =~= seq![word]);
}

// ---------------------------------------------------------------------------
// Lines
// ---------------------------------------------------------------------------

proof fn line_goes_to(s: Seq<char>, i: int, n: int)
    requires
        0 <= i <= n <= s.len(),
        forall|k: int| i <= k < n ==> #[trigger] s[k] != '\n',
        n < s.len() ==> s[n] == '\n',
    ensures
        text::line_end(s, i) == n,
    decreases n - i,
{
    if i < n {
        assert(s[i] != '\n');
        line_goes_to(s, i + 1, n);
    }
}

proof fn line_shift(s: Seq<char>, k: int, i: int)
    requires
        0 <= k <= i <= s.len(),
    ensures
        text::line_end(s, i) == text::line_end(s.skip(k), i - k) + k,
    decreases s.len() - i,
{
    if i < s.len() {
        assert(s.skip(k)[i - k] == s[i]);
        line_shift(s, k, i + 1);
    }
}

proof fn lines_shift(s: Seq<char>, k: int, i: int)
    requires
        0 <= k <= i <= s.len(),
    ensures
        text::lines_from(s, i) == text::lines_from(s.skip(k), i - k),
    decreases s.len() - i,
{
    if i < s.len() {
        let t = s.skip(k);
        line_shift(s, k, i);
        text::line_bounds(s, i);
        let e = text::line_end(s, i);
        assert(s.subrange(i, e) =~= t.subrange(i - k, e - k));
        if e < s.len() {
            lines_shift(s, k, e + 1);
        }
    }
}

/// A line ends at a line feed, which belongs to no line, and neither does a carriage
/// return right in front of it. An empty text has no lines.
pub proof fn lines_end_at_line_feeds(line: Seq<char>, rest: Seq<char>)
    requires
        forall|i: int| 0 <= i < line.len() ==> #[trigger] line[i] != '\n',
    ensures
        text::lines(Seq::empty()).len() == 0,
        line.len() > 0 ==> text::lines(line) == seq![line],
        line.len() == 0 || line.last() != '\r' ==> text::lines(line + seq!['\n'] + rest) == seq![line]
            + text::lines(rest),
        text::lines(line + seq!['\r', '\n'] + rest) == seq![line] + text::lines(rest),
{
    let n = line.len() as int;
    line_goes_to(line, 0, n);
    assert(line.subrange(0, n) =~= line);
    let s = line + seq!['\n'] + rest;
    assert(s[n] == '\n');
    line_goes_to(s, 0, n);
    assert(s.subrange(0, n) =~= line);
    lines_shift(s, n + 1, n + 1);
    assert(s.skip(n + 1) =~= rest);
    let t = line + seq!['\r', '\n'] + rest;
    assert(t[n] == '\r' && t[n + 1] == '\n');
    line_goes_to(t, 0, n + 1);
    assert(t.subrange(0, n + 1).drop_last() =~= line);
    lines_shift(t, n + 2, n + 2);
    assert(t.skip(n + 2) =~= rest);
}

// ---------------------------------------------------------------------------
// Trimming and searching
// ---------------------------------------------------------------------------

proof fn last_goes_to(s: Seq<char>, from: int, n: int, m: int)
    requires
        0 <= from <= m <= n <= s.len(),
        forall|k: int| m <= k < n ==> text::is_space(#[trigger] s[k]),
        from < m ==> !text::is_space(s[m - 1]),
    ensures
        text::last_word_end(s, from, n) == m,
    decreases n,
{
    if m < n {
        assert(text::is_space(s[n - 1]));
        last_goes_to(s, from, n - 1, m);
    }
}

/// Trimming takes the white space off both ends of a text, and nothing else.
pub proof fn trimming_takes_white_space_off(front: Seq<char>, s: Seq<char>, back: Seq<char>)
    requires
        all_space(front),
        all_space(back),
        s.len() > 0 ==> !text::is_space(s[0]) && !text::is_space(s.last()),
    ensures
        text::trimmed(front + s + back) == s,
{
    let t = front + s + back;
    let a = front.len() as int;
    let b = a + s.len();
    assert forall|k: int| 0 <= k < a implies text::is_space(#[trigger] t[k]) by {
        assert(t[k] == front[k]);
    }
    assert forall|k: int| b <= k < t.len() implies text::is_space(#[trigger] t[k]) by {
        assert(t[k] == back[k - b]);
    }
    if s.len() > 0 {
        assert(t[a] == s[0]);
        assert(t[b - 1] == s[s.len() - 1]);
        skips_to(t, 0, a);
        last_goes_to(t, a, t.len() as int, b);
    } else {
        assert forall|k: int| 0 <= k < t.len() implies text::is_space(#[trigger] t[k]) by {
            if k >= a {
                assert(t[k] == back[k - b]);
            }
        }
        skips_to(t, 0, t.len() as int);
        last_goes_to(t, t.len() as int, t.len() as int, t.len() as int);
    }
    assert(text::trimmed(t) =~= s);
}

proof fn found_from(s: Seq<char>, p: Seq<char>, i: int, at: int)
    requires
        0 <= i <= at,
        at + p.len() <= s.len(),
        s.subrange(at, at + p.len()) == p,
    ensures
        text::find_from(s, p, i) matches Some(k) && i <= k <= at,
    decreases at - i,
{
    if i < at {
        found_from(s, p, i + 1, at);
    }
}

proof fn found_is_there(s: Seq<char>, p: Seq<char>, i: int)
    requires
        0 <= i,
    ensures
        text::find_from(s, p, i) matches Some(k) ==> i <= k && k + p.len() <= s.len() && s.subrange(
            k,
            k + p.len(),
        ) == p,
    decreases s.len() + 1 - i,
{
    if i + p.len() <= s.len() && s.subrange(i, i + p.len()) != p {
        found_is_there(s, p, i + 1);
    }
}

/// A text holds another one exactly if that stands somewhere in it. Where it stands
/// more than once, its first place is found.
pub proof fn searching_finds_the_first_place(s: Seq<char>, p: Seq<char>, a: Seq<char>, b: Seq<char>)
    ensures
        text::contains(a + p + b, p),
        text::find_from(a + p + b, p, 0) matches Some(k) && 0 <= k <= a.len(),
        text::find_from(s, p, 0) matches Some(k) ==> 0 <= k && k + p.len() <= s.len() && s.subrange(
            k,
            k + p.len(),
        ) == p,
{
    let t = a + p + b;
    assert(t.subrange(a.len() as int, (a.len() + p.len()) as int) =~= p);
    found_from(t, p, 0, a.len() as int);
    found_is_there(s, p, 0);
}

/// A number is written with digits only, with a plus sign in front or not. Behind a
/// digit more it is ten times as large and the digit more.
pub proof fn numbers_are_written_with_digits(s: Seq<char>, c: char, max: int)
    ensures
        text::number(s, max) is Some ==> s.len() > 0 && (text::is_digit(s[0]) || s[0] == '+'),
        s.len() > 0 && text::all_digits(s) ==> text::number(seq!['+'] + s, max) == text::number(
            s,
            max,
        ),
        !text::is_digit(c) ==> text::number(s.push(c), max) is None,
        text::is_digit(c) ==> (text::number(s, max) matches Some(v) ==> text::number(
            s.push(c),
            10 * v + 9,
        ) == Some(10 * v + (c as int - '0' as int))),
{
    let plus = seq!['+'] + s;
    assert(plus.skip(1) =~= s);
    if s.len() > 0 && text::all_digits(s) {
        assert(text::is_digit(s[0]));
    }
    let t = s.push(c);
    let signed = s.len() > 0 && s[0] == '+';
    let d = if signed {
        s.skip(1)
    } else {
        s
    };
    let e = if t.len() > 0 && t[0] == '+' {
        t.skip(1)
    } else {
        t
    };
    if text::number(s, max) is Some {
        if !signed {
            assert(text::is_digit(d[0]));
        }
        assert(e =~= d.push(c));
        assert(e.drop_last() =~= d);
        if text::is_digit(c) {
            assert forall|i: int| 0 <= i < e.len() implies text::is_digit(#[trigger] e[i]) by {
                if i < d.len() {
                    assert(e[i] == d[i]);
                }
            }
        }
    }
    if !text::is_digit(c) {
        if e.len() > 0 {
            assert(e.last() == c);
            assert(e[e.len() - 1] == c);
        }
    }
}

} // verus!
