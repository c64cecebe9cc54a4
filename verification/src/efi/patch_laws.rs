//! What holds of patched configurations as a whole.

use vstd::prelude::*;
use crate::bytes;
use crate::digits;
use crate::efi::locator;
use crate::efi::locator::IsoLocation;
use crate::efi::strategy;
use crate::efi::strategy::{Patch, EOL_MAX, LF, SPACE, TAB};

verus! {

// ---------------------------------------------------------------------------
// Size
// ---------------------------------------------------------------------------

/// Stripping a line makes it no longer.
pub proof fn stripped_len(s: Seq<u8>, i: int)
    requires
        0 <= i <= s.len(),
    ensures
        strategy::stripped(s, i).len() <= s.len() - i,
    decreases s.len() - i,
{
    if i < s.len() {
        let n = strategy::locator_at(s, i);
        let next = strategy::skip_blank(s, strategy::word_end(s, i + n));
        if n > 0 && i < next <= s.len() {
            stripped_len(s, next);
        } else {
            stripped_len(s, i + 1);
        }
    }
}

proof fn second_arg_end_bounds(s: Seq<u8>)
    ensures
        0 <= strategy::second_arg_end(s) <= s.len(),
{
    strategy::skip_blank_bounds(s, 0);
    let a = strategy::skip_blank(s, 0);
    strategy::word_end_bounds(s, a);
    let b = strategy::word_end(s, a);
    strategy::skip_blank_bounds(s, b);
    strategy::word_end_bounds(s, strategy::skip_blank(s, b));
}

/// How many bytes an initrd line grows by.
pub open spec fn initrd_growth(p: Patch) -> int {
    1 + p.target_path().len() as int
}

/// How many bytes a linux line grows by, at most.
pub open spec fn linux_growth(p: Patch) -> int {
    (p.extra.len() + p.eol.len()) as int
}

proof fn line_growth(p: Patch, line: Seq<u8>)
    ensures
        p.line(line).len() <= line.len() + (if strategy::is_linux(line) {
            linux_growth(p)
        } else if strategy::is_initrd(line) {
            initrd_growth(p)
        } else {
            0
        }),
{
    stripped_len(line, 0);
    second_arg_end_bounds(line);
    second_arg_end_bounds(strategy::stripped(line, 0));
    linux_is_not_initrd(line);
}

/// The bytes behind the blanks of a linux line.
proof fn keyword(line: Seq<u8>)
    requires
        strategy::is_linux(line) || strategy::is_initrd(line),
    ensures
        ({
            let k = strategy::skip_blank(line, 0);
            &&& strategy::is_linux(line) ==> line[k] == 0x6C && line[k + 1] == 0x69 && line[k + 2]
                == 0x6E && line[k + 3] == 0x75 && line[k + 4] == 0x78 && k + 6 <= line.len() && (
            strategy::is_blank(line[k + 5]) || k + 9 <= line.len() && line[k + 5] == 0x65 && line[k
                + 6] == 0x66 && line[k + 7] == 0x69 && strategy::is_blank(line[k + 8]))
            &&& strategy::is_initrd(line) ==> line[k] == 0x69 && line[k + 1] == 0x6E && line[k + 2]
                == 0x69 && line[k + 3] == 0x74 && line[k + 4] == 0x72 && line[k + 5] == 0x64 && k
                + 7 <= line.len() && (strategy::is_blank(line[k + 6]) || k + 10 <= line.len()
                && line[k + 6] == 0x65 && line[k + 7] == 0x66 && line[k + 8] == 0x69
                && strategy::is_blank(line[k + 9]))
        }),
{
    reveal_strlit("linux ");
    reveal_strlit("linux\t");
    reveal_strlit("linuxefi ");
    reveal_strlit("linuxefi\t");
    reveal_strlit("initrd ");
    reveal_strlit("initrd\t");
    reveal_strlit("initrdefi ");
    reveal_strlit("initrdefi\t");
    vstd::string::is_ascii_spec_bytes("linux ");
    vstd::string::is_ascii_spec_bytes("linux\t");
    vstd::string::is_ascii_spec_bytes("linuxefi ");
    vstd::string::is_ascii_spec_bytes("linuxefi\t");
    vstd::string::is_ascii_spec_bytes("initrd ");
    vstd::string::is_ascii_spec_bytes("initrd\t");
    vstd::string::is_ascii_spec_bytes("initrdefi ");
    vstd::string::is_ascii_spec_bytes("initrdefi\t");
    let k = strategy::skip_blank(line, 0);
    if strategy::at(line, k, bytes::text("linux ")) {
        let t = bytes::text("linux ");
        at_elements(line, k, t);
        assert(t[0] == 0x6C && t[1] == 0x69 && t[2] == 0x6E && t[3] == 0x75 && t[4] == 0x78 && t[5] == 0x20);
    }
    if strategy::at(line, k, bytes::text("linux\t")) {
        let t = bytes::text("linux\t");
        at_elements(line, k, t);
        assert(t[0] == 0x6C && t[1] == 0x69 && t[2] == 0x6E && t[3] == 0x75 && t[4] == 0x78 && t[5] == 0x09);
    }
    if strategy::at(line, k, bytes::text("linuxefi ")) {
        let t = bytes::text("linuxefi ");
        at_elements(line, k, t);
        assert(t[0] == 0x6C && t[1] == 0x69 && t[2] == 0x6E && t[3] == 0x75 && t[4] == 0x78 && t[5] == 0x65 && t[6] == 0x66 && t[7] == 0x69 && t[8] == 0x20);
    }
    if strategy::at(line, k, bytes::text("linuxefi\t")) {
        let t = bytes::text("linuxefi\t");
        at_elements(line, k, t);
        assert(t[0] == 0x6C && t[1] == 0x69 && t[2] == 0x6E && t[3] == 0x75 && t[4] == 0x78 && t[5] == 0x65 && t[6] == 0x66 && t[7] == 0x69 && t[8] == 0x09);
    }
    if strategy::at(line, k, bytes::text("initrd ")) {
        let t = bytes::text("initrd ");
        at_elements(line, k, t);
        assert(t[0] == 0x69 && t[1] == 0x6E && t[2] == 0x69 && t[3] == 0x74 && t[4] == 0x72 && t[5] == 0x64 && t[6] == 0x20);
    }
    if strategy::at(line, k, bytes::text("initrd\t")) {
        let t = bytes::text("initrd\t");
        at_elements(line, k, t);
        assert(t[0] == 0x69 && t[1] == 0x6E && t[2] == 0x69 && t[3] == 0x74 && t[4] == 0x72 && t[5] == 0x64 && t[6] == 0x09);
    }
    if strategy::at(line, k, bytes::text("initrdefi ")) {
        let t = bytes::text("initrdefi ");
        at_elements(line, k, t);
        assert(t[0] == 0x69 && t[1] == 0x6E && t[2] == 0x69 && t[3] == 0x74 && t[4] == 0x72 && t[5] == 0x64 && t[6] == 0x65 && t[7] == 0x66 && t[8] == 0x69 && t[9] == 0x20);
    }
    if strategy::at(line, k, bytes::text("initrdefi\t")) {
        let t = bytes::text("initrdefi\t");
        at_elements(line, k, t);
        assert(t[0] == 0x69 && t[1] == 0x6E && t[2] == 0x69 && t[3] == 0x74 && t[4] == 0x72 && t[5] == 0x64 && t[6] == 0x65 && t[7] == 0x66 && t[8] == 0x69 && t[9] == 0x09);
    }
}

proof fn at_elements(s: Seq<u8>, i: int, p: Seq<u8>)
    ensures
        strategy::at(s, i, p) ==> forall|j: int| 0 <= j < p.len() ==> s[i + j] == #[trigger] p[j],
{
    if strategy::at(s, i, p) {
        assert forall|j: int| 0 <= j < p.len() implies s[i + j] == #[trigger] p[j] by {
            assert(s.subrange(i, i + p.len())[j] == p[j]);
        }
    }
}

proof fn linux_is_not_initrd(line: Seq<u8>)
    ensures
        !(strategy::is_linux(line) && strategy::is_initrd(line)),
{
    if strategy::is_linux(line) && strategy::is_initrd(line) {
        keyword(line);
    }
}

proof fn lines_growth(p: Patch, s: Seq<u8>, i: int)
    requires
        0 <= i <= s.len(),
    ensures
        p.lines(s, i).len() <= s.len() - i + strategy::count_linux(s, i) * linux_growth(p)
            + strategy::count_initrd(s, i) * initrd_growth(p),
    decreases s.len() - i,
{
    if i < s.len() {
        strategy::line_end_bounds(s, i);
        let e = strategy::line_end(s, i);
        let line = s.subrange(i, e);
        lines_growth(p, s, e);
        line_growth(p, line);
        linux_is_not_initrd(line);
        let l = strategy::count_linux(s, e) as int;
        let n = strategy::count_initrd(s, e) as int;
        let lg = linux_growth(p);
        let ng = initrd_growth(p);
        assert((l + 1) * lg == l * lg + lg) by (nonlinear_arith);
        assert((n + 1) * ng == n * ng + ng) by (nonlinear_arith);
    } else {
        assert(0 * linux_growth(p) == 0) by (nonlinear_arith);
        assert(0 * initrd_growth(p) == 0) by (nonlinear_arith);
    }
}

/// A patched configuration fits the room that its linux and initrd lines call
/// for.
pub proof fn patch_fits(p: Patch, s: Seq<u8>)
    ensures
        p.lines(s, 0).len() <= s.len() + strategy::count_linux(s, 0) * linux_growth(p)
            + strategy::count_initrd(s, 0) * initrd_growth(p),
{
    lines_growth(p, s, 0);
}

// ---------------------------------------------------------------------------
// Patching twice
// ---------------------------------------------------------------------------

/// No line feed but the one that may end it.
pub open spec fn one_line(line: Seq<u8>) -> bool {
    &&& line.len() > 0
    &&& forall|k: int| 0 <= k < line.len() - 1 ==> #[trigger] line[k] != LF
}

pub open spec fn no_line_feed(s: Seq<u8>) -> bool {
    forall|k: int| 0 <= k < s.len() ==> #[trigger] s[k] != LF
}

/// What is injected does not break lines.
pub open spec fn stays_in_line(p: Patch) -> bool {
    no_line_feed(p.extra) && no_line_feed(p.eol) && no_line_feed(p.target)
}

/// Lines that agree up to the end of the keyword are of the same sort.
proof fn same_keyword(a: Seq<u8>, b: Seq<u8>, m: int)
    requires
        strategy::is_linux(a) || strategy::is_initrd(a),
        strategy::skip_blank(a, 0) + 10 <= m || (strategy::is_linux(a) && (strategy::skip_blank(
            a,
            0,
        ) + 9 <= m || strategy::skip_blank(a, 0) + 6 <= m && strategy::is_blank(
            a[strategy::skip_blank(a, 0) + 5],
        ))) || (strategy::is_initrd(a) && strategy::skip_blank(a, 0) + 7 <= m && strategy::is_blank(
            a[strategy::skip_blank(a, 0) + 6],
        )),
        m <= a.len(),
        m <= b.len(),
        forall|k: int| 0 <= k < m ==> a[k] == b[k],
    ensures
        strategy::is_linux(b) == strategy::is_linux(a),
        strategy::is_initrd(b) == strategy::is_initrd(a),
{
    keyword(a);
    linux_is_not_initrd(a);
    let i = strategy::skip_blank(a, 0);
    strategy::skip_blank_bounds(a, 0);
    same_blanks(a, b, 0, i);
    reveal_strlit("linux ");
    reveal_strlit("linux\t");
    reveal_strlit("linuxefi ");
    reveal_strlit("linuxefi\t");
    reveal_strlit("initrd ");
    reveal_strlit("initrd\t");
    reveal_strlit("initrdefi ");
    reveal_strlit("initrdefi\t");
    vstd::string::is_ascii_spec_bytes("linux ");
    vstd::string::is_ascii_spec_bytes("linux\t");
    vstd::string::is_ascii_spec_bytes("linuxefi ");
    vstd::string::is_ascii_spec_bytes("linuxefi\t");
    vstd::string::is_ascii_spec_bytes("initrd ");
    vstd::string::is_ascii_spec_bytes("initrd\t");
    vstd::string::is_ascii_spec_bytes("initrdefi ");
    vstd::string::is_ascii_spec_bytes("initrdefi\t");
    if strategy::is_linux(a) {
        if a[i + 5] == SPACE {
            assert(b.subrange(i, i + 6) =~= bytes::text("linux "));
        } else if a[i + 5] == TAB {
            assert(b.subrange(i, i + 6) =~= bytes::text("linux\t"));
        } else if a[i + 8] == SPACE {
            assert(b.subrange(i, i + 9) =~= bytes::text("linuxefi "));
        } else {
            assert(b.subrange(i, i + 9) =~= bytes::text("linuxefi\t"));
        }
        assert(strategy::is_linux(b));
        linux_is_not_initrd(b);
    } else {
        if a[i + 6] == SPACE {
            assert(b.subrange(i, i + 7) =~= bytes::text("initrd "));
        } else if a[i + 6] == TAB {
            assert(b.subrange(i, i + 7) =~= bytes::text("initrd\t"));
        } else if a[i + 9] == SPACE {
            assert(b.subrange(i, i + 10) =~= bytes::text("initrdefi "));
        } else {
            assert(b.subrange(i, i + 10) =~= bytes::text("initrdefi\t"));
        }
        assert(strategy::is_initrd(b));
        linux_is_not_initrd(b);
    }
}

proof fn same_blanks(a: Seq<u8>, b: Seq<u8>, j: int, i: int)
    requires
        0 <= j <= i < a.len(),
        i < b.len(),
        i == strategy::skip_blank(a, j),
        forall|k: int| 0 <= k <= i ==> a[k] == b[k],
    ensures
        strategy::skip_blank(b, j) == i,
    decreases i - j,
{
    if strategy::is_blank(a[j]) {
        strategy::skip_blank_bounds(a, j + 1);
        same_blanks(a, b, j + 1, i);
    }
}

/// No locator argument starts within the blanks and the keyword of a linux
/// line, so stripping keeps them.
proof fn stripped_keeps_keyword(line: Seq<u8>, j: int, m: int)
    requires
        strategy::is_linux(line),
        0 <= j <= m,
        m == keyword_end(line),
    ensures
        m <= line.len(),
        strategy::stripped(line, j) == line.subrange(j, m) + strategy::stripped(line, m),
    decreases m - j,
{
    keyword(line);
    strategy::skip_blank_bounds(line, 0);
    if j < m {
        no_locator_in_keyword(line, j);
        stripped_keeps_keyword(line, j + 1, m);
        assert(seq![line[j]] + (line.subrange(j + 1, m) + strategy::stripped(line, m))
            =~= line.subrange(j, m) + strategy::stripped(line, m));
    } else {
        assert(line.subrange(m, m) + strategy::stripped(line, m) =~= strategy::stripped(line, m));
    }
}

/// The place behind the keyword of a linux line and the blank after it.
pub open spec fn keyword_end(line: Seq<u8>) -> int {
    let i = strategy::skip_blank(line, 0);
    if strategy::is_blank(line[i + 5]) {
        i + 6
    } else {
        i + 9
    }
}

proof fn no_locator_in_keyword(line: Seq<u8>, j: int)
    requires
        strategy::is_linux(line),
        0 <= j < keyword_end(line),
    ensures
        strategy::locator_at(line, j) == 0,
{
    keyword(line);
    strategy::skip_blank_bounds(line, 0);
    reveal_strlit("findiso=");
    reveal_strlit("iso-scan/filename=");
    reveal_strlit("choosable.iso_offset=");
    vstd::string::is_ascii_spec_bytes("findiso=");
    vstd::string::is_ascii_spec_bytes("iso-scan/filename=");
    vstd::string::is_ascii_spec_bytes("choosable.iso_offset=");
    at_elements(line, j, bytes::text("findiso="));
    at_elements(line, j, bytes::text("iso-scan/filename="));
    at_elements(line, j, bytes::text("choosable.iso_offset="));
    assert(strategy::at(line, j, bytes::text("findiso=")) ==> line[j + 0] == 0x66 && line[j + 1]
        == 0x69 && line[j + 2] == 0x6E) by {
        let t = bytes::text("findiso=");
        assert(t[0] == 0x66 && t[1] == 0x69 && t[2] == 0x6E);
    }
    assert(strategy::at(line, j, bytes::text("iso-scan/filename=")) ==> line[j + 0] == 0x69 && line[
    j + 1] == 0x73) by {
        let t = bytes::text("iso-scan/filename=");
        assert(t[0] == 0x69 && t[1] == 0x73);
    }
    assert(strategy::at(line, j, bytes::text("choosable.iso_offset=")) ==> line[j + 0] == 0x63) by {
        let t = bytes::text("choosable.iso_offset=");
        assert(t[0] == 0x63);
    }
}

/// Stripping keeps lines whole.
proof fn stripped_line(s: Seq<u8>, i: int)
    requires
        one_line(s),
        0 <= i <= s.len(),
    ensures
        ({
            let t = strategy::stripped(s, i);
            &&& forall|k: int| 0 <= k < t.len() - 1 ==> #[trigger] t[k] != LF
            &&& i < s.len() && s.last() == LF ==> t.len() > 0 && t.last() == LF
            &&& s.last() != LF ==> no_line_feed(t)
        }),
    decreases s.len() - i,
{
    if i < s.len() {
        let n = strategy::locator_at(s, i);
        let next = strategy::skip_blank(s, strategy::word_end(s, i + n));
        if n > 0 && i < next <= s.len() {
            strategy::word_end_bounds(s, i + n);
            strategy::skip_blank_bounds(s, strategy::word_end(s, i + n));
            stripped_line(s, next);
            if s.last() == LF {
                locator_has_no_line_feed(s, i);
                assert(next < s.len());
            }
        } else {
            stripped_line(s, i + 1);
            let rest = strategy::stripped(s, i + 1);
            let t = strategy::stripped(s, i);
            assert(t == seq![s[i]] + rest);
            assert forall|k: int| 0 <= k < t.len() - 1 implies #[trigger] t[k] != LF by {
                if k == 0 {
                    assert(i + 1 < s.len());
                    assert(t[0] == s[i]);
                } else {
                    assert(t[k] == rest[k - 1]);
                }
            }
            if s.last() == LF {
                if i + 1 == s.len() {
                    assert(rest =~= Seq::empty());
                    assert(t.last() == s[i]);
                } else {
                    assert(t.last() == rest.last());
                }
            } else {
                assert forall|k: int| 0 <= k < t.len() implies #[trigger] t[k] != LF by {
                    if k == 0 {
                        assert(t[0] == s[i]);
                    } else {
                        assert(t[k] == rest[k - 1]);
                    }
                }
            }
        }
    }
}

proof fn locator_has_no_line_feed(s: Seq<u8>, i: int)
    requires
        strategy::locator_at(s, i) > 0,
        s.last() == LF,
    ensures
        i + strategy::locator_at(s, i) < s.len(),
{
    reveal_strlit("findiso=");
    reveal_strlit("iso-scan/filename=");
    reveal_strlit("choosable.iso_offset=");
    vstd::string::is_ascii_spec_bytes("findiso=");
    vstd::string::is_ascii_spec_bytes("iso-scan/filename=");
    vstd::string::is_ascii_spec_bytes("choosable.iso_offset=");
    at_elements(s, i, bytes::text("findiso="));
    at_elements(s, i, bytes::text("iso-scan/filename="));
    at_elements(s, i, bytes::text("choosable.iso_offset="));
    assert(bytes::text("findiso=")[7] == 0x3D);
    assert(bytes::text("iso-scan/filename=")[17] == 0x3D);
    assert(bytes::text("choosable.iso_offset=")[20] == 0x3D);
}

/// The second word of a linux line ends behind its keyword, and before its
/// line feed.
proof fn inject_place(s: Seq<u8>, m: int)
    requires
        strategy::is_linux(s),
        m == keyword_end(s),
    ensures
        m <= strategy::second_arg_end(s) <= s.len(),
        s.last() == LF ==> strategy::second_arg_end(s) < s.len(),
{
    keyword(s);
    strategy::skip_blank_bounds(s, 0);
    let i = strategy::skip_blank(s, 0);
    strategy::word_end_bounds(s, i);
    let w = strategy::word_end(s, i);
    assert(w >= m - 1) by {
        if w < m - 1 {
            assert(strategy::ends_word(s[w]));
        }
    }
    assert(w == m - 1) by {
        if w > m - 1 {
            assert(!strategy::ends_word(s[m - 1]));
        }
    }
    strategy::skip_blank_bounds(s, w);
    let b = strategy::skip_blank(s, w);
    assert(b >= m) by {
        assert(strategy::skip_blank(s, w) == strategy::skip_blank(s, w + 1));
        strategy::skip_blank_bounds(s, w + 1);
    }
    strategy::word_end_bounds(s, b);
    if s.last() == LF {
        assert(b < s.len());
        assert(strategy::word_end(s, b) < s.len());
    }
}

/// Inserting a text with no line feed keeps a line whole.
proof fn inserted_line(s: Seq<u8>, i: int, t: Seq<u8>)
    requires
        forall|k: int| 0 <= k < s.len() - 1 ==> #[trigger] s[k] != LF,
        no_line_feed(t),
        0 <= i <= s.len(),
        s.len() > 0 && s.last() == LF ==> i < s.len(),
        s.len() + t.len() > 0,
    ensures
        one_line(strategy::inserted(s, i, t)),
        (strategy::inserted(s, i, t).last() == LF) == (s.len() > 0 && s.last() == LF),
        strategy::at(strategy::inserted(s, i, t), i, t),
{
    let r = strategy::inserted(s, i, t);
    assert forall|k: int| 0 <= k < r.len() - 1 implies #[trigger] r[k] != LF by {
        if k < i {
            assert(r[k] == s[k]);
        } else if k < i + t.len() {
            assert(r[k] == t[k - i]);
        } else {
            assert(r[k] == s[k - t.len()]);
        }
    }
    assert(r.subrange(i, i + t.len()) =~= t);
    if i == s.len() {
        if t.len() > 0 {
            assert(r.last() == t.last());
        } else {
            assert(r =~= s);
        }
    } else {
        assert(r.last() == s.last());
    }
}

proof fn line_twice(p: Patch, line: Seq<u8>)
    requires
        stays_in_line(p),
        one_line(line),
    ensures
        one_line(p.line(line)),
        (p.line(line).last() == LF) == (line.last() == LF),
        p.line(p.line(line)) == p.line(line),
{
    linux_is_not_initrd(line);
    if p.patches_linux(line) {
        keyword(line);
        strategy::skip_blank_bounds(line, 0);
        let m = keyword_end(line);
        let base = if p.eol.len() > 0 {
            strategy::stripped(line, 0)
        } else {
            line
        };
        if p.eol.len() > 0 {
            stripped_keeps_keyword(line, 0, m);
            stripped_line(line, 0);
            assert(forall|k: int| 0 <= k < m ==> base[k] == line[k]);
            assert(base.len() >= m);
        }
        same_keyword(line, base, m);
        same_blanks(line, base, 0, strategy::skip_blank(line, 0));
        assert(keyword_end(base) == m);
        inject_place(base, m);
        let at = strategy::second_arg_end(base);
        let t = p.extra + p.eol;
        inserted_line(base, at, t);
        let r = strategy::inserted(base, at, t);
        assert(forall|k: int| 0 <= k < m ==> r[k] == base[k]);
        same_blanks(base, r, 0, strategy::skip_blank(base, 0));
        same_keyword(base, r, m);
        assert(r.subrange(at, at + p.extra.len()) =~= p.extra);
        assert(strategy::at(r, at, p.extra));
        assert(strategy::contains(r, p.extra));
    } else if p.patches_initrd(line) {
        keyword(line);
        strategy::skip_blank_bounds(line, 0);
        let at = strategy::before_line_ending(line);
        let t = seq![SPACE] + p.target_path();
        inserted_line(line, at, t);
        let r = strategy::inserted(line, at, t);
        let i = strategy::skip_blank(line, 0);
        let m = if strategy::is_blank(line[i + 6]) {
            i + 7
        } else {
            i + 10
        };
        assert(m <= at);
        assert(forall|k: int| 0 <= k < m ==> r[k] == line[k]);
        same_keyword(line, r, m);
        assert(r.subrange(at + 1, at + 1 + p.target_path().len()) =~= p.target_path());
        assert(strategy::at(r, at + 1, p.target_path()));
        assert(strategy::contains(r, p.target_path()));
    }
}

/// The first line of `a` followed by `b` is `a`, if `a` is a line that ends or
/// nothing follows.
pub proof fn line_end_of_join(a: Seq<u8>, b: Seq<u8>, i: int)
    requires
        one_line(a),
        a.last() == LF || b.len() == 0,
        0 <= i < a.len(),
    ensures
        strategy::line_end(a + b, i) == a.len(),
    decreases a.len() - i,
{
    reveal_with_fuel(strategy::line_end, 2);
    let s = a + b;
    assert(s[i] == a[i]);
    if i + 1 < a.len() {
        line_end_of_join(a, b, i + 1);
    }
}

/// Patching from `i` on only depends on what stands from `i` on.
pub proof fn lines_shift(p: Patch, a: Seq<u8>, b: Seq<u8>, i: int)
    requires
        0 <= i <= b.len(),
    ensures
        p.lines(a + b, a.len() + i) == p.lines(b, i),
    decreases b.len() - i,
{
    if i < b.len() {
        let s = a + b;
        line_end_shift(a, b, i);
        strategy::line_end_bounds(b, i);
        let e = strategy::line_end(b, i);
        assert(s.subrange(a.len() + i, a.len() + e) =~= b.subrange(i, e));
        lines_shift(p, a, b, e);
    }
}

proof fn line_end_shift(a: Seq<u8>, b: Seq<u8>, i: int)
    requires
        0 <= i <= b.len(),
    ensures
        strategy::line_end(a + b, a.len() + i) == a.len() + strategy::line_end(b, i),
    decreases b.len() - i,
{
    if i < b.len() {
        assert((a + b)[a.len() + i] == b[i]);
        if b[i] != LF {
            line_end_shift(a, b, i + 1);
        }
    }
}

proof fn lines_twice(p: Patch, s: Seq<u8>, i: int)
    requires
        stays_in_line(p),
        0 <= i <= s.len(),
    ensures
        p.lines(p.lines(s, i), 0) == p.lines(s, i),
        i < s.len() ==> p.lines(s, i).len() > 0,
    decreases s.len() - i,
{
    if i < s.len() {
        strategy::line_end_bounds(s, i);
        let e = strategy::line_end(s, i);
        let line = s.subrange(i, e);
        assert(one_line(line));
        line_twice(p, line);
        let a = p.line(line);
        let b = p.lines(s, e);
        lines_twice(p, s, e);
        line_end_of_join(a, b, 0);
        assert((a + b).subrange(0, a.len() as int) =~= a);
        lines_shift(p, a, b, 0);
    }
}

/// Patching a patched configuration once more changes nothing.
pub proof fn patch_is_idempotent(p: Patch, s: Seq<u8>)
    requires
        stays_in_line(p),
    ensures
        p.lines(p.lines(s, 0), 0) == p.lines(s, 0),
{
    lines_twice(p, s, 0);
}

proof fn last_component_has_no_line_feed(path: Seq<u8>)
    requires
        no_line_feed(path),
    ensures
        no_line_feed(locator::last_component(path)),
    decreases path.len(),
{
    if path.len() > 0 && path.last() != 0x2F {
        assert(no_line_feed(path.drop_last())) by {
            assert forall|k: int| 0 <= k < path.len() - 1 implies #[trigger] path.drop_last()[k] != LF by {
                assert(path[k] != LF);
            }
        }
        last_component_has_no_line_feed(path.drop_last());
    }
}

proof fn cut_behind(a: Seq<u8>, b: Seq<u8>)
    requires
        no_line_feed(a),
        no_line_feed(b),
    ensures
        a.len() <= EOL_MAX ==> no_line_feed(
            a + b.take(bytes::min_int(b.len() as int, EOL_MAX - a.len())),
        ),
{
}

proof fn target_has_no_line_feed(target: Seq<u8>)
    requires
        no_line_feed(target),
    ensures
        no_line_feed(strategy::effective_target(target)),
{
    if target.len() == 0 {
        reveal_strlit("PREMOUNT.CPIO");
        vstd::string::is_ascii_spec_bytes("PREMOUNT.CPIO");
        assert(bytes::text("PREMOUNT.CPIO") =~= seq![
            0x50u8, 0x52, 0x45, 0x4D, 0x4F, 0x55, 0x4E, 0x54, 0x2E, 0x43, 0x50, 0x49, 0x4F,
        ]);
    }
}

/// What patching a configuration wrote, patching with the same arguments leaves
/// alone, for arguments, locations and archive names without line feeds.
pub proof fn patching_again_changes_nothing(
    extra: Seq<u8>,
    eol: Seq<u8>,
    loc: Option<IsoLocation>,
    target: Seq<u8>,
    s: Seq<u8>,
)
    requires
        eol.len() <= EOL_MAX,
        no_line_feed(extra),
        no_line_feed(eol),
        no_line_feed(target),
        loc matches Some(l) ==> no_line_feed(l.spec_path()),
    ensures
        ({
            let p = Patch {
                extra,
                eol: strategy::eol_argument(eol, loc),
                target: strategy::effective_target(target),
            };
            p.lines(p.lines(s, 0), 0) == p.lines(s, 0)
        }),
{
    let p = Patch {
        extra,
        eol: strategy::eol_argument(eol, loc),
        target: strategy::effective_target(target),
    };
    target_has_no_line_feed(target);
    if let Some(l) = loc {
        last_component_has_no_line_feed(l.spec_path());
        let d = digits::decimal(((l.iso_lba - l.part1_lba) * 512) as nat);
        digits::decimal_round_trip(((l.iso_lba - l.part1_lba) * 512) as nat);
        assert(no_line_feed(d));
        cut_behind(eol, l.spec_path());
        cut_behind(eol, locator::last_component(l.spec_path()));
        cut_behind(eol, d);
    }
    patch_is_idempotent(p, s);
}

} // verus!
