//! What patching makes of a configuration: which arguments a kernel gets, and
//! where the archive goes.

use vstd::prelude::*;
use crate::bytes;
use crate::efi::boot_kind::BootKind;
use crate::efi::locator;
use crate::efi::locator::IsoLocation;
use crate::efi::patch_laws;
use crate::efi::strategy;
use crate::efi::strategy::{Patch, CR, LF};

verus! {

// ---------------------------------------------------------------------------
// Words
// ---------------------------------------------------------------------------

/// Spaces and tabs only.
pub open spec fn blanks(s: Seq<u8>) -> bool {
    forall|i: int| 0 <= i < s.len() ==> (#[trigger] s[i] == 0x20 || s[i] == 0x09)
}

/// A word: no space, tab or line ending in it.
pub open spec fn word(s: Seq<u8>) -> bool {
    &&& s.len() > 0
    &&& forall|i: int|
        0 <= i < s.len() ==> #[trigger] s[i] != 0x20 && s[i] != 0x09 && s[i] != 0x0A && s[i] != 0x0D
}

/// What may follow a word: nothing, a space, a tab or a line ending.
pub open spec fn behind_word(s: Seq<u8>) -> bool {
    s.len() == 0 || s[0] == 0x20 || s[0] == 0x09 || s[0] == 0x0A || s[0] == 0x0D
}

proof fn skip_to(s: Seq<u8>, i: int, j: int)
    requires
        0 <= i <= j <= s.len(),
        forall|k: int| i <= k < j ==> (#[trigger] s[k] == 0x20 || s[k] == 0x09),
        j < s.len() ==> s[j] != 0x20 && s[j] != 0x09,
    ensures
        strategy::skip_blank(s, i) == j,
    decreases j - i,
{
    if i < j {
        assert(s[i] == 0x20 || s[i] == 0x09);
        skip_to(s, i + 1, j);
    }
}

proof fn word_to(s: Seq<u8>, i: int, j: int)
    requires
        0 <= i <= j <= s.len(),
        forall|k: int|
            i <= k < j ==> #[trigger] s[k] != 0x20 && s[k] != 0x09 && s[k] != 0x0A && s[k] != 0x0D,
        j < s.len() ==> s[j] == 0x20 || s[j] == 0x09 || s[j] == 0x0A || s[j] == 0x0D,
    ensures
        strategy::word_end(s, i) == j,
    decreases j - i,
{
    if i < j {
        assert(s[i] != 0x20);
        word_to(s, i + 1, j);
    }
}

proof fn keywords()
    ensures
        bytes::text("linux") == seq![0x6Cu8, 0x69, 0x6E, 0x75, 0x78],
        bytes::text("linux ") == bytes::text("linux").push(0x20),
        bytes::text("linux\t") == bytes::text("linux").push(0x09),
        bytes::text("linuxefi") == bytes::text("linux") + seq![0x65u8, 0x66, 0x69],
        bytes::text("linuxefi ") == bytes::text("linuxefi").push(0x20),
        bytes::text("linuxefi\t") == bytes::text("linuxefi").push(0x09),
        bytes::text("initrd") == seq![0x69u8, 0x6E, 0x69, 0x74, 0x72, 0x64],
        bytes::text("initrd ") == bytes::text("initrd").push(0x20),
        bytes::text("initrd\t") == bytes::text("initrd").push(0x09),
        bytes::text("initrdefi") == bytes::text("initrd") + seq![0x65u8, 0x66, 0x69],
        bytes::text("initrdefi ") == bytes::text("initrdefi").push(0x20),
        bytes::text("initrdefi\t") == bytes::text("initrdefi").push(0x09),
{
    reveal_strlit("linux");
    reveal_strlit("linux ");
    reveal_strlit("linux\t");
    reveal_strlit("linuxefi");
    reveal_strlit("linuxefi ");
    reveal_strlit("linuxefi\t");
    reveal_strlit("initrd");
    reveal_strlit("initrd ");
    reveal_strlit("initrd\t");
    reveal_strlit("initrdefi");
    reveal_strlit("initrdefi ");
    reveal_strlit("initrdefi\t");
    vstd::string::is_ascii_spec_bytes("linux");
    vstd::string::is_ascii_spec_bytes("linux ");
    vstd::string::is_ascii_spec_bytes("linux\t");
    vstd::string::is_ascii_spec_bytes("linuxefi");
    vstd::string::is_ascii_spec_bytes("linuxefi ");
    vstd::string::is_ascii_spec_bytes("linuxefi\t");
    vstd::string::is_ascii_spec_bytes("initrd");
    vstd::string::is_ascii_spec_bytes("initrd ");
    vstd::string::is_ascii_spec_bytes("initrd\t");
    vstd::string::is_ascii_spec_bytes("initrdefi");
    vstd::string::is_ascii_spec_bytes("initrdefi ");
    vstd::string::is_ascii_spec_bytes("initrdefi\t");
    assert(bytes::text("linux") =~= seq![0x6Cu8, 0x69, 0x6E, 0x75, 0x78]);
    assert(bytes::text("linux ") =~= bytes::text("linux").push(0x20));
    assert(bytes::text("linux\t") =~= bytes::text("linux").push(0x09));
    assert(bytes::text("linuxefi") =~= bytes::text("linux") + seq![0x65u8, 0x66, 0x69]);
    assert(bytes::text("linuxefi ") =~= bytes::text("linuxefi").push(0x20));
    assert(bytes::text("linuxefi\t") =~= bytes::text("linuxefi").push(0x09));
    assert(bytes::text("initrd") =~= seq![0x69u8, 0x6E, 0x69, 0x74, 0x72, 0x64]);
    assert(bytes::text("initrd ") =~= bytes::text("initrd").push(0x20));
    assert(bytes::text("initrd\t") =~= bytes::text("initrd").push(0x09));
    assert(bytes::text("initrdefi") =~= bytes::text("initrd") + seq![0x65u8, 0x66, 0x69]);
    assert(bytes::text("initrdefi ") =~= bytes::text("initrdefi").push(0x20));
    assert(bytes::text("initrdefi\t") =~= bytes::text("initrdefi").push(0x09));
}

/// A line that begins with the word `w` and goes on behind a blank has the
/// keyword `k` if and only if `w` is that keyword.
proof fn keyword_at(line: Seq<u8>, i: int, w: Seq<u8>, k: Seq<u8>)
    requires
        0 <= i,
        i + w.len() <= line.len(),
        line.subrange(i, i + w.len()) == w,
        word(w),
        word(k),
        i + w.len() < line.len() ==> behind_word(line.skip(i + w.len())),
    ensures
        (strategy::at(line, i, k.push(0x20)) || strategy::at(line, i, k.push(0x09))) == (w == k && i
            + w.len() < line.len() && (line[i + w.len()] == 0x20 || line[i + w.len()] == 0x09)),
{
    let n = w.len() as int;
    let m = k.len() as int;
    assert forall|j: int| 0 <= j < n implies line[i + j] == #[trigger] w[j] by {
        assert(line.subrange(i, i + n)[j] == w[j]);
    }
    assert forall|b: u8| (b == 0x20 || b == 0x09) && #[trigger] strategy::at(line, i, k.push(b)) implies w
        == k && i + n < line.len() && line[i + n] == b by {
        let t = k.push(b);
        assert forall|j: int| 0 <= j <= m implies line[i + j] == #[trigger] t[j] by {
            assert(line.subrange(i, i + m + 1)[j] == t[j]);
        }
        assert(t[m] == b);
        if n < m {
            assert(line[i + n] == t[n]);
            assert(t[n] == k[n]);
            assert(line.skip(i + n)[0] == line[i + n]);
            assert(false);
        }
        if m < n {
            assert(line[i + m] == w[m]);
            assert(line[i + m] == t[m]);
            assert(false);
        }
        assert forall|j: int| 0 <= j < n implies w[j] == k[j] by {
            assert(line[i + j] == t[j]);
        }
        assert(w =~= k);
    }
    if w == k && i + n < line.len() && (line[i + n] == 0x20 || line[i + n] == 0x09) {
        let b = line[i + n];
        assert(line.subrange(i, i + n + 1) =~= k.push(b));
        assert(strategy::at(line, i, k.push(b)));
    }
    assert(strategy::at(line, i, k.push(0x20)) ==> w == k);
    assert(strategy::at(line, i, k.push(0x09)) ==> w == k);
}

/// Which sort of line one is that begins with the word `w`.
proof fn line_sort(line: Seq<u8>, lead: Seq<u8>, w: Seq<u8>, rest: Seq<u8>)
    requires
        line == lead + w + rest,
        blanks(lead),
        word(w),
        behind_word(rest),
    ensures
        strategy::skip_blank(line, 0) == lead.len(),
        strategy::is_linux(line) == ((w == bytes::text("linux") || w == bytes::text("linuxefi"))
            && rest.len() > 0 && (rest[0] == 0x20 || rest[0] == 0x09)),
        strategy::is_initrd(line) == ((w == bytes::text("initrd") || w == bytes::text("initrdefi"))
            && rest.len() > 0 && (rest[0] == 0x20 || rest[0] == 0x09)),
{
    let i = lead.len() as int;
    assert forall|k: int| 0 <= k < i implies (#[trigger] line[k] == 0x20 || line[k] == 0x09) by {
        assert(line[k] == lead[k]);
    }
    assert(line[i] == w[0]);
    skip_to(line, 0, i);
    assert(line.subrange(i, i + w.len()) =~= w);
    assert(line.skip(i + w.len()) =~= rest);
    if rest.len() > 0 {
        assert(line[i + w.len()] == rest[0]);
    }
    keywords();
    keyword_at(line, i, w, bytes::text("linux"));
    keyword_at(line, i, w, bytes::text("linuxefi"));
    keyword_at(line, i, w, bytes::text("initrd"));
    keyword_at(line, i, w, bytes::text("initrdefi"));
}

/// A line whose first word is none of `linux`, `linuxefi`, `initrd` and
/// `initrdefi` stays as it is.
pub proof fn other_lines_stay(p: Patch, lead: Seq<u8>, w: Seq<u8>, rest: Seq<u8>)
    requires
        blanks(lead),
        word(w),
        behind_word(rest),
        w != bytes::text("linux"),
        w != bytes::text("linuxefi"),
        w != bytes::text("initrd"),
        w != bytes::text("initrdefi"),
    ensures
        p.line(lead + w + rest) == lead + w + rest,
{
    line_sort(lead + w + rest, lead, w, rest);
}

/// An initrd line that does not name the archive yet gets it as its last word,
/// before its line ending, as a path from the root.
pub proof fn initrd_line_gets_archive(
    p: Patch,
    lead: Seq<u8>,
    w: Seq<u8>,
    rest: Seq<u8>,
    ending: Seq<u8>,
)
    requires
        blanks(lead),
        w == bytes::text("initrd") || w == bytes::text("initrdefi"),
        rest.len() > 0,
        rest[0] == 0x20 || rest[0] == 0x09,
        ending == seq![LF] || ending == seq![CR, LF] || ending == Seq::<u8>::empty(),
        ending.len() == 0 ==> rest.last() != LF,
        ending == seq![LF] ==> rest.last() != CR,
        p.target.len() + 1 <= (lead + w + rest + ending).len(),
        !strategy::contains(lead + w + rest + ending, seq![0x2Fu8] + p.target),
    ensures
        p.line(lead + w + rest + ending) == lead + w + rest + seq![0x20u8, 0x2F] + p.target
            + ending,
{
    keywords();
    let line = lead + w + rest + ending;
    assert(line =~= lead + w + (rest + ending));
    assert(w != bytes::text("linux") && w != bytes::text("linuxefi")) by {
        assert(bytes::text("linux")[0] == 0x6C);
        assert(bytes::text("linuxefi")[0] == 0x6C);
        assert(w[0] == 0x69);
    }
    line_sort(line, lead, w, rest + ending);
    let n = line.len() as int;
    let k = n - ending.len();
    if ending.len() > 0 {
        assert(line[n - 1] == ending[ending.len() - 1]);
        if ending.len() == 2 {
            assert(line[n - 2] == ending[0]);
        } else {
            assert(line[n - 2] == rest.last());
        }
    } else {
        assert(line[n - 1] == rest.last());
    }
    assert(strategy::before_line_ending(line) == k);
    assert(line.subrange(0, k) =~= lead + w + rest);
    assert(line.subrange(k, n) =~= ending);
    assert(seq![0x20u8] + p.target_path() =~= seq![0x20u8, 0x2F] + p.target);
    assert(p.line(line) =~= lead + w + rest + seq![0x20u8, 0x2F] + p.target + ending);
}

// ---------------------------------------------------------------------------
// Arguments that tell where the image is
// ---------------------------------------------------------------------------

/// Whether one of the names of an argument that tells where the image is stands
/// at place `i`.
pub open spec fn locates(s: Seq<u8>, i: int) -> bool {
    ||| strategy::at(s, i, bytes::text("findiso="))
    ||| strategy::at(s, i, bytes::text("iso-scan/filename="))
    ||| strategy::at(s, i, bytes::text("choosable.iso_offset="))
}

pub open spec fn locates_nothing(s: Seq<u8>) -> bool {
    forall|i: int| 0 <= i < s.len() ==> !#[trigger] locates(s, i)
}

proof fn locator_names()
    ensures
        bytes::text("findiso=").len() == 8,
        bytes::text("iso-scan/filename=").len() == 18,
        bytes::text("choosable.iso_offset=").len() == 21,
        word(bytes::text("findiso=")),
        word(bytes::text("iso-scan/filename=")),
        word(bytes::text("choosable.iso_offset=")),
        bytes::text("findiso=")[0] == 0x66,
        bytes::text("iso-scan/filename=")[0] == 0x69,
        bytes::text("choosable.iso_offset=")[0] == 0x63,
{
    reveal_strlit("findiso=");
    reveal_strlit("iso-scan/filename=");
    reveal_strlit("choosable.iso_offset=");
    vstd::string::is_ascii_spec_bytes("findiso=");
    vstd::string::is_ascii_spec_bytes("iso-scan/filename=");
    vstd::string::is_ascii_spec_bytes("choosable.iso_offset=");
    assert(bytes::text("findiso=") =~= seq![0x66u8, 0x69, 0x6E, 0x64, 0x69, 0x73, 0x6F, 0x3D]);
    assert(bytes::text("iso-scan/filename=") =~= seq![
        0x69u8, 0x73, 0x6F, 0x2D, 0x73, 0x63, 0x61, 0x6E, 0x2F, 0x66, 0x69, 0x6C, 0x65, 0x6E, 0x61, 0x6D, 0x65, 0x3D,
    ]);
    assert(bytes::text("choosable.iso_offset=") =~= seq![
        0x63u8, 0x68, 0x6F, 0x6F, 0x73, 0x61, 0x62, 0x6C, 0x65, 0x2E, 0x69, 0x73, 0x6F, 0x5F, 0x6F, 0x66, 0x66, 0x73, 0x65, 0x74, 0x3D,
    ]);
}

/// A word that starts in `f` and stands in `f + r` lies within `f`, where `r`
/// is what may follow a word.
proof fn word_within(f: Seq<u8>, r: Seq<u8>, i: int, k: Seq<u8>)
    requires
        0 <= i < f.len(),
        behind_word(r),
        word(k),
        strategy::at(f + r, i, k),
    ensures
        strategy::at(f, i, k),
{
    let s = f + r;
    if i + k.len() > f.len() {
        let j = f.len() - i;
        assert(s.subrange(i, i + k.len())[j] == s[f.len() as int]);
        assert(s[f.len() as int] == r[0]);
        assert(k[j] == r[0]);
        assert(false);
    }
    assert(f.subrange(i, i + k.len()) =~= s.subrange(i, i + k.len()));
}

/// What is kept in front of the rest when it is stripped.
proof fn stripped_behind(f: Seq<u8>, r: Seq<u8>, i: int)
    requires
        0 <= i <= f.len(),
        locates_nothing(f),
        behind_word(r),
    ensures
        strategy::stripped(f + r, i) == f.skip(i) + strategy::stripped(f + r, f.len() as int),
    decreases f.len() - i,
{
    let s = f + r;
    let rest = strategy::stripped(s, f.len() as int);
    if i < f.len() {
        locator_names();
        assert(!locates(f, i));
        if locates(s, i) {
            if strategy::at(s, i, bytes::text("findiso=")) {
                word_within(f, r, i, bytes::text("findiso="));
            } else if strategy::at(s, i, bytes::text("iso-scan/filename=")) {
                word_within(f, r, i, bytes::text("iso-scan/filename="));
            } else {
                word_within(f, r, i, bytes::text("choosable.iso_offset="));
            }
            assert(false);
        }
        stripped_behind(f, r, i + 1);
        assert(s[i] == f[i]);
        assert(seq![f[i]] + (f.skip(i + 1) + rest) =~= f.skip(i) + rest);
    } else {
        assert(f.skip(i) + rest =~= rest);
    }
}

proof fn stripped_same(s: Seq<u8>, t: Seq<u8>, i: int)
    requires
        0 <= i <= s.len() + t.len(),
        s.len() <= i,
    ensures
        strategy::stripped(s + t, i) == strategy::stripped(t, i - s.len()),
    decreases s.len() + t.len() - i,
{
    let w = s + t;
    let j = i - s.len();
    if j < t.len() {
        locator_names();
        at_shift(s, t, j, bytes::text("findiso="));
        at_shift(s, t, j, bytes::text("iso-scan/filename="));
        at_shift(s, t, j, bytes::text("choosable.iso_offset="));
        let n = strategy::locator_at(t, j);
        assert(strategy::locator_at(w, i) == n);
        if n > 0 {
            word_shift(s, t, j + n);
            strategy::word_end_bounds(t, j + n);
            skip_shift(s, t, strategy::word_end(t, j + n));
            strategy::skip_blank_bounds(t, strategy::word_end(t, j + n));
            stripped_same(s, t, strategy::skip_blank(t, strategy::word_end(t, j + n)) + s.len());
        } else {
            assert(w[i] == t[j]);
            stripped_same(s, t, i + 1);
        }
    }
}

proof fn at_shift(s: Seq<u8>, t: Seq<u8>, j: int, k: Seq<u8>)
    requires
        0 <= j,
    ensures
        strategy::at(s + t, j + s.len(), k) == strategy::at(t, j, k),
{
    if j + k.len() <= t.len() {
        assert((s + t).subrange(j + s.len(), j + s.len() + k.len()) =~= t.subrange(j, j + k.len()));
    }
}

proof fn word_shift(s: Seq<u8>, t: Seq<u8>, j: int)
    requires
        0 <= j <= t.len(),
    ensures
        strategy::word_end(s + t, j + s.len()) == strategy::word_end(t, j) + s.len(),
    decreases t.len() - j,
{
    if j < t.len() {
        assert((s + t)[j + s.len()] == t[j]);
        word_shift(s, t, j + 1);
    }
}

proof fn skip_shift(s: Seq<u8>, t: Seq<u8>, j: int)
    requires
        0 <= j <= t.len(),
    ensures
        strategy::skip_blank(s + t, j + s.len()) == strategy::skip_blank(t, j) + s.len(),
    decreases t.len() - j,
{
    if j < t.len() {
        assert((s + t)[j + s.len()] == t[j]);
        skip_shift(s, t, j + 1);
    }
}

/// Stripping changes nothing where nothing tells where the image is.
pub proof fn stripping_keeps_the_rest(s: Seq<u8>)
    requires
        locates_nothing(s),
    ensures
        strategy::stripped(s, 0) == s,
{
    stripped_behind(s, Seq::empty(), 0);
    assert(s + Seq::<u8>::empty() =~= s);
    assert(s.skip(0) + Seq::<u8>::empty() =~= s);
}

/// The names of the three arguments that tell where the image is.
pub open spec fn is_locator_name(name: Seq<u8>) -> bool {
    ||| name == bytes::text("findiso=")
    ||| name == bytes::text("iso-scan/filename=")
    ||| name == bytes::text("choosable.iso_offset=")
}

proof fn locator_stands(name: Seq<u8>, r: Seq<u8>)
    requires
        is_locator_name(name),
    ensures
        strategy::locator_at(name + r, 0) == name.len(),
        name.len() > 0,
{
    locator_names();
    let tail = name + r;
    let n = name.len() as int;
    assert(tail.subrange(0, n) =~= name);
    assert(strategy::at(tail, 0, name));
    assert(tail[0] == name[0]);
    if strategy::at(tail, 0, bytes::text("findiso=")) {
        assert(tail.subrange(0, 8)[0] == tail[0]);
    }
    if strategy::at(tail, 0, bytes::text("iso-scan/filename=")) {
        assert(tail.subrange(0, 18)[0] == tail[0]);
    }
}

/// The end of a value and of the blanks behind it.
proof fn value_ends(name: Seq<u8>, value: Seq<u8>, gap: Seq<u8>, rest: Seq<u8>)
    requires
        value.len() > 0 ==> word(value),
        blanks(gap),
        gap.len() == 0 ==> behind_word(rest),
        rest.len() > 0 ==> rest[0] != 0x20 && rest[0] != 0x09,
    ensures
        ({
            let tail = name + value + gap + rest;
            strategy::skip_blank(tail, strategy::word_end(tail, name.len() as int)) == (name + value
                + gap).len()
        }),
{
    let tail = name + value + gap + rest;
    let n = name.len() as int;
    let e = n + value.len();
    let g = e + gap.len();
    assert forall|k: int| n <= k < e implies #[trigger] tail[k] != 0x20 && tail[k] != 0x09 && tail[k]
        != 0x0A && tail[k] != 0x0D by {
        assert(tail[k] == value[k - n]);
    }
    if e < tail.len() {
        if gap.len() > 0 {
            assert(tail[e] == gap[0]);
        } else {
            assert(tail[e] == rest[0]);
        }
    }
    word_to(tail, n, e);
    assert forall|k: int| e <= k < g implies (#[trigger] tail[k] == 0x20 || tail[k] == 0x09) by {
        assert(tail[k] == gap[k - e]);
    }
    if g < tail.len() {
        assert(tail[g] == rest[0]);
    }
    skip_to(tail, e, g);
}

/// Stripping takes out an argument that tells where the image is, with its value
/// and the blanks behind it, whichever of the three it is; what stands before it
/// stays, and what stands behind it is stripped likewise.
pub proof fn stripping_takes_out_locators(
    front: Seq<u8>,
    name: Seq<u8>,
    value: Seq<u8>,
    gap: Seq<u8>,
    rest: Seq<u8>,
)
    requires
        locates_nothing(front),
        front.len() > 0 ==> front.last() == 0x20 || front.last() == 0x09,
        is_locator_name(name),
        value.len() > 0 ==> word(value),
        blanks(gap),
        gap.len() == 0 ==> behind_word(rest),
        rest.len() > 0 ==> rest[0] != 0x20 && rest[0] != 0x09,
    ensures
        strategy::stripped(front + (name + value + gap + rest), 0) == front + strategy::stripped(
            rest,
            0,
        ),
{
    let tail = name + value + gap + rest;
    let before = name + value + gap;
    front_kept(front, tail, 0);
    assert(front.skip(0) =~= front);
    stripped_same(front, tail, front.len() as int);
    assert(tail =~= name + (value + gap + rest));
    locator_stands(name, value + gap + rest);
    value_ends(name, value, gap, rest);
    stripped_same(before, rest, before.len() as int);
    assert(strategy::stripped(tail, 0) == strategy::stripped(tail, before.len() as int));
}

/// The same as `stripped_behind`, where the front ends with a blank.
proof fn front_kept(f: Seq<u8>, r: Seq<u8>, i: int)
    requires
        0 <= i <= f.len(),
        locates_nothing(f),
        f.len() > 0 ==> f.last() == 0x20 || f.last() == 0x09,
    ensures
        strategy::stripped(f + r, i) == f.skip(i) + strategy::stripped(f + r, f.len() as int),
    decreases f.len() - i,
{
    let s = f + r;
    let rest = strategy::stripped(s, f.len() as int);
    if i < f.len() {
        locator_names();
        assert(!locates(f, i));
        if locates(s, i) {
            if strategy::at(s, i, bytes::text("findiso=")) {
                word_before_blank(f, r, i, bytes::text("findiso="));
            } else if strategy::at(s, i, bytes::text("iso-scan/filename=")) {
                word_before_blank(f, r, i, bytes::text("iso-scan/filename="));
            } else {
                word_before_blank(f, r, i, bytes::text("choosable.iso_offset="));
            }
            assert(false);
        }
        front_kept(f, r, i + 1);
        assert(s[i] == f[i]);
        assert(seq![f[i]] + (f.skip(i + 1) + rest) =~= f.skip(i) + rest);
    } else {
        assert(f.skip(i) + rest =~= rest);
    }
}

proof fn word_before_blank(f: Seq<u8>, r: Seq<u8>, i: int, k: Seq<u8>)
    requires
        0 <= i < f.len(),
        f.last() == 0x20 || f.last() == 0x09,
        word(k),
        strategy::at(f + r, i, k),
    ensures
        strategy::at(f, i, k),
{
    let s = f + r;
    let j = f.len() - 1 - i;
    if j < k.len() {
        assert(s.subrange(i, i + k.len())[j] == s[f.len() - 1]);
        assert(s[f.len() - 1] == f.last());
        assert(k[j] == f.last());
        assert(false);
    }
    assert(f.subrange(i, i + k.len()) =~= s.subrange(i, i + k.len()));
}

// ---------------------------------------------------------------------------
// Linux lines
// ---------------------------------------------------------------------------

/// A linux line, piece by piece: blanks, the keyword, blanks, the kernel, and the
/// kernel's own arguments.
#[verifier::opaque]
pub open spec fn is_kernel_line(
    lead: Seq<u8>,
    keyword: Seq<u8>,
    gap: Seq<u8>,
    kernel: Seq<u8>,
    tail: Seq<u8>,
) -> bool {
    &&& blanks(lead)
    &&& keyword == bytes::text("linux") || keyword == bytes::text("linuxefi")
    &&& gap.len() > 0
    &&& blanks(gap)
    &&& word(kernel)
    &&& locates_nothing(kernel)
    &&& behind_word(tail)
}

/// Nothing in front of the kernel's arguments tells where the image is.
proof fn front_locates_nothing(
    lead: Seq<u8>,
    keyword: Seq<u8>,
    gap: Seq<u8>,
    kernel: Seq<u8>,
)
    requires
        is_kernel_line(lead, keyword, gap, kernel, Seq::empty()),
    ensures
        locates_nothing(lead + keyword + gap + kernel),
{
    reveal(is_kernel_line);
    keywords();
    locator_names();
    let f = lead + keyword + gap + kernel;
    let m = lead.len() + keyword.len();
    let g = m + gap.len();
    assert forall|i: int| 0 <= i < f.len() implies !#[trigger] locates(f, i) by {
        if i < lead.len() {
            no_word_here(f, i, lead[i]);
        } else if i < m {
            assert(f.subrange(lead.len() as int, lead.len() as int + keyword.len()) =~= keyword);
            assert(f[m as int] == gap[0]);
            keyword_locates_nothing(f, lead.len() as int, keyword, i);
        } else if i < g {
            no_word_here(f, i, gap[i - m]);
        } else {
            let front = lead + keyword + gap;
            assert(f =~= front + kernel);
            assert(!locates(kernel, i - g));
            at_shift(front, kernel, i - g, bytes::text("findiso="));
            at_shift(front, kernel, i - g, bytes::text("iso-scan/filename="));
            at_shift(front, kernel, i - g, bytes::text("choosable.iso_offset="));
        }
    }
}

proof fn no_word_here(f: Seq<u8>, i: int, b: u8)
    requires
        0 <= i < f.len(),
        f[i] == b,
        b == 0x20 || b == 0x09,
    ensures
        !locates(f, i),
{
    locator_names();
    if strategy::at(f, i, bytes::text("findiso=")) {
        assert(f.subrange(i, i + 8)[0] == f[i]);
    }
    if strategy::at(f, i, bytes::text("iso-scan/filename=")) {
        assert(f.subrange(i, i + 18)[0] == f[i]);
    }
    if strategy::at(f, i, bytes::text("choosable.iso_offset=")) {
        assert(f.subrange(i, i + 21)[0] == f[i]);
    }
}

/// No locator's name starts within the keyword.
proof fn keyword_locates_nothing(f: Seq<u8>, at: int, keyword: Seq<u8>, i: int)
    requires
        0 <= at <= i < at + keyword.len(),
        at + keyword.len() < f.len(),
        f.subrange(at, at + keyword.len()) == keyword,
        f[at + keyword.len()] == 0x20 || f[at + keyword.len()] == 0x09,
        keyword == bytes::text("linux") || keyword == bytes::text("linuxefi"),
    ensures
        !locates(f, i),
{
    keywords();
    locator_names();
    let j = at + keyword.len() - i;
    assert(f.subrange(at, at + keyword.len())[i - at] == f[i]);
    let blank = f[at + keyword.len()];
    if strategy::at(f, i, bytes::text("findiso=")) {
        assert(f.subrange(i, i + 8)[0] == f[i]);
        if j < 8 {
            assert(f.subrange(i, i + 8)[j] == blank);
        }
    }
    if strategy::at(f, i, bytes::text("iso-scan/filename=")) {
        assert(f.subrange(i, i + 18)[0] == f[i]);
        if j < 18 {
            assert(f.subrange(i, i + 18)[j] == blank);
        }
    }
    if strategy::at(f, i, bytes::text("choosable.iso_offset=")) {
        assert(f.subrange(i, i + 21)[0] == f[i]);
    }
}

proof fn second_word_ends(
    lead: Seq<u8>,
    keyword: Seq<u8>,
    gap: Seq<u8>,
    kernel: Seq<u8>,
    tail: Seq<u8>,
)
    requires
        is_kernel_line(lead, keyword, gap, kernel, tail),
    ensures
        strategy::second_arg_end(lead + keyword + gap + kernel + tail) == (lead + keyword + gap
            + kernel).len(),
{
    reveal(is_kernel_line);
    keywords();
    let s = lead + keyword + gap + kernel + tail;
    let a = lead.len() as int;
    let b = a + keyword.len();
    let c = b + gap.len();
    let d = c + kernel.len();
    assert forall|k: int| 0 <= k < a implies (#[trigger] s[k] == 0x20 || s[k] == 0x09) by {
        assert(s[k] == lead[k]);
    }
    assert(s[a] == keyword[0]);
    skip_to(s, 0, a);
    assert forall|k: int| a <= k < b implies #[trigger] s[k] != 0x20 && s[k] != 0x09 && s[k] != 0x0A
        && s[k] != 0x0D by {
        assert(s[k] == keyword[k - a]);
    }
    assert(s[b] == gap[0]);
    word_to(s, a, b);
    assert forall|k: int| b <= k < c implies (#[trigger] s[k] == 0x20 || s[k] == 0x09) by {
        assert(s[k] == gap[k - b]);
    }
    assert(s[c] == kernel[0]);
    skip_to(s, b, c);
    assert forall|k: int| c <= k < d implies #[trigger] s[k] != 0x20 && s[k] != 0x09 && s[k] != 0x0A
        && s[k] != 0x0D by {
        assert(s[k] == kernel[k - c]);
    }
    if d < s.len() {
        assert(s[d] == tail[0]);
    }
    word_to(s, c, d);
}

/// Stripping keeps what stands first behind a word.
proof fn stripped_tail(tail: Seq<u8>)
    requires
        behind_word(tail),
    ensures
        behind_word(strategy::stripped(tail, 0)),
{
    if tail.len() > 0 {
        locator_names();
        if strategy::at(tail, 0, bytes::text("findiso=")) {
            assert(tail.subrange(0, 8)[0] == tail[0]);
        }
        if strategy::at(tail, 0, bytes::text("iso-scan/filename=")) {
            assert(tail.subrange(0, 18)[0] == tail[0]);
        }
        if strategy::at(tail, 0, bytes::text("choosable.iso_offset=")) {
            assert(tail.subrange(0, 21)[0] == tail[0]);
        }
        assert(strategy::stripped(tail, 0)[0] == tail[0]);
    }
}

proof fn kernel_line_is_linux(
    lead: Seq<u8>,
    keyword: Seq<u8>,
    gap: Seq<u8>,
    kernel: Seq<u8>,
    tail: Seq<u8>,
)
    requires
        is_kernel_line(lead, keyword, gap, kernel, tail),
    ensures
        strategy::is_linux(lead + keyword + gap + kernel + tail),
{
    reveal(is_kernel_line);
    keywords();
    let line = lead + keyword + gap + kernel + tail;
    assert(line =~= lead + keyword + (gap + kernel + tail));
    line_sort(line, lead, keyword, gap + kernel + tail);
}

proof fn kernel_line_stripped(
    lead: Seq<u8>,
    keyword: Seq<u8>,
    gap: Seq<u8>,
    kernel: Seq<u8>,
    tail: Seq<u8>,
)
    requires
        is_kernel_line(lead, keyword, gap, kernel, tail),
    ensures
        strategy::stripped(lead + keyword + gap + kernel + tail, 0) == lead + keyword + gap + kernel
            + strategy::stripped(tail, 0),
{
    reveal(is_kernel_line);
    let f = lead + keyword + gap + kernel;
    front_locates_nothing(lead, keyword, gap, kernel);
    stripped_behind(f, tail, 0);
    stripped_same(f, tail, f.len() as int);
    assert(f.skip(0) =~= f);
}

proof fn inserted_between(f: Seq<u8>, t: Seq<u8>, x: Seq<u8>)
    ensures
        strategy::inserted(f + t, f.len() as int, x) == f + x + t,
{
    let s = f + t;
    assert(s.subrange(0, f.len() as int) =~= f);
    assert(s.subrange(f.len() as int, s.len() as int) =~= t);
}

/// A linux line that lacks the arguments gets them right behind its kernel, and
/// the argument that tells where the image is behind them. In that case the
/// arguments of the line's own that tell the same are taken out; all else stays.
pub proof fn kernel_gets_its_arguments(
    p: Patch,
    lead: Seq<u8>,
    keyword: Seq<u8>,
    gap: Seq<u8>,
    kernel: Seq<u8>,
    tail: Seq<u8>,
)
    requires
        is_kernel_line(lead, keyword, gap, kernel, tail),
        p.extra.len() > 0,
        !strategy::contains(lead + keyword + gap + kernel + tail, p.extra),
    ensures
        p.eol.len() == 0 ==> p.line(lead + keyword + gap + kernel + tail) == lead + keyword + gap
            + kernel + p.extra + tail,
        p.eol.len() > 0 ==> p.line(lead + keyword + gap + kernel + tail) == lead + keyword + gap
            + kernel + (p.extra + p.eol) + strategy::stripped(tail, 0),
{
    reveal(is_kernel_line);
    let f = lead + keyword + gap + kernel;
    let line = f + tail;
    kernel_line_is_linux(lead, keyword, gap, kernel, tail);
    assert(p.patches_linux(line));
    if p.eol.len() == 0 {
        second_word_ends(lead, keyword, gap, kernel, tail);
        inserted_between(f, tail, p.extra + p.eol);
        assert(p.extra + p.eol =~= p.extra);
    } else {
        let t = strategy::stripped(tail, 0);
        kernel_line_stripped(lead, keyword, gap, kernel, tail);
        stripped_tail(tail);
        second_word_ends(lead, keyword, gap, kernel, t);
        inserted_between(f, t, p.extra + p.eol);
    }
}

/// A line that has the arguments already, or for which there are none, stays as
/// it is.
pub proof fn kernel_keeps_its_arguments(
    p: Patch,
    lead: Seq<u8>,
    keyword: Seq<u8>,
    gap: Seq<u8>,
    kernel: Seq<u8>,
    tail: Seq<u8>,
)
    requires
        is_kernel_line(lead, keyword, gap, kernel, tail),
        p.extra.len() == 0 || strategy::contains(lead + keyword + gap + kernel + tail, p.extra),
    ensures
        p.line(lead + keyword + gap + kernel + tail) == lead + keyword + gap + kernel + tail,
{
    reveal(is_kernel_line);
    keywords();
    let line = lead + keyword + gap + kernel + tail;
    assert(line =~= lead + keyword + (gap + kernel + tail));
    line_sort(line, lead, keyword, gap + kernel + tail);
    assert(keyword[0] == 0x6C);
    assert(bytes::text("initrd")[0] == 0x69);
    assert(bytes::text("initrdefi")[0] == 0x69);
}

// ---------------------------------------------------------------------------
// Whole configurations
// ---------------------------------------------------------------------------

/// Each line of a configuration is patched on its own, and the lines stay in
/// their order: nothing is added between them, and none is left out.
pub proof fn lines_are_patched_one_by_one(p: Patch, line: Seq<u8>, rest: Seq<u8>)
    requires
        line.len() > 0,
        forall|i: int| 0 <= i < line.len() - 1 ==> #[trigger] line[i] != LF,
        line.last() == LF || rest.len() == 0,
    ensures
        p.lines(line + rest, 0) == p.line(line) + p.lines(rest, 0),
        p.lines(Seq::empty(), 0) == Seq::<u8>::empty(),
{
    let s = line + rest;
    patch_laws::line_end_of_join(line, rest, 0);
    assert(s.subrange(0, line.len() as int) =~= line);
    patch_laws::lines_shift(p, line, rest, 0);
}

// ---------------------------------------------------------------------------
// Families
// ---------------------------------------------------------------------------

/// Whether `name` is the part of `path` behind its last slash.
pub open spec fn names_file(path: Seq<u8>, dir: Seq<u8>, name: Seq<u8>) -> bool {
    &&& path == dir + name
    &&& dir.len() == 0 || dir.last() == 0x2F
    &&& forall|i: int| 0 <= i < name.len() ==> #[trigger] name[i] != 0x2F
}

proof fn file_name_of(path: Seq<u8>, dir: Seq<u8>, name: Seq<u8>)
    requires
        names_file(path, dir, name),
    ensures
        locator::last_component(path) == name,
    decreases name.len(),
{
    if name.len() == 0 {
        assert(path =~= dir);
        assert(locator::last_component(path) =~= name);
    } else {
        let less = name.drop_last();
        assert forall|i: int| 0 <= i < less.len() implies #[trigger] less[i] != 0x2F by {
            assert(less[i] == name[i]);
        }
        assert(path.drop_last() =~= dir + less);
        assert(path.last() == name.last());
        assert(name[name.len() - 1] != 0x2F);
        file_name_of(path.drop_last(), dir, less);
        assert(less.push(name.last()) =~= name);
    }
}

proof fn eol_names()
    ensures
        bytes::text(" findiso=") == seq![0x20u8] + bytes::text("findiso="),
        bytes::text(" iso-scan/filename=") == seq![0x20u8] + bytes::text("iso-scan/filename="),
        bytes::text("").len() == 0,
        bytes::text(" findiso=").last() == 0x3D,
        bytes::text(" iso-scan/filename=").last() == 0x3D,
        bytes::text(" findiso=").len() == 9,
        bytes::text(" iso-scan/filename=").len() == 19,
{
    reveal_strlit("");
    reveal_strlit(" findiso=");
    reveal_strlit(" iso-scan/filename=");
    reveal_strlit("findiso=");
    reveal_strlit("iso-scan/filename=");
    vstd::string::is_ascii_spec_bytes("");
    vstd::string::is_ascii_spec_bytes(" findiso=");
    vstd::string::is_ascii_spec_bytes(" iso-scan/filename=");
    vstd::string::is_ascii_spec_bytes("findiso=");
    vstd::string::is_ascii_spec_bytes("iso-scan/filename=");
    assert(bytes::text(" findiso=") =~= seq![0x20u8] + bytes::text("findiso="));
    assert(bytes::text(" iso-scan/filename=") =~= seq![0x20u8] + bytes::text(
        "iso-scan/filename=",
    ));
}

/// By its family, a kernel is told where the image is: one of the Casper family
/// by the name of the image behind the last slash of its path, one of the Debian
/// live family by the whole path, and one of another family, or without a
/// location, not at all.
pub proof fn family_says_where_the_image_is(
    kind: BootKind,
    iso_name: Seq<u8>,
    loc: Option<IsoLocation>,
    target: Seq<u8>,
    dir: Seq<u8>,
    name: Seq<u8>,
)
    requires
        loc matches Some(l) ==> l.wf() && names_file(l.spec_path(), dir, name),
        strategy::patch_for(kind, iso_name, loc, target) is Some,
    ensures
        ({
            let eol = (strategy::patch_for(kind, iso_name, loc, target)->0).eol;
            match (kind, loc) {
                (BootKind::Casper, Some(_)) => eol == seq![0x20u8] + bytes::text(
                    "iso-scan/filename=",
                ) + name,
                (BootKind::DebianLive, Some(l)) => eol == seq![0x20u8] + bytes::text("findiso=")
                    + l.spec_path(),
                _ => eol.len() == 0,
            }
        }),
{
    eol_names();
    let p = strategy::patch_for(kind, iso_name, loc, target)->0;
    if let Some(l) = loc {
        let path = l.spec_path();
        file_name_of(path, dir, name);
        assert(path.take(path.len() as int) =~= path);
        assert(name.take(name.len() as int) =~= name);
        assert(bytes::text(" iso-scan/filename=") != bytes::text(" findiso="));
        if kind == BootKind::Casper {
            assert(p.eol =~= seq![0x20u8] + bytes::text("iso-scan/filename=") + name);
        } else if kind == BootKind::DebianLive {
            assert(p.eol =~= seq![0x20u8] + bytes::text("findiso=") + path);
        }
    }
}

/// The name under which the archive is added: the one that is given, up to 30
/// bytes of it, and `PREMOUNT.CPIO` where none is.
pub proof fn archive_goes_by_its_name(
    kind: BootKind,
    iso_name: Seq<u8>,
    loc: Option<IsoLocation>,
    target: Seq<u8>,
)
    requires
        strategy::patch_for(kind, iso_name, loc, target) is Some,
    ensures
        ({
            let p = strategy::patch_for(kind, iso_name, loc, target)->0;
            &&& target.len() == 0 ==> p.target == bytes::text("PREMOUNT.CPIO")
            &&& 0 < target.len() <= 30 ==> p.target == target
            &&& target.len() > 30 ==> p.target.len() == 30 && p.target.is_prefix_of(target)
        }),
{
    reveal_strlit("PREMOUNT.CPIO");
    vstd::string::is_ascii_spec_bytes("PREMOUNT.CPIO");
    let t = bytes::text("PREMOUNT.CPIO");
    assert(t.take(t.len() as int) =~= t);
    assert(target.take(target.len() as int) =~= target);
}

/// A linux line of the Casper family names the image behind `iso-scan/filename=`
/// once it is patched, and one of the Debian live family its whole path behind
/// `findiso=`: right behind the other arguments, which follow the kernel.
pub proof fn patched_line_names_the_image(
    kind: BootKind,
    iso_name: Seq<u8>,
    loc: IsoLocation,
    target: Seq<u8>,
    dir: Seq<u8>,
    name: Seq<u8>,
    lead: Seq<u8>,
    keyword: Seq<u8>,
    gap: Seq<u8>,
    kernel: Seq<u8>,
    tail: Seq<u8>,
)
    requires
        loc.wf(),
        names_file(loc.spec_path(), dir, name),
        is_kernel_line(lead, keyword, gap, kernel, tail),
        locates_nothing(tail),
        strategy::patch_for(kind, iso_name, Some(loc), target) is Some,
        !strategy::contains(
            lead + keyword + gap + kernel + tail,
            (strategy::patch_for(kind, iso_name, Some(loc), target)->0).extra,
        ),
    ensures
        ({
            let p = strategy::patch_for(kind, iso_name, Some(loc), target)->0;
            let line = lead + keyword + gap + kernel + tail;
            let front = lead + keyword + gap + kernel + p.extra;
            &&& kind == BootKind::Casper ==> p.line(line) == front + seq![0x20u8] + bytes::text(
                "iso-scan/filename=",
            ) + name + tail
            &&& kind == BootKind::DebianLive ==> p.line(line) == front + seq![0x20u8] + bytes::text(
                "findiso=",
            ) + loc.spec_path() + tail
            &&& kind != BootKind::Casper && kind != BootKind::DebianLive ==> p.line(line) == front
                + tail
        }),
{
    let p = strategy::patch_for(kind, iso_name, Some(loc), target)->0;
    let line = lead + keyword + gap + kernel + tail;
    let f = lead + keyword + gap + kernel;
    family_says_where_the_image_is(kind, iso_name, Some(loc), target, dir, name);
    extra_is_there(kind, strategy::is_popos(kind, iso_name), loc);
    stripping_keeps_the_rest(tail);
    kernel_gets_its_arguments(p, lead, keyword, gap, kernel, tail);
    joined(f, p.extra, seq![0x20u8], bytes::text("iso-scan/filename="), name);
    joined(f, p.extra, seq![0x20u8], bytes::text("findiso="), loc.spec_path());
}

proof fn joined(f: Seq<u8>, a: Seq<u8>, b: Seq<u8>, c: Seq<u8>, d: Seq<u8>)
    ensures
        f + (a + (b + c + d)) == f + a + b + c + d,
{
    assert(f + (a + (b + c + d)) =~= f + a + b + c + d);
}

proof fn extra_is_there(kind: BootKind, is_popos: bool, loc: IsoLocation)
    ensures
        kind.extra(is_popos, Some(loc), strategy::EXTRA_ROOM as int) matches Some(x) ==> x.len() > 0,
{
    reveal_strlit(" choosable.iso_size=");
    vstd::string::is_ascii_spec_bytes(" choosable.iso_size=");
}

} // verus!
