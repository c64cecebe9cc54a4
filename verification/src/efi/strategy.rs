//! Patching GRUB configurations: kernel arguments for linux lines, and the
//! premount archive for initrd lines.

use vstd::prelude::*;
use crate::bytes;
use crate::bytes::{bytes_eq, push_all, slice_vec};
use crate::digits;
use crate::digits::decimal_text;
use crate::efi::boot_kind;
use crate::efi::boot_kind::BootKind;
use crate::efi::locator;
use crate::efi::locator::IsoLocation;

verus! {

pub const SPACE: u8 = 0x20;

pub const TAB: u8 = 0x09;

pub const LF: u8 = 0x0A;

pub const CR: u8 = 0x0D;

/// The longest locator argument, with its name.
pub const EOL_MAX: usize = 320;

/// The longest premount name that is injected.
pub const TARGET_MAX: usize = 30;

/// A patched configuration.
pub struct PatchOutput {
    pub buf: Vec<u8>,
    pub size: usize,
}

/// What gets injected: arguments for linux lines, the locator argument behind
/// them, and the name of the premount archive for initrd lines.
pub struct Patch {
    pub extra: Seq<u8>,
    pub eol: Seq<u8>,
    pub target: Seq<u8>,
}

// ---------------------------------------------------------------------------
// Lines and words
// ---------------------------------------------------------------------------

pub open spec fn is_blank(b: u8) -> bool {
    b == SPACE || b == TAB
}

pub open spec fn ends_word(b: u8) -> bool {
    b == SPACE || b == TAB || b == LF || b == CR
}

/// The first place from `i` on that is not blank.
pub open spec fn skip_blank(s: Seq<u8>, i: int) -> int
    decreases s.len() - i,
{
    if 0 <= i < s.len() && is_blank(s[i]) {
        skip_blank(s, i + 1)
    } else {
        i
    }
}

/// The end of the word at `i`.
pub open spec fn word_end(s: Seq<u8>, i: int) -> int
    decreases s.len() - i,
{
    if 0 <= i < s.len() && !ends_word(s[i]) {
        word_end(s, i + 1)
    } else {
        i
    }
}

/// The end of the second word of a line.
pub open spec fn second_arg_end(s: Seq<u8>) -> int {
    word_end(s, skip_blank(s, word_end(s, skip_blank(s, 0))))
}

/// The end of the line that starts at `i`, with its line feed.
pub open spec fn line_end(s: Seq<u8>, i: int) -> int
    decreases s.len() - i,
{
    if i < 0 || i >= s.len() {
        s.len() as int
    } else if s[i] == LF {
        i + 1
    } else {
        line_end(s, i + 1)
    }
}

/// Whether `p` stands at place `i` of `s`.
pub open spec fn at(s: Seq<u8>, i: int, p: Seq<u8>) -> bool {
    0 <= i && i + p.len() <= s.len() && s.subrange(i, i + p.len()) == p
}

pub open spec fn contains(s: Seq<u8>, p: Seq<u8>) -> bool {
    exists|i: int| at(s, i, p)
}

pub open spec fn is_linux(line: Seq<u8>) -> bool {
    let i = skip_blank(line, 0);
    at(line, i, bytes::text("linux ")) || at(line, i, bytes::text("linux\t")) || at(
        line,
        i,
        bytes::text("linuxefi "),
    ) || at(line, i, bytes::text("linuxefi\t"))
}

pub open spec fn is_initrd(line: Seq<u8>) -> bool {
    let i = skip_blank(line, 0);
    at(line, i, bytes::text("initrd ")) || at(line, i, bytes::text("initrd\t")) || at(
        line,
        i,
        bytes::text("initrdefi "),
    ) || at(line, i, bytes::text("initrdefi\t"))
}

/// The length of the name of the locator argument at `i`; 0 where none is.
pub open spec fn locator_at(s: Seq<u8>, i: int) -> int {
    if at(s, i, bytes::text("findiso=")) {
        bytes::text("findiso=").len() as int
    } else if at(s, i, bytes::text("iso-scan/filename=")) {
        bytes::text("iso-scan/filename=").len() as int
    } else if at(s, i, bytes::text("choosable.iso_offset=")) {
        bytes::text("choosable.iso_offset=").len() as int
    } else {
        0
    }
}

/// `s` from `i` on without its locator arguments and the blanks behind them.
pub open spec fn stripped(s: Seq<u8>, i: int) -> Seq<u8>
    decreases s.len() - i,
{
    if i < 0 || i >= s.len() {
        Seq::empty()
    } else {
        let n = locator_at(s, i);
        let next = skip_blank(s, word_end(s, i + n));
        if n > 0 && i < next <= s.len() {
            stripped(s, next)
        } else {
            seq![s[i]] + stripped(s, i + 1)
        }
    }
}

/// Where something is added to an initrd line: before its line ending.
pub open spec fn before_line_ending(line: Seq<u8>) -> int {
    let n = line.len() as int;
    if n > 0 && line[n - 1] == LF {
        if n > 1 && line[n - 2] == CR {
            n - 2
        } else {
            n - 1
        }
    } else {
        n
    }
}

pub open spec fn inserted(s: Seq<u8>, i: int, t: Seq<u8>) -> Seq<u8> {
    s.subrange(0, i) + t + s.subrange(i, s.len() as int)
}

impl Patch {
    /// The premount archive as a path.
    pub open spec fn target_path(&self) -> Seq<u8> {
        seq![0x2Fu8] + self.target
    }

    pub open spec fn patches_linux(&self, line: Seq<u8>) -> bool {
        is_linux(line) && self.extra.len() > 0 && !contains(line, self.extra)
    }

    pub open spec fn patches_initrd(&self, line: Seq<u8>) -> bool {
        is_initrd(line) && self.target_path().len() <= line.len() && !contains(
            line,
            self.target_path(),
        )
    }

    /// A linux line that lacks the arguments gets them behind the kernel's
    /// path, in place of any locator arguments of its own; an initrd line that
    /// lacks the archive gets it at its end.
    pub open spec fn line(&self, line: Seq<u8>) -> Seq<u8> {
        if self.patches_linux(line) {
            let base = if self.eol.len() > 0 {
                stripped(line, 0)
            } else {
                line
            };
            inserted(base, second_arg_end(base), self.extra + self.eol)
        } else if self.patches_initrd(line) {
            inserted(line, before_line_ending(line), seq![SPACE] + self.target_path())
        } else {
            line
        }
    }

    /// The lines of `s` from `i` on, each patched.
    pub open spec fn lines(&self, s: Seq<u8>, i: int) -> Seq<u8>
        decreases s.len() - i,
        via Self::lines_decreases
    {
        if i < 0 || i >= s.len() {
            Seq::empty()
        } else {
            self.line(s.subrange(i, line_end(s, i))) + self.lines(s, line_end(s, i))
        }
    }

    #[via_fn]
    proof fn lines_decreases(&self, s: Seq<u8>, i: int) {
        if 0 <= i < s.len() {
            line_end_bounds(s, i);
        }
    }
}

pub proof fn skip_blank_bounds(s: Seq<u8>, i: int)
    requires
        0 <= i <= s.len(),
    ensures
        i <= skip_blank(s, i) <= s.len(),
        skip_blank(s, i) < s.len() ==> !is_blank(s[skip_blank(s, i)]),
        forall|k: int| i <= k < skip_blank(s, i) ==> is_blank(#[trigger] s[k]),
    decreases s.len() - i,
{
    if i < s.len() && is_blank(s[i]) {
        skip_blank_bounds(s, i + 1);
    }
}

pub proof fn word_end_bounds(s: Seq<u8>, i: int)
    requires
        0 <= i <= s.len(),
    ensures
        i <= word_end(s, i) <= s.len(),
        word_end(s, i) < s.len() ==> ends_word(s[word_end(s, i)]),
        forall|k: int| i <= k < word_end(s, i) ==> !ends_word(#[trigger] s[k]),
    decreases s.len() - i,
{
    if i < s.len() && !ends_word(s[i]) {
        word_end_bounds(s, i + 1);
    }
}

pub proof fn line_end_bounds(s: Seq<u8>, i: int)
    requires
        0 <= i < s.len(),
    ensures
        i < line_end(s, i) <= s.len(),
        forall|k: int| i <= k < line_end(s, i) - 1 ==> #[trigger] s[k] != LF,
        line_end(s, i) < s.len() ==> s[line_end(s, i) - 1] == LF,
    decreases s.len() - i,
{
    reveal_with_fuel(line_end, 2);
    if s[i] != LF && i + 1 < s.len() {
        line_end_bounds(s, i + 1);
    }
}

// ---------------------------------------------------------------------------
// Code
// ---------------------------------------------------------------------------

#[verifier::loop_isolation(false)]
fn find_nonblank(s: &[u8], from: usize) -> (r: usize)
    requires
        from <= s@.len(),
    ensures
        r == skip_blank(s@, from as int),
        from <= r <= s@.len(),
{
    let mut i: usize = from;
    while i < s.len() && (s[i] == SPACE || s[i] == TAB)
        invariant
            from <= i <= s@.len(),
            skip_blank(s@, from as int) == skip_blank(s@, i as int),
        decreases s@.len() - i,
    {
        i += 1;
    }
    i
}

#[verifier::loop_isolation(false)]
fn find_word_end(s: &[u8], from: usize) -> (r: usize)
    requires
        from <= s@.len(),
    ensures
        r == word_end(s@, from as int),
        from <= r <= s@.len(),
{
    let mut i: usize = from;
    while i < s.len() && s[i] != SPACE && s[i] != TAB && s[i] != LF && s[i] != CR
        invariant
            from <= i <= s@.len(),
            word_end(s@, from as int) == word_end(s@, i as int),
        decreases s@.len() - i,
    {
        i += 1;
    }
    i
}

#[verifier::loop_isolation(false)]
fn find_line_end(s: &[u8], from: usize) -> (r: usize)
    requires
        from < s@.len(),
    ensures
        r == line_end(s@, from as int),
        from < r <= s@.len(),
{
    let mut i: usize = from;
    while i < s.len()
        invariant
            from <= i <= s@.len(),
            line_end(s@, from as int) == line_end(s@, i as int),
        decreases s@.len() - i,
    {
        if s[i] == LF {
            return i + 1;
        }
        i += 1;
    }
    i
}

/// The end of the second word of a line.
pub fn find_second_arg_end(line: &[u8]) -> (r: usize)
    ensures
        r == second_arg_end(line@),
        r <= line@.len(),
{
    let pos: usize = find_nonblank(line, 0);
    let pos: usize = find_word_end(line, pos);
    let pos: usize = find_nonblank(line, pos);
    find_word_end(line, pos)
}

fn starts_at(s: &[u8], i: usize, p: &[u8]) -> (r: bool)
    requires
        i <= s@.len(),
    ensures
        r == at(s@, i as int, p@),
{
    if s.len() - i < p.len() {
        return false;
    }
    bytes_eq(&s[i..i + p.len()], p)
}

#[verifier::loop_isolation(false)]
fn has_part(s: &[u8], p: &[u8]) -> (r: bool)
    ensures
        r == contains(s@, p@),
{
    let mut i: usize = 0;
    while i <= s.len() && s.len() - i >= p.len()
        invariant
            i <= s@.len() + 1,
            forall|j: int| 0 <= j < i ==> !at(s@, j, p@),
        decreases s@.len() + 1 - i,
    {
        if starts_at(s, i, p) {
            return true;
        }
        if i == s.len() {
            return false;
        }
        i += 1;
    }
    false
}

fn is_linux_line(line: &[u8]) -> (r: bool)
    ensures
        r == is_linux(line@),
{
    let i: usize = find_nonblank(line, 0);
    starts_at(line, i, "linux ".as_bytes()) || starts_at(line, i, "linux\t".as_bytes())
        || starts_at(line, i, "linuxefi ".as_bytes()) || starts_at(line, i, "linuxefi\t".as_bytes())
}

fn is_initrd_line(line: &[u8]) -> (r: bool)
    ensures
        r == is_initrd(line@),
{
    let i: usize = find_nonblank(line, 0);
    starts_at(line, i, "initrd ".as_bytes()) || starts_at(line, i, "initrd\t".as_bytes())
        || starts_at(line, i, "initrdefi ".as_bytes()) || starts_at(
        line,
        i,
        "initrdefi\t".as_bytes(),
    )
}

pub open spec fn count_linux(s: Seq<u8>, i: int) -> nat
    decreases s.len() - i,
    via count_linux_decreases
{
    if i < 0 || i >= s.len() {
        0
    } else {
        (if is_linux(s.subrange(i, line_end(s, i))) {
            1nat
        } else {
            0
        }) + count_linux(s, line_end(s, i))
    }
}

pub open spec fn count_initrd(s: Seq<u8>, i: int) -> nat
    decreases s.len() - i,
    via count_initrd_decreases
{
    if i < 0 || i >= s.len() {
        0
    } else {
        (if !is_linux(s.subrange(i, line_end(s, i))) && is_initrd(
            s.subrange(i, line_end(s, i)),
        ) {
            1nat
        } else {
            0
        }) + count_initrd(s, line_end(s, i))
    }
}

#[via_fn]
proof fn count_linux_decreases(s: Seq<u8>, i: int) {
    if 0 <= i < s.len() {
        line_end_bounds(s, i);
    }
}

#[via_fn]
proof fn count_initrd_decreases(s: Seq<u8>, i: int) {
    if 0 <= i < s.len() {
        line_end_bounds(s, i);
    }
}

/// How many linux and how many initrd lines there are.
#[verifier::loop_isolation(false)]
pub fn count_matching_lines(orig: &[u8]) -> (r: (usize, usize))
    ensures
        r.0 == count_linux(orig@, 0),
        r.1 == count_initrd(orig@, 0),
        r.0 + r.1 <= orig@.len(),
{
    let mut linux: usize = 0;
    let mut initrd: usize = 0;
    let mut i: usize = 0;
    while i < orig.len()
        invariant
            i <= orig@.len(),
            linux + initrd <= i,
            count_linux(orig@, 0) == linux + count_linux(orig@, i as int),
            count_initrd(orig@, 0) == initrd + count_initrd(orig@, i as int),
        decreases orig@.len() - i,
    {
        let end: usize = find_line_end(orig, i);
        let line: &[u8] = &orig[i..end];
        if is_linux_line(line) {
            linux += 1;
        } else if is_initrd_line(line) {
            initrd += 1;
        }
        i = end;
    }
    (linux, initrd)
}

/// `line` with `data` inserted at `inject_at`.
pub fn shift_and_inject(line: &[u8], inject_at: usize, data: &[u8]) -> (r: Vec<u8>)
    requires
        inject_at <= line@.len(),
    ensures
        r@ == inserted(line@, inject_at as int, data@),
{
    let mut out: Vec<u8> = slice_vec(line, 0, inject_at);
    push_all(&mut out, data);
    push_all(&mut out, &line[inject_at..line.len()]);
    assert(out@ =~= inserted(line@, inject_at as int, data@));
    out
}

fn find_locator(line: &[u8], i: usize) -> (r: usize)
    requires
        i <= line@.len(),
    ensures
        r == locator_at(line@, i as int),
        i + r <= line@.len(),
{
    let a: &[u8] = "findiso=".as_bytes();
    let b: &[u8] = "iso-scan/filename=".as_bytes();
    let c: &[u8] = "choosable.iso_offset=".as_bytes();
    if starts_at(line, i, a) {
        a.len()
    } else if starts_at(line, i, b) {
        b.len()
    } else if starts_at(line, i, c) {
        c.len()
    } else {
        0
    }
}

/// `line` without its locator arguments.
#[verifier::loop_isolation(false)]
pub fn remove_iso_locator_args(line: &[u8]) -> (r: Vec<u8>)
    ensures
        r@ == stripped(line@, 0),
{
    let mut out: Vec<u8> = Vec::new();
    let mut i: usize = 0;
    assert(out@ + stripped(line@, 0) =~= stripped(line@, 0));
    while i < line.len()
        invariant
            i <= line@.len(),
            stripped(line@, 0) == out@ + stripped(line@, i as int),
        decreases line@.len() - i,
    {
        let n: usize = find_locator(line, i);
        if n > 0 {
            let end: usize = find_word_end(line, i + n);
            i = find_nonblank(line, end);
        } else {
            let ghost before = out@;
            out.push(line[i]);
            assert(before + (seq![line@[i as int]] + stripped(line@, i + 1)) =~= out@ + stripped(
                line@,
                i + 1,
            ));
            i += 1;
        }
    }
    assert(out@ + Seq::<u8>::empty() =~= out@);
    out
}

fn patch_line(line: &[u8], extra: &[u8], eol: &[u8], target: &[u8]) -> (r: Vec<u8>)
    requires
        target@.len() <= TARGET_MAX,
    ensures
        r@ == (Patch { extra: extra@, eol: eol@, target: target@ }).line(line@),
{
    let ghost p = Patch { extra: extra@, eol: eol@, target: target@ };
    if is_linux_line(line) && extra.len() > 0 && !has_part(line, extra) {
        let mut both: Vec<u8> = slice_vec(extra, 0, extra.len());
        push_all(&mut both, eol);
        assert(both@ =~= extra@ + eol@);
        if eol.len() > 0 {
            let base: Vec<u8> = remove_iso_locator_args(line);
            let inject_at: usize = find_second_arg_end(&base);
            shift_and_inject(&base, inject_at, &both)
        } else {
            let inject_at: usize = find_second_arg_end(line);
            shift_and_inject(line, inject_at, &both)
        }
    } else {
        let mut path: Vec<u8> = Vec::new();
        path.push(0x2F);
        push_all(&mut path, target);
        assert(path@ =~= p.target_path());
        if is_initrd_line(line) && path.len() <= line.len() && !has_part(line, &path) {
            let n: usize = line.len();
            let mut inject_at: usize = n;
            if n > 0 && line[n - 1] == LF {
                inject_at = n - 1;
                if n > 1 && line[n - 2] == CR {
                    inject_at = n - 2;
                }
            }
            let mut data: Vec<u8> = Vec::new();
            data.push(SPACE);
            push_all(&mut data, &path);
            assert(data@ =~= seq![SPACE] + p.target_path());
            shift_and_inject(line, inject_at, &data)
        } else {
            let r: Vec<u8> = slice_vec(line, 0, line.len());
            assert(r@ =~= line@);
            r
        }
    }
}

/// The name under which the premount archive is injected.
pub open spec fn effective_target(name: Seq<u8>) -> Seq<u8> {
    let t = if name.len() == 0 {
        bytes::text("PREMOUNT.CPIO")
    } else {
        name
    };
    t.take(bytes::min_int(t.len() as int, TARGET_MAX as int))
}

/// The locator argument: a bare name gets the path, the file name or the
/// offset of the image; without a location it is left out.
pub open spec fn eol_argument(eol: Seq<u8>, loc: Option<IsoLocation>) -> Seq<u8> {
    if eol.len() > 0 && eol.last() == 0x3D {
        match loc {
            None => Seq::empty(),
            Some(l) => {
                let value = if eol == bytes::text(" findiso=") {
                    l.spec_path()
                } else if eol == bytes::text(" iso-scan/filename=") {
                    locator::last_component(l.spec_path())
                } else {
                    digits::decimal(((l.iso_lba - l.part1_lba) * 512) as nat)
                };
                eol + value.take(bytes::min_int(value.len() as int, EOL_MAX - eol.len()))
            },
        }
    } else {
        eol
    }
}

fn build_eol(eol: &[u8], loc: Option<&IsoLocation>) -> (r: Vec<u8>)
    requires
        eol@.len() <= EOL_MAX,
        loc matches Some(l) ==> l.wf() && boot_kind::offset_fits(*l),
    ensures
        r@ == eol_argument(eol@, boot_kind::opt_loc(loc)),
        r@.len() <= EOL_MAX,
{
    let n: usize = eol.len();
    if n == 0 || eol[n - 1] != 0x3D {
        let r: Vec<u8> = slice_vec(eol, 0, n);
        assert(r@ =~= eol@);
        return r;
    }
    match loc {
        None => Vec::new(),
        Some(l) => {
            let value: Vec<u8> = if bytes_eq(eol, " findiso=".as_bytes()) {
                let p: &[u8] = l.path();
                let v: Vec<u8> = slice_vec(p, 0, p.len());
                assert(v@ =~= p@);
                v
            } else if bytes_eq(eol, " iso-scan/filename=".as_bytes()) {
                let p: &[u8] = l.file_name();
                let v: Vec<u8> = slice_vec(p, 0, p.len());
                assert(v@ =~= p@);
                v
            } else {
                decimal_text(l.offset_bytes())
            };
            let room: usize = EOL_MAX - n;
            let take: usize = if value.len() < room {
                value.len()
            } else {
                room
            };
            let mut r: Vec<u8> = slice_vec(eol, 0, n);
            let v: &[u8] = &value;
            push_all(&mut r, &v[0..take]);
            assert(r@ =~= eol@ + value@.take(take as int));
            r
        },
    }
}

/// Patches every line of a configuration.
#[verifier::loop_isolation(false)]
pub fn patch_grub_cfg_impl(
    original: &[u8],
    linux_extra: &[u8],
    linux_eol_extra: &[u8],
    iso_location: Option<&IsoLocation>,
    premount_target_name: &[u8],
) -> (r: PatchOutput)
    requires
        linux_eol_extra@.len() <= EOL_MAX,
        iso_location matches Some(l) ==> l.wf() && boot_kind::offset_fits(*l),
    ensures
        r.buf@ == (Patch {
            extra: linux_extra@,
            eol: eol_argument(linux_eol_extra@, boot_kind::opt_loc(iso_location)),
            target: effective_target(premount_target_name@),
        }).lines(original@, 0),
        r.size == r.buf@.len(),
{
    let name: &[u8] = if premount_target_name.len() == 0 {
        "PREMOUNT.CPIO".as_bytes()
    } else {
        premount_target_name
    };
    let n: usize = if name.len() < TARGET_MAX {
        name.len()
    } else {
        TARGET_MAX
    };
    let target: &[u8] = &name[0..n];
    assert(target@ =~= effective_target(premount_target_name@));
    let eol: Vec<u8> = build_eol(linux_eol_extra, iso_location);
    let ghost p = Patch { extra: linux_extra@, eol: eol@, target: target@ };
    let mut out: Vec<u8> = Vec::new();
    let mut i: usize = 0;
    assert(out@ + p.lines(original@, 0) =~= p.lines(original@, 0));
    while i < original.len()
        invariant
            i <= original@.len(),
            p.lines(original@, 0) == out@ + p.lines(original@, i as int),
        decreases original@.len() - i,
    {
        let end: usize = find_line_end(original, i);
        let line: Vec<u8> = patch_line(&original[i..end], linux_extra, &eol, target);
        let ghost before = out@;
        push_all(&mut out, &line);
        assert(before + (line@ + p.lines(original@, end as int)) =~= out@ + p.lines(
            original@,
            end as int,
        ));
        i = end;
    }
    assert(out@ + Seq::<u8>::empty() =~= out@);
    let size: usize = out.len();
    PatchOutput { buf: out, size }
}

/// Whether `p` stands somewhere in `name`, where `name` is read with the bit set
/// that makes upper-case letters lower-case ones.
pub open spec fn contains_lower(name: Seq<u8>, p: Seq<u8>) -> bool {
    exists|i: int| lower_at(name, i, p)
}

pub open spec fn lower_at(name: Seq<u8>, i: int, p: Seq<u8>) -> bool {
    &&& 0 <= i
    &&& i + p.len() <= name.len()
    &&& forall|k: int| 0 <= k < p.len() ==> (name[i + k] | 0x20) == #[trigger] p[k]
}

#[verifier::loop_isolation(false)]
fn matches_at(name: &[u8], i: usize, p: &[u8]) -> (r: bool)
    requires
        i + p@.len() <= name@.len(),
    ensures
        r == lower_at(name@, i as int, p@),
{
    let mut k: usize = 0;
    while k < p.len()
        invariant
            k <= p@.len(),
            forall|j: int| 0 <= j < k ==> (name@[i + j] | 0x20) == #[trigger] p@[j],
        decreases p@.len() - k,
    {
        assert(name.len() <= usize::MAX);
        if (name[i + k] | 0x20) != p[k] {
            return false;
        }
        k += 1;
    }
    true
}

#[verifier::loop_isolation(false)]
fn matches_lower(name: &[u8], p: &[u8]) -> (r: bool)
    ensures
        r == contains_lower(name@, p@),
{
    if name.len() < p.len() {
        return false;
    }
    let last: usize = name.len() - p.len();
    let mut i: usize = 0;
    loop
        invariant
            i <= last,
            forall|j: int| 0 <= j < i ==> !lower_at(name@, j, p@),
        decreases last - i,
    {
        if matches_at(name, i, p) {
            return true;
        }
        if i == last {
            return false;
        }
        i += 1;
    }
}

/// Whether any of the lower-case patterns stands somewhere in `name`.
#[verifier::loop_isolation(false)]
pub fn matches_any_lower(name: &[u8], patterns: &[&str]) -> (r: bool)
    ensures
        r == exists|k: int|
            0 <= k < patterns@.len() && contains_lower(
                name@,
                #[trigger] bytes::text(patterns@[k]),
            ),
{
    let mut k: usize = 0;
    while k < patterns.len()
        invariant
            k <= patterns@.len(),
            forall|j: int|
                0 <= j < k ==> !contains_lower(name@, #[trigger] bytes::text(patterns@[j])),
        decreases patterns@.len() - k,
    {
        if matches_lower(name, patterns[k].as_bytes()) {
            assert(contains_lower(name@, bytes::text(patterns@[k as int])));
            return true;
        }
        k += 1;
    }
    false
}

/// Whether an image of the Casper family is a Pop!_OS one, by its name.
pub open spec fn is_popos(kind: BootKind, iso_name: Seq<u8>) -> bool {
    kind == BootKind::Casper && (contains_lower(iso_name, bytes::text("pop")) || contains_lower(
        iso_name,
        bytes::text("pop-os"),
    ) || contains_lower(iso_name, bytes::text("popos")))
}

/// The room that linux arguments are built in.
pub const EXTRA_ROOM: usize = 1024;

/// What gets injected for an image of that family at that location; `None`
/// where the arguments are too long.
pub open spec fn patch_for(
    kind: BootKind,
    iso_name: Seq<u8>,
    loc: Option<IsoLocation>,
    target: Seq<u8>,
) -> Option<Patch> {
    match kind.extra(is_popos(kind, iso_name), loc, EXTRA_ROOM as int) {
        None => None,
        Some(extra) => Some(
            Patch {
                extra,
                eol: eol_argument(kind.spec_eol(), loc),
                target: effective_target(target),
            },
        ),
    }
}

/// Patches a configuration for an image of that family at that location.
pub fn patch_grub_cfg(
    original: &[u8],
    boot_kind: BootKind,
    iso_name: &[u8],
    iso_location: Option<&IsoLocation>,
    premount_target_name: &[u8],
) -> (r: Option<PatchOutput>)
    requires
        iso_location matches Some(l) ==> l.wf() && boot_kind::offset_fits(*l),
    ensures
        ({
            let patch = patch_for(
                boot_kind,
                iso_name@,
                boot_kind::opt_loc(iso_location),
                premount_target_name@,
            );
            match patch {
                None => r is None,
                Some(p) => r matches Some(o) && o.buf@ == p.lines(original@, 0) && o.size
                    == o.buf@.len(),
            }
        }),
{
    let names: [&str; 3] = ["pop", "pop-os", "popos"];
    let casper: bool = matches!(boot_kind, BootKind::Casper);
    let is_pop: bool = casper && matches_any_lower(iso_name, &names);
    assert(is_pop == is_popos(boot_kind, iso_name@)) by {
        assert(names@[0] == "pop" && names@[1] == "pop-os" && names@[2] == "popos");
        if is_popos(boot_kind, iso_name@) {
            if contains_lower(iso_name@, bytes::text("pop")) {
                assert(contains_lower(iso_name@, bytes::text(names@[0])));
            } else if contains_lower(iso_name@, bytes::text("pop-os")) {
                assert(contains_lower(iso_name@, bytes::text(names@[1])));
            } else {
                assert(contains_lower(iso_name@, bytes::text(names@[2])));
            }
        }
    }
    let mut buf: [u8; 1024] = [0; 1024];
    let eol: &[u8] = boot_kind.linux_eol_extra();
    proof {
        eol_short(boot_kind);
    }
    match boot_kind.linux_extra(is_pop, iso_location, &mut buf) {
        None => None,
        Some(extra) => Some(
            patch_grub_cfg_impl(original, extra, eol, iso_location, premount_target_name),
        ),
    }
}

proof fn eol_short(kind: BootKind)
    ensures
        kind.spec_eol().len() <= EOL_MAX,
{
    reveal_strlit(" iso-scan/filename=");
    reveal_strlit(" findiso=");
    reveal_strlit("");
    vstd::string::is_ascii_spec_bytes(" iso-scan/filename=");
    vstd::string::is_ascii_spec_bytes(" findiso=");
    vstd::string::is_ascii_spec_bytes("");
}

} // verus!
