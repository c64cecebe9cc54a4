//! Root directories of exFAT volumes.

use vstd::prelude::*;
use crate::bytes;
use crate::bytes::{le16, le32, le64, push_all, push_repeat, slice_vec};
use crate::scan::chain;
use crate::scan::chain::{cluster_lba, Geometry};
use crate::scan::found;
use crate::scan::found::{has_bootable_name, list_file, FoundFile, FileView};

verus! {

/// The longest tail of a sector that is kept for an entry set that continues
/// in the next sector.
pub const CARRY_MAX: usize = 608;

pub const ENTRY_FILE: u8 = 0x85;

pub const ENTRY_STREAM: u8 = 0xC0;

pub const ENTRY_NAME: u8 = 0xC1;

/// What a NUL inside a name entry means: the characters up to the announced
/// length stay as zero bytes, or the name closes up over them.
#[derive(Clone, Copy, PartialEq, Eq, Structural, Debug)]
pub enum NameRule {
    Gapped,
    Packed,
}

/// What one sector of a directory contributes: the list so far, the tail that
/// belongs to the next sector, and whether the directory ends here.
pub struct Block {
    pub files: Seq<FileView>,
    pub carry: Seq<u8>,
    pub end: bool,
}

pub open spec fn ascii_of(unit: u16) -> u8 {
    if unit < 0x80 {
        unit as u8
    } else {
        0x3F
    }
}

/// The first `n` UTF-16 units at `at` up to a NUL, with `?` for what is not
/// ASCII.
pub open spec fn utf16_text(s: Seq<u8>, at: int, n: nat) -> Seq<u8>
    decreases n,
{
    if n == 0 || bytes::spec_le16(s, at) == 0 {
        Seq::empty()
    } else {
        seq![ascii_of(bytes::spec_le16(s, at))] + utf16_text(s, at + 2, (n - 1) as nat)
    }
}

/// What a name entry adds when `n` of its units are wanted.
pub open spec fn name_chunk(rule: NameRule, s: Seq<u8>, at: int, n: nat) -> Seq<u8> {
    let t = utf16_text(s, at, n);
    match rule {
        NameRule::Packed => t,
        NameRule::Gapped => t + bytes::zeros((n - t.len()) as nat),
    }
}

/// How many units of the next name entry are wanted.
pub open spec fn name_room(name_len: int, have: int) -> int {
    bytes::min_int(
        bytes::min_int(if name_len >= have {
            name_len - have
        } else {
            0
        }, 15),
        256 - have,
    )
}

/// The name spelled by up to `ents` name entries at `at`, after `name`.
pub open spec fn set_name(
    rule: NameRule,
    s: Seq<u8>,
    at: int,
    ents: nat,
    name_len: int,
    name: Seq<u8>,
) -> Seq<u8>
    decreases ents,
{
    let n = name_room(name_len, name.len() as int);
    if ents == 0 || s[at] != ENTRY_NAME || n <= 0 {
        name
    } else {
        set_name(
            rule,
            s,
            at + 32,
            (ents - 1) as nat,
            name_len,
            name + name_chunk(rule, s, at + 2, n as nat),
        )
    }
}

/// The file described by the entry set at entry `pos`.
pub open spec fn set_file(g: Geometry, rule: NameRule, s: Seq<u8>, pos: int) -> FileView {
    let stream = (pos + 1) * 32;
    FileView {
        name: set_name(
            rule,
            s,
            (pos + 2) * 32,
            (s[pos * 32 + 1] - 1) as nat,
            s[stream + 3] as int,
            Seq::empty(),
        ),
        lba: chain::spec_cluster_lba(g, bytes::spec_le32(s, stream + 20), 0),
        size: bytes::spec_le64(s, stream + 24),
    }
}

/// Adds `file` to the list if it can be booted and there is room.
pub open spec fn list_bootable(files: Seq<FileView>, limit: nat, file: FileView) -> Seq<FileView> {
    if found::is_bootable(file.name) {
        found::listed(files, limit, file)
    } else {
        files
    }
}

/// The entries of `s` from entry `pos` on. A zero entry ends the directory; a
/// file entry is followed by its secondary entries, and a set that does not
/// end in `s` is carried over if it is short enough.
pub open spec fn block(
    g: Geometry,
    rule: NameRule,
    limit: nat,
    s: Seq<u8>,
    pos: int,
    files: Seq<FileView>,
) -> Block
    decreases s.len() - pos,
{
    let n = s.len() / 32;
    if pos >= n {
        Block { files, carry: Seq::empty(), end: false }
    } else if s[pos * 32] == 0 {
        Block { files, carry: Seq::empty(), end: true }
    } else if s[pos * 32] != ENTRY_FILE || s[pos * 32 + 1] == 0 {
        block(g, rule, limit, s, pos + 1, files)
    } else {
        let set = 1 + s[pos * 32 + 1];
        if pos + set > n {
            let rest = s.subrange(pos * 32, s.len() as int);
            Block {
                files,
                carry: if rest.len() <= CARRY_MAX {
                    rest
                } else {
                    Seq::empty()
                },
                end: false,
            }
        } else if s[(pos + 1) * 32] != ENTRY_STREAM {
            block(g, rule, limit, s, pos + set, files)
        } else {
            block(
                g,
                rule,
                limit,
                s,
                pos + set,
                list_bootable(files, limit, set_file(g, rule, s, pos)),
            )
        }
    }
}

/// Decodes UTF-16 text of at most `max_bytes` bytes into at most `room` ASCII
/// characters.
#[verifier::loop_isolation(false)]
pub fn utf16le_to_ascii(src: &[u8], max_bytes: usize, room: usize) -> (r: Vec<u8>)
    ensures
        r@ == utf16_text(
            src@,
            0,
            bytes::min_int(bytes::min_int(src@.len() as int, max_bytes as int) / 2, room as int) as nat,
        ),
        r@.len() <= bytes::min_int(bytes::min_int(src@.len() as int, max_bytes as int) / 2, room as int),
{
    let limit: usize = if src.len() < max_bytes {
        src.len()
    } else {
        max_bytes
    };
    let n: usize = if limit / 2 < room {
        limit / 2
    } else {
        room
    };
    let mut out: Vec<u8> = Vec::new();
    let mut i: usize = 0;
    while i < n
        invariant
            i <= n,
            n <= limit / 2,
            limit <= src@.len(),
            out@.len() == i,
            utf16_text(src@, 0, n as nat) == out@ + utf16_text(src@, 2 * i, (n - i) as nat),
        decreases n - i,
    {
        let unit: u16 = le16(src, 2 * i);
        if unit == 0 {
            assert(out@ + Seq::<u8>::empty() =~= out@);
            return out;
        }
        let ghost before = out@;
        out.push(if unit < 0x80 {
            unit as u8
        } else {
            0x3F
        });
        assert(before + (seq![ascii_of(unit)] + utf16_text(src@, 2 * i + 2, (n - i - 1) as nat))
            =~= out@ + utf16_text(src@, 2 * i + 2, (n - i - 1) as nat));
        i += 1;
    }
    assert(out@ + Seq::<u8>::empty() =~= out@);
    out
}

/// Text depends only on the bytes it is read from.
pub proof fn utf16_text_shift(s: Seq<u8>, t: Seq<u8>, at: int, i: int, n: nat)
    requires
        0 <= i,
        forall|k: int| 0 <= k < t.len() ==> t[k] == s[at + k],
        i + 2 * n <= t.len(),
    ensures
        utf16_text(s, at + i, n) == utf16_text(t, i, n),
    decreases n,
{
    if n > 0 {
        utf16_text_shift(s, t, at, i + 2, (n - 1) as nat);
        assert(t[i] == s[at + i]);
        assert(t[i + 1] == s[at + (i + 1)]);
    }
}

fn read_chunk(rule: NameRule, s: &[u8], at: usize, n: usize) -> (r: Vec<u8>)
    requires
        at + 2 * n <= s@.len(),
        n <= 15,
    ensures
        r@ == name_chunk(rule, s@, at as int, n as nat),
        r@.len() <= n,
{
    let src: &[u8] = &s[at..s.len()];
    let mut out: Vec<u8> = utf16le_to_ascii(src, 2 * n, n);
    proof {
        utf16_text_shift(s@, src@, at as int, 0, n as nat);
    }
    match rule {
        NameRule::Packed => {},
        NameRule::Gapped => {
            let gap: usize = n - out.len();
            push_repeat(&mut out, 0, gap);
            assert(bytes::zeros(gap as nat) =~= Seq::new(gap as nat, |i: int| 0u8));
        },
    }
    out
}

fn read_name(rule: NameRule, s: &[u8], at: usize, ents: usize, name_len: usize) -> (r: Vec<u8>)
    requires
        at + 32 * ents <= s@.len(),
        name_len <= 255,
    ensures
        r@ == set_name(rule, s@, at as int, ents as nat, name_len as int, Seq::empty()),
        r@.len() <= 255,
{
    let mut name: Vec<u8> = Vec::new();
    let mut i: usize = 0;
    while i < ents
        invariant
            i <= ents,
            at + 32 * ents <= s@.len(),
            name_len <= 255,
            name@.len() <= name_len,
            set_name(rule, s@, at as int, ents as nat, name_len as int, Seq::empty()) == set_name(
                rule,
                s@,
                at + 32 * i,
                (ents - i) as nat,
                name_len as int,
                name@,
            ),
        decreases ents - i,
    {
        assert(s.len() <= usize::MAX);
        let here: usize = at + 32 * i;
        let left: usize = name_len - name.len();
        let n: usize = if left < 15 {
            left
        } else {
            15
        };
        assert(n == name_room(name_len as int, name@.len() as int));
        if s[here] != ENTRY_NAME || n == 0 {
            return name;
        }
        let chunk: Vec<u8> = read_chunk(rule, s, here + 2, n);
        push_all(&mut name, &chunk);
        i += 1;
    }
    name
}

/// Lists the bootable files whose entry sets end in `carry` followed by `sector`.
/// Returns whether the directory ends there.
#[verifier::loop_isolation(false)]
pub fn scan_exfat_sector(
    g: &Geometry,
    rule: NameRule,
    limit: usize,
    carry: &mut Vec<u8>,
    sector: &[u8; 512],
    files: &mut Vec<FoundFile>,
) -> (end: bool)
    requires
        old(carry)@.len() <= CARRY_MAX,
        found::all_wf(old(files)@),
    ensures
        final(carry)@.len() <= CARRY_MAX,
        found::all_wf(final(files)@),
        (Block { files: found::views(final(files)@), carry: final(carry)@, end }) == block(
            *g,
            rule,
            limit as nat,
            old(carry)@ + sector@,
            0,
            found::views(old(files)@),
        ),
{
    let mut data: Vec<u8> = slice_vec(carry, 0, carry.len());
    push_all(&mut data, sector);
    assert(data@ =~= carry@ + sector@);
    let ghost whole = block(*g, rule, limit as nat, data@, 0, found::views(files@));
    carry.clear();
    let s: &[u8] = &data;
    let n: usize = s.len() / 32;
    let mut pos: usize = 0;
    while pos < n
        invariant
            pos <= n,
            s@.len() <= CARRY_MAX + 512,
            n == s@.len() / 32,
            s@ == data@,
            carry@ == Seq::<u8>::empty(),
            found::all_wf(files@),
            whole == block(*g, rule, limit as nat, s@, pos as int, found::views(files@)),
        decreases n - pos,
    {
        let kind: u8 = s[pos * 32];
        if kind == 0 {
            return true;
        }
        let secondaries: usize = s[pos * 32 + 1] as usize;
        if kind != ENTRY_FILE || secondaries == 0 {
            pos += 1;
            continue;
        }
        let set: usize = 1 + secondaries;
        if pos + set > n {
            if s.len() - pos * 32 <= CARRY_MAX {
                push_all(carry, &s[pos * 32..s.len()]);
                assert(carry@ =~= s@.subrange(pos * 32, s@.len() as int));
            }
            return false;
        }
        let stream: usize = (pos + 1) * 32;
        if s[stream] == ENTRY_STREAM {
            let name: Vec<u8> = read_name(
                rule,
                s,
                (pos + 2) * 32,
                secondaries - 1,
                s[stream + 3] as usize,
            );
            let lba: u64 = cluster_lba(g, le32(s, stream + 20), 0);
            let size: u64 = le64(s, stream + 24);
            if has_bootable_name(&name) {
                list_file(files, limit, &name, lba, size);
            }
        }
        pos += set;
    }
    false
}

} // verus!
