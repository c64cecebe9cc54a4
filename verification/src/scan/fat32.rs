//! Root directories of FAT32 volumes.

use vstd::prelude::*;
use crate::bytes;
use crate::bytes::{le16, le32, push_all, slice_vec};
use crate::scan::chain;
use crate::scan::chain::{cluster_lba, Geometry};
use crate::scan::exfat;
use crate::scan::found;
use crate::scan::found::{has_bootable_name, list_file, FileView, FoundFile};

verus! {

pub const ATTR_LONG_NAME: u8 = 0x0F;

/// The two readers of FAT32 directories: one assembles long names, the other
/// goes by the 8.3 names alone.
#[derive(Clone, Copy, PartialEq, Eq, Structural, Debug)]
pub enum Fat32Rule {
    LongNames,
    ShortNames,
}

/// A long name under assembly. Its parts come last part first.
#[derive(Clone, Copy)]
pub struct LongName {
    pub buf: [u8; 256],
    pub len: usize,
    pub seq: u8,
    pub checksum: u8,
}

pub struct LongNameView {
    pub buf: Seq<u8>,
    pub len: int,
    pub seq: u8,
    pub checksum: u8,
}

impl View for LongName {
    type V = LongNameView;

    open spec fn view(&self) -> LongNameView {
        LongNameView {
            buf: self.buf@,
            len: self.len as int,
            seq: self.seq,
            checksum: self.checksum,
        }
    }
}

/// What a directory sector leaves behind.
pub struct Sector {
    pub name: LongNameView,
    pub files: Seq<FileView>,
    pub end: bool,
}

/// No long name begun.
pub open spec fn no_name() -> LongNameView {
    LongNameView { buf: bytes::zeros(256), len: 0, seq: 0, checksum: 0 }
}

pub open spec fn cleared(l: LongNameView) -> LongNameView {
    LongNameView { len: 0, ..l }
}

/// The low bytes of the 13 characters in a long-name entry.
pub open spec fn name_chars(e: Seq<u8>) -> Seq<u8> {
    seq![
        e[1], e[3], e[5], e[7], e[9],
        e[14], e[16], e[18], e[20], e[22], e[24],
        e[28], e[30],
    ]
}

/// How many of the characters from `i` on stand before a 0x00 or 0xFF.
pub open spec fn lead(chars: Seq<u8>, i: int) -> int
    decreases chars.len() - i,
{
    if i >= chars.len() || chars[i] == 0 || chars[i] == 0xFF {
        0
    } else {
        1 + lead(chars, i + 1)
    }
}

/// The assembly after the long-name entry `e`.
pub open spec fn take_part(l: LongNameView, e: Seq<u8>) -> LongNameView {
    let seq = (e[0] % 32) as u8;
    let chars = name_chars(e);
    let n = lead(chars, 0);
    let start = (seq - 1) * 13;
    if seq == 0 || seq > 20 {
        l
    } else {
        let begun = if e[0] / 64 % 2 == 1 {
            LongNameView {
                len: bytes::min_int(start + n, 255),
                seq,
                checksum: e[13],
                ..l
            }
        } else {
            l
        };
        if seq != begun.seq || e[13] != begun.checksum {
            begun
        } else {
            LongNameView {
                seq: (seq - 1) as u8,
                buf: Seq::new(
                    256,
                    |i: int|
                        if start <= i < start + n && i < 255 {
                            exfat::ascii_of(chars[i - start] as u16)
                        } else {
                            begun.buf[i]
                        },
                ),
                ..begun
            }
        }
    }
}

/// The bytes of `e` from `at` up to a space, not past `to`.
pub open spec fn until_space(e: Seq<u8>, at: int, to: int) -> Seq<u8>
    decreases to - at,
{
    if at >= to || e[at] == 0x20 {
        Seq::empty()
    } else {
        seq![e[at]] + until_space(e, at + 1, to)
    }
}

/// The 8.3 name of an entry.
pub open spec fn short_name(e: Seq<u8>) -> Seq<u8> {
    let base = until_space(e, 0, 8);
    if e[8] != 0x20 {
        base + seq![0x2Eu8] + until_space(e, 8, 11)
    } else {
        base
    }
}

pub open spec fn entry_name(rule: Fat32Rule, l: LongNameView, e: Seq<u8>) -> Seq<u8> {
    if rule == Fat32Rule::LongNames && l.len > 0 && l.buf[0] != 0 {
        l.buf.subrange(0, l.len)
    } else {
        short_name(e)
    }
}

/// The first cluster of a file, whose number is stored in two halves.
pub open spec fn first_cluster(e: Seq<u8>) -> u32 {
    (bytes::spec_le16(e, 26) + 65536 * bytes::spec_le16(e, 20)) as u32
}

pub open spec fn entry_file(g: Geometry, rule: Fat32Rule, l: LongNameView, e: Seq<u8>) -> FileView {
    FileView {
        name: entry_name(rule, l, e),
        lba: chain::spec_cluster_lba(g, first_cluster(e), 0),
        size: bytes::spec_le32(e, 28) as u64,
    }
}

/// The entries of a directory sector from entry `i` on: a zero byte ends the
/// directory, deleted entries and volume labels are passed over.
pub open spec fn entries(
    g: Geometry,
    rule: Fat32Rule,
    limit: nat,
    s: Seq<u8>,
    i: int,
    l: LongNameView,
    files: Seq<FileView>,
) -> Sector
    decreases 16 - i,
{
    let e = s.subrange(i * 32, i * 32 + 32);
    if i >= 16 {
        Sector { name: l, files, end: false }
    } else if e[0] == 0 {
        Sector { name: l, files, end: true }
    } else if e[0] == 0xE5 {
        entries(g, rule, limit, s, i + 1, cleared(l), files)
    } else if e[11] == ATTR_LONG_NAME {
        let l2 = if rule == Fat32Rule::LongNames {
            take_part(l, e)
        } else {
            l
        };
        entries(g, rule, limit, s, i + 1, l2, files)
    } else if e[11] / 8 % 2 == 1 {
        entries(g, rule, limit, s, i + 1, cleared(l), files)
    } else {
        entries(
            g,
            rule,
            limit,
            s,
            i + 1,
            cleared(l),
            exfat::list_bootable(files, limit, entry_file(g, rule, l, e)),
        )
    }
}

impl LongName {
    pub open spec fn wf(&self) -> bool {
        self.len <= 255
    }

    pub fn none() -> (r: LongName)
        ensures
            r@ == no_name(),
            r.wf(),
    {
        let buf: [u8; 256] = [0; 256];
        assert(buf@ =~= bytes::zeros(256));
        LongName { buf, len: 0, seq: 0, checksum: 0 }
    }

    /// Takes in the next long-name entry.
    #[verifier::loop_isolation(false)]
    fn take(&mut self, e: &[u8])
        requires
            e@.len() == 32,
            old(self).wf(),
        ensures
            final(self).wf(),
            final(self)@ == take_part(old(self)@, e@),
    {
        let seq: u8 = e[0] % 32;
        if seq == 0 || seq > 20 {
            return;
        }
        let chars: [u8; 13] = [
            e[1], e[3], e[5], e[7], e[9],
            e[14], e[16], e[18], e[20], e[22], e[24],
            e[28], e[30],
        ];
        assert(chars@ =~= name_chars(e@));
        let mut n: usize = 0;
        while n < 13 && chars[n] != 0 && chars[n] != 0xFF
            invariant
                n <= 13,
                lead(chars@, 0) == n + lead(chars@, n as int),
            decreases 13 - n,
        {
            n += 1;
        }
        let start: usize = (seq as usize - 1) * 13;
        if e[0] / 64 % 2 == 1 {
            self.seq = seq;
            self.checksum = e[13];
            self.len = if start + n < 255 {
                start + n
            } else {
                255
            };
        }
        if seq != self.seq || e[13] != self.checksum {
            return;
        }
        let ghost begun = self@;
        self.seq = seq - 1;
        let mut k: usize = 0;
        while k < n
            invariant
                k <= n <= 13,
                self.len == begun.len,
                self.seq == seq - 1,
                self.checksum == begun.checksum,
                self.buf@ == Seq::new(
                    256,
                    |i: int|
                        if start <= i < start + k && i < 255 {
                            exfat::ascii_of(chars@[i - start] as u16)
                        } else {
                            begun.buf[i]
                        },
                ),
            decreases n - k,
        {
            if start + k < 255 {
                self.buf[start + k] = if chars[k] < 0x80 {
                    chars[k]
                } else {
                    0x3F
                };
            }
            k += 1;
            assert(self.buf@ =~= Seq::new(
                256,
                |i: int|
                    if start <= i < start + k && i < 255 {
                        exfat::ascii_of(chars@[i - start] as u16)
                    } else {
                        begun.buf[i]
                    },
            ));
        }
    }
}

#[verifier::loop_isolation(false)]
fn read_until_space(e: &[u8], from: usize, to: usize) -> (r: Vec<u8>)
    requires
        from <= to <= e@.len(),
    ensures
        r@ == until_space(e@, from as int, to as int),
        r@.len() <= to - from,
{
    let mut out: Vec<u8> = Vec::new();
    let mut i: usize = from;
    while i < to && e[i] != 0x20
        invariant
            from <= i <= to,
            out@.len() == i - from,
            until_space(e@, from as int, to as int) == out@ + until_space(e@, i as int, to as int),
        decreases to - i,
    {
        let ghost before = out@;
        out.push(e[i]);
        assert(before + (seq![e@[i as int]] + until_space(e@, i + 1, to as int)) =~= out@
            + until_space(e@, i + 1, to as int));
        i += 1;
    }
    assert(out@ + Seq::<u8>::empty() =~= out@);
    out
}

fn read_short_name(e: &[u8]) -> (r: Vec<u8>)
    requires
        e@.len() == 32,
    ensures
        r@ == short_name(e@),
        r@.len() <= 12,
{
    let mut name: Vec<u8> = read_until_space(e, 0, 8);
    if e[8] != 0x20 {
        name.push(0x2E);
        let ext: Vec<u8> = read_until_space(e, 8, 11);
        push_all(&mut name, &ext);
        assert(name@ =~= short_name(e@));
    }
    name
}

/// Lists the bootable files among the 16 entries of a directory sector. Returns
/// whether the directory ends there.
#[verifier::loop_isolation(false)]
pub fn scan_fat32_sector(
    g: &Geometry,
    rule: Fat32Rule,
    limit: usize,
    long: &mut LongName,
    sector: &[u8; 512],
    files: &mut Vec<FoundFile>,
) -> (end: bool)
    requires
        old(long).wf(),
        found::all_wf(old(files)@),
    ensures
        final(long).wf(),
        found::all_wf(final(files)@),
        (Sector { name: final(long)@, files: found::views(final(files)@), end }) == entries(
            *g,
            rule,
            limit as nat,
            sector@,
            0,
            old(long)@,
            found::views(old(files)@),
        ),
{
    let s: &[u8] = sector;
    let mut i: usize = 0;
    while i < 16
        invariant
            i <= 16,
            long.wf(),
            found::all_wf(files@),
            entries(*g, rule, limit as nat, sector@, 0, old(long)@, found::views(old(files)@))
                == entries(*g, rule, limit as nat, sector@, i as int, long@, found::views(files@)),
        decreases 16 - i,
    {
        let e: &[u8] = &s[i * 32..i * 32 + 32];
        if e[0] == 0 {
            return true;
        }
        if e[0] == 0xE5 {
            long.len = 0;
            i += 1;
            continue;
        }
        if e[11] == ATTR_LONG_NAME {
            match rule {
                Fat32Rule::LongNames => long.take(e),
                Fat32Rule::ShortNames => {},
            }
            i += 1;
            continue;
        }
        if e[11] / 8 % 2 == 1 {
            long.len = 0;
            i += 1;
            continue;
        }
        let name: Vec<u8> = match rule {
            Fat32Rule::LongNames => if long.len > 0 && long.buf[0] != 0 {
                slice_vec(&long.buf, 0, long.len)
            } else {
                read_short_name(e)
            },
            Fat32Rule::ShortNames => read_short_name(e),
        };
        assert(name@ == entry_name(rule, long@, e@));
        long.len = 0;
        if has_bootable_name(&name) {
            let first: u32 = le16(e, 26) as u32 + 65536 * le16(e, 20) as u32;
            let lba: u64 = cluster_lba(g, first, 0);
            list_file(files, limit, &name, lba, le32(e, 28) as u64);
        }
        i += 1;
    }
    false
}

} // verus!
