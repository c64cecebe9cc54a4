//! Where the contents of an ISO image are read from.

use vstd::prelude::*;
use crate::bytes;
use crate::bytes::{put, WORD};
use crate::scan::chain;

verus! {

/// A supply of image data.
pub trait IsoSource {
    /// The size of the image.
    open spec fn spec_size(&self) -> u64 {
        arbitrary()
    }

    /// What a read of `len` bytes at `offset` yields; it may fall short.
    open spec fn spec_read(&self, offset: u64, len: nat) -> Seq<u8> {
        arbitrary()
    }

    fn size(&self) -> (r: u64)
        ensures
            r == self.spec_size(),
    ;

    /// Reads into the front of `buf`; returns how many bytes were read.
    fn read_at(&self, offset: u64, buf: &mut [u8]) -> (r: usize)
        ensures
            r == self.spec_read(offset, old(buf)@.len()).len(),
            r <= old(buf)@.len(),
            final(buf)@ == bytes::overlay(
                old(buf)@,
                0,
                self.spec_read(offset, old(buf)@.len()),
            ),
    ;
}

/// A logical sector of the image, if it can be read.
pub open spec fn iso_sector<S: IsoSource>(src: &S, n: u32) -> Option<Seq<u8>> {
    let data = src.spec_read((n * 2048) as u64, 2048);
    if n * 2048 + 2048 <= src.spec_size() && data.len() >= 2048 {
        Some(data)
    } else {
        None
    }
}

/// Reads a logical sector; returns whether all of it was read.
pub fn read_iso_sector<S: IsoSource>(src: &S, sector: u32, buf: &mut [u8; 2048]) -> (r: bool)
    ensures
        r == iso_sector(src, sector) is Some,
        r ==> iso_sector(src, sector) == Some(final(buf)@),
{
    let offset: u64 = sector as u64 * 2048;
    if offset + 2048 > src.size() {
        return false;
    }
    let n: usize = src.read_at(offset, buf);
    assert(n >= 2048 ==> buf@ =~= src.spec_read(offset, 2048));
    n >= 2048
}

/// An image held in memory.
pub struct RamIsoSource {
    pub data: Vec<u8>,
}

impl IsoSource for RamIsoSource {
    open spec fn spec_size(&self) -> u64 {
        self.data@.len() as u64
    }

    open spec fn spec_read(&self, offset: u64, len: nat) -> Seq<u8> {
        let n = self.data@.len() as int;
        if offset >= n {
            Seq::empty()
        } else {
            self.data@.subrange(offset as int, bytes::min_int(offset + len, n))
        }
    }

    fn size(&self) -> (r: u64) {
        self.data.len() as u64
    }

    fn read_at(&self, offset: u64, buf: &mut [u8]) -> (r: usize) {
        let n: usize = self.data.len();
        if offset >= n as u64 {
            assert(bytes::overlay(buf@, 0, Seq::empty()) =~= buf@);
            return 0;
        }
        let from: usize = offset as usize;
        let len: usize = if buf.len() < n - from {
            buf.len()
        } else {
            n - from
        };
        let data: &[u8] = &self.data;
        put(buf, 0, &data[from..from + len]);
        len
    }
}

// ---------------------------------------------------------------------------
// Images on a disk
// ---------------------------------------------------------------------------

/// An image that lies on a disk in one piece.
#[derive(Clone, Copy, PartialEq, Eq, Structural, Debug)]
pub struct BlockIoIsoSource {
    pub media_id: u32,
    pub iso_lba: u64,
    pub iso_size: u64,
}

/// The disk reads that a read of the image takes. `Split` copies `copy` bytes
/// of sector `first` from byte `from` on, and reads what is left from sector
/// `rest` on.
#[derive(Clone, Copy, PartialEq, Eq, Debug)]
pub enum ReadPlan {
    Nothing,
    Whole { lba: u64, len: usize },
    Split { first: u64, from: usize, copy: usize, rest: Option<(u64, usize)> },
}

impl BlockIoIsoSource {
    pub fn new(media_id: u32, iso_lba: u64, iso_size: u64) -> (r: Self)
        ensures
            r == (BlockIoIsoSource { media_id, iso_lba, iso_size }),
    {
        BlockIoIsoSource { media_id, iso_lba, iso_size }
    }

    pub fn media_id(&self) -> (r: u32)
        ensures
            r == self.media_id,
    {
        self.media_id
    }

    pub fn iso_lba(&self) -> (r: u64)
        ensures
            r == self.iso_lba,
    {
        self.iso_lba
    }

    /// The disk sector that byte `offset` of the image lies in.
    pub open spec fn disk_lba(&self, offset: int) -> u64 {
        chain::wrap64(self.iso_lba + offset / 512)
    }

    /// How a read of `len` bytes at `offset` is carried out: a read that starts
    /// at a sector boundary stops at the end of the image, any other goes
    /// through its first sector.
    pub open spec fn spec_plan(&self, offset: u64, len: int) -> ReadPlan {
        let from = offset as int % 512;
        let copy = bytes::min_int(len, 512 - from);
        if offset >= self.iso_size || len == 0 {
            ReadPlan::Nothing
        } else if from == 0 {
            ReadPlan::Whole {
                lba: self.disk_lba(offset as int),
                len: bytes::min_int(len, self.iso_size - offset) as usize,
            }
        } else {
            ReadPlan::Split {
                first: self.disk_lba(offset as int),
                from: from as usize,
                copy: copy as usize,
                rest: if copy < len {
                    Some((self.disk_lba(offset + copy), (len - copy) as usize))
                } else {
                    None
                },
            }
        }
    }

    pub fn read_at(&self, offset: u64, len: usize) -> (r: ReadPlan)
        ensures
            r == self.spec_plan(offset, len as int),
    {
        if offset >= self.iso_size || len == 0 {
            return ReadPlan::Nothing;
        }
        let lba: u64 = ((self.iso_lba as u128 + (offset / 512) as u128) % WORD) as u64;
        let from: usize = (offset % 512) as usize;
        if from == 0 {
            let left: u64 = self.iso_size - offset;
            let n: usize = if (len as u64) < left {
                len
            } else {
                left as usize
            };
            return ReadPlan::Whole { lba, len: n };
        }
        let copy: usize = if len < 512 - from {
            len
        } else {
            512 - from
        };
        let rest: Option<(u64, usize)> = if copy < len {
            let next: u128 = offset as u128 + copy as u128;
            let next_lba: u64 = ((self.iso_lba as u128 + next / 512) % WORD) as u64;
            Some((next_lba, len - copy))
        } else {
            None
        };
        ReadPlan::Split { first: lba, from, copy, rest }
    }

    pub fn size(&self) -> (r: u64)
        ensures
            r == self.iso_size,
    {
        self.iso_size
    }
}

impl ReadPlan {
    /// How many bytes a read yields when its first disk read and, where there
    /// is one, its second did or did not succeed.
    pub fn bytes_read(&self, first_ok: bool, rest_ok: bool) -> (r: usize)
        requires
            *self matches ReadPlan::Split { copy, rest: Some((_, n)), .. } ==> copy + n
                <= usize::MAX,
        ensures
            r == (match *self {
                ReadPlan::Nothing => 0,
                ReadPlan::Whole { len, .. } => if first_ok {
                    len as int
                } else {
                    0
                },
                ReadPlan::Split { copy, rest, .. } => if !first_ok {
                    0
                } else {
                    match rest {
                        Some((_, n)) if rest_ok => copy + n,
                        _ => copy as int,
                    }
                },
            }),
    {
        match *self {
            ReadPlan::Nothing => 0,
            ReadPlan::Whole { len, .. } => if first_ok {
                len
            } else {
                0
            },
            ReadPlan::Split { copy, rest, .. } => if !first_ok {
                0
            } else {
                match rest {
                    Some((_, n)) => if rest_ok {
                        copy + n
                    } else {
                        copy
                    },
                    None => copy,
                }
            },
        }
    }
}

/// A read that goes well yields what was asked for, but for the part of an
/// aligned read behind the end of the image.
pub proof fn plan_covers_request(src: BlockIoIsoSource, offset: u64, len: int)
    requires
        0 < len <= usize::MAX,
        offset < src.iso_size,
    ensures
        match src.spec_plan(offset, len) {
            ReadPlan::Nothing => false,
            ReadPlan::Whole { len: n, .. } => n == bytes::min_int(len, src.iso_size - offset),
            ReadPlan::Split { from, copy, rest, .. } => {
                &&& 0 < from
                &&& from + copy <= 512
                &&& match rest {
                    Some((_, n)) => copy + n == len && (offset + copy) % 512 == 0,
                    None => copy == len,
                }
            },
        },
{
}

} // verus!
