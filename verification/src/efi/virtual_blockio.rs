//! An ISO image as a virtual CD-ROM: sectors come from the image, from memory,
//! or from the image with directory entries redirected.

use vstd::prelude::*;
use crate::bytes;
use crate::bytes::{push_all, push_repeat, put, slice_vec, WORD};
use crate::efi::iso9660;
use crate::scan::chain;

verus! {

pub const BLOCK: usize = 2048;

/// The sector of the primary volume descriptor.
pub const PVD_SECTOR: u64 = 16;

// ---------------------------------------------------------------------------
// Media on a disk
// ---------------------------------------------------------------------------

/// A medium made of blocks.
pub trait VirtualMedia {
    spec fn spec_start(&self) -> u64;

    spec fn spec_count(&self) -> u64;

    spec fn spec_block_size(&self) -> u32;

    spec fn spec_media_type(&self) -> Seq<char>;

    /// The disk sector to read a block from, where the block exists and fits
    /// behind `dst_offset` of a buffer of `dst_len` bytes.
    fn read_block(&self, block_lba: u64, backing: u32, dst_len: usize, dst_offset: usize) -> (r:
        Option<u64>)
        ensures
            r == block_source(
                block_lba,
                self.spec_start(),
                self.spec_block_size(),
                self.spec_count(),
                backing,
                dst_len as int,
                dst_offset as int,
            ),
    ;

    fn block_count(&self) -> (r: u64)
        ensures
            r == self.spec_count(),
    ;

    fn block_size(&self) -> (r: u32)
        ensures
            r == self.spec_block_size(),
    ;

    fn media_type(&self) -> (r: &'static str)
        ensures
            r@ == self.spec_media_type(),
    ;
}

/// The disk sector that block `block_lba` of a medium starts at, if the block
/// exists, its size is a multiple of the disk's, and the buffer has room.
pub open spec fn block_source(
    block_lba: u64,
    start_lba: u64,
    block_size: u32,
    total_blocks: u64,
    backing: u32,
    dst_len: int,
    dst_offset: int,
) -> Option<u64> {
    let lba = start_lba + block_lba * (block_size / backing);
    if block_lba >= total_blocks || block_size == 0 || block_size > 65536 || dst_offset + block_size
        > dst_len || backing == 0 || block_size % backing != 0 || lba > u64::MAX {
        None
    } else {
        Some(lba as u64)
    }
}

pub fn read_block_at(
    block_lba: u64,
    start_lba: u64,
    block_size: u32,
    total_blocks: u64,
    backing: u32,
    dst_len: usize,
    dst_offset: usize,
) -> (r: Option<u64>)
    ensures
        r == block_source(
            block_lba,
            start_lba,
            block_size,
            total_blocks,
            backing,
            dst_len as int,
            dst_offset as int,
        ),
{
    if block_lba >= total_blocks || block_size == 0 || block_size > 65536 || dst_offset as u128
        + block_size as u128 > dst_len as u128 {
        return None;
    }
    if backing == 0 || block_size % backing != 0 {
        return None;
    }
    let per: u64 = (block_size / backing) as u64;
    assert(0 <= block_lba * per <= 0xFFFF_FFFF_FFFF_FFFFu64 * 0xFFFF_FFFFu32) by (nonlinear_arith)
        requires
            block_lba <= 0xFFFF_FFFF_FFFF_FFFFu64,
            per <= 0xFFFF_FFFFu32,
    ;
    let lba: u128 = start_lba as u128 + block_lba as u128 * per as u128;
    if lba > u64::MAX as u128 {
        None
    } else {
        Some(lba as u64)
    }
}

/// An ISO image in one piece.
#[derive(Clone, Copy, PartialEq, Eq, Structural, Debug)]
pub struct IsoMedia {
    pub iso_lba: u64,
    pub total_blocks: u64,
}

/// A raw disk image in one piece.
#[derive(Clone, Copy, PartialEq, Eq, Structural, Debug)]
pub struct RawMedia {
    pub start_lba: u64,
    pub total_blocks: u64,
    pub sector_size: u32,
}

/// A fixed-size virtual hard disk in one piece.
#[derive(Clone, Copy, PartialEq, Eq, Structural, Debug)]
pub struct VhdMedia {
    pub data_lba: u64,
    pub total_blocks: u64,
    pub sector_size: u32,
}

pub open spec fn at_least_512(n: u32) -> u32 {
    if n < 512 {
        512
    } else {
        n
    }
}

fn max_512(n: u32) -> (r: u32)
    ensures
        r == at_least_512(n),
{
    if n < 512 {
        512
    } else {
        n
    }
}

impl VirtualMedia for IsoMedia {
    open spec fn spec_start(&self) -> u64 {
        self.iso_lba
    }

    open spec fn spec_count(&self) -> u64 {
        self.total_blocks
    }

    open spec fn spec_block_size(&self) -> u32 {
        2048
    }

    open spec fn spec_media_type(&self) -> Seq<char> {
        "ISO"@
    }

    fn read_block(&self, block_lba: u64, backing: u32, dst_len: usize, dst_offset: usize) -> (r:
        Option<u64>) {
        read_block_at(
            block_lba,
            self.iso_lba,
            2048,
            self.total_blocks,
            backing,
            dst_len,
            dst_offset,
        )
    }

    fn block_count(&self) -> (r: u64) {
        self.total_blocks
    }

    fn block_size(&self) -> (r: u32) {
        2048
    }

    fn media_type(&self) -> (r: &'static str) {
        "ISO"
    }
}

impl VirtualMedia for RawMedia {
    open spec fn spec_start(&self) -> u64 {
        self.start_lba
    }

    open spec fn spec_count(&self) -> u64 {
        self.total_blocks
    }

    open spec fn spec_block_size(&self) -> u32 {
        at_least_512(self.sector_size)
    }

    open spec fn spec_media_type(&self) -> Seq<char> {
        "IMG"@
    }

    fn read_block(&self, block_lba: u64, backing: u32, dst_len: usize, dst_offset: usize) -> (r:
        Option<u64>) {
        read_block_at(
            block_lba,
            self.start_lba,
            max_512(self.sector_size),
            self.total_blocks,
            backing,
            dst_len,
            dst_offset,
        )
    }

    fn block_count(&self) -> (r: u64) {
        self.total_blocks
    }

    fn block_size(&self) -> (r: u32) {
        max_512(self.sector_size)
    }

    fn media_type(&self) -> (r: &'static str) {
        "IMG"
    }
}

impl VirtualMedia for VhdMedia {
    open spec fn spec_start(&self) -> u64 {
        self.data_lba
    }

    open spec fn spec_count(&self) -> u64 {
        self.total_blocks
    }

    open spec fn spec_block_size(&self) -> u32 {
        at_least_512(self.sector_size)
    }

    open spec fn spec_media_type(&self) -> Seq<char> {
        "VHD"@
    }

    fn read_block(&self, block_lba: u64, backing: u32, dst_len: usize, dst_offset: usize) -> (r:
        Option<u64>) {
        read_block_at(
            block_lba,
            self.data_lba,
            max_512(self.sector_size),
            self.total_blocks,
            backing,
            dst_len,
            dst_offset,
        )
    }

    fn block_count(&self) -> (r: u64) {
        self.total_blocks
    }

    fn block_size(&self) -> (r: u32) {
        max_512(self.sector_size)
    }

    fn media_type(&self) -> (r: &'static str) {
        "VHD"
    }
}

// ---------------------------------------------------------------------------
// The virtual CD-ROM
// ---------------------------------------------------------------------------

/// A directory entry: the sector it stands in and where.
#[derive(Clone, Copy, PartialEq, Eq, Structural, Debug)]
pub struct EntryPlace {
    pub sector: u32,
    pub offset: u32,
}

/// A file that was replaced: its entry is redirected to sectors of the new
/// contents behind the end of the image.
pub struct ReplacedFile {
    pub entry: EntryPlace,
    pub extent: u32,
    pub size: u32,
    /// The new contents, whole sectors of them.
    pub data: Vec<u8>,
}

/// An initrd that was extended: the sectors behind its last one read as the
/// premount archive, and its entry covers them.
#[derive(Clone, Copy, PartialEq, Eq, Structural, Debug)]
pub struct ExtendedInitrd {
    pub entry: EntryPlace,
    pub base_lba: u32,
    pub orig_size: u32,
    pub ext_sectors: u32,
}

/// A virtual CD-ROM backed by an ISO image on a disk.
pub struct VirtualBlockIo {
    pub iso_lba: u64,
    /// The number of the last block.
    pub last_block: u64,
    pub replaced: Option<ReplacedFile>,
    pub initrd: Option<ExtendedInitrd>,
    pub premount_cpio: Vec<u8>,
}

/// How a read of the virtual CD-ROM fails.
#[derive(Clone, Copy, PartialEq, Eq, Structural, Debug)]
pub enum BlockError {
    BadBufferSize,
    Device,
}

/// The extent and size fields of a directory entry, each in both byte orders.
pub open spec fn entry_fields(extent: u32, size: u32) -> Seq<u8> {
    bytes::le_bytes32(extent) + bytes::be_bytes32(extent) + bytes::le_bytes32(size)
        + bytes::be_bytes32(size)
}

/// A directory sector with the entry at `off` redirected, if the entry lies
/// within it.
pub open spec fn redirected(s: Seq<u8>, off: int, extent: u32, size: u32) -> Seq<u8> {
    if off + 18 > s.len() {
        s
    } else {
        bytes::overlay(s, off + 2, entry_fields(extent, size))
    }
}

fn push_be32(out: &mut Vec<u8>, v: u32)
    ensures
        final(out)@ == old(out)@ + bytes::be_bytes32(v),
{
    out.push((v / 16777216) as u8);
    out.push((v / 65536 % 256) as u8);
    out.push((v / 256 % 256) as u8);
    out.push((v % 256) as u8);
}

/// Redirects the directory entry at `off`, if it lies within `entry`.
pub fn patch_dir_entry(entry: &mut [u8], off: usize, new_extent: u32, new_size: u32)
    ensures
        final(entry)@ == redirected(old(entry)@, off as int, new_extent, new_size),
{
    if entry.len() < 18 || off > entry.len() - 18 {
        return;
    }
    let mut fields: Vec<u8> = Vec::new();
    bytes::push_le32(&mut fields, new_extent);
    push_be32(&mut fields, new_extent);
    bytes::push_le32(&mut fields, new_size);
    push_be32(&mut fields, new_size);
    assert(fields@ =~= entry_fields(new_extent, new_size));
    put(entry, off + 2, &fields);
}

/// The disk sector that ISO sector `n` starts at, if ISO sectors are made of
/// whole disk blocks.
pub fn read_real_iso_sector(iso_lba: u64, n: u64, backing: u32) -> (r: Option<u64>)
    ensures
        r == (if backing == 0 || 2048u32 % backing != 0 {
            None::<u64>
        } else {
            Some(chain::wrap64(iso_lba + n * (2048u32 / backing)))
        }),
{
    if backing == 0 || 2048 % backing != 0 {
        return None;
    }
    let per: u64 = (2048 / backing) as u64;
    assert(0 <= n * per <= 0xFFFF_FFFF_FFFF_FFFFu64 * 2048) by (nonlinear_arith)
        requires
            n <= 0xFFFF_FFFF_FFFF_FFFFu64,
            per <= 2048,
    ;
    Some(((iso_lba as u128 + n as u128 * per as u128) % WORD) as u64)
}

impl ReplacedFile {
    pub open spec fn wf(&self) -> bool {
        self.data@.len() % 2048 == 0
    }

    /// Whether block `lba` holds new contents.
    pub open spec fn covers(&self, lba: u64) -> bool {
        self.extent <= lba < self.extent + self.data@.len() / 2048
    }
}

impl ExtendedInitrd {
    /// The first sector behind the original initrd.
    pub open spec fn end(&self) -> int {
        self.base_lba + (self.orig_size + 2047) / 2048
    }

    pub open spec fn covers(&self, lba: u64) -> bool {
        self.end() <= lba < self.end() + self.ext_sectors
    }

    /// The size in the redirected entry: whole sectors.
    pub open spec fn new_size(&self) -> u32 {
        iso9660::wrap32(((self.orig_size + 2047) / 2048 + self.ext_sectors) * 2048)
    }
}

/// Sector `i` of data that is followed by zeros.
pub open spec fn padded_sector(data: Seq<u8>, i: int) -> Seq<u8> {
    Seq::new(
        2048,
        |k: int|
            if i * 2048 + k < data.len() {
                data[i * 2048 + k]
            } else {
                0u8
            },
    )
}

impl VirtualBlockIo {
    pub open spec fn wf(&self) -> bool {
        self.replaced matches Some(f) ==> f.wf()
    }

    pub open spec fn redirects_file(&self, lba: u64) -> bool {
        self.replaced matches Some(f) && f.entry.sector == lba
    }

    pub open spec fn redirects_initrd(&self, lba: u64) -> bool {
        self.initrd matches Some(i) && i.entry.sector == lba
    }

    /// Whether block `lba` is read from the image.
    pub open spec fn from_image(&self, lba: u64) -> bool {
        ||| self.redirects_file(lba)
        ||| self.redirects_initrd(lba)
        ||| {
            &&& !(self.initrd matches Some(i) && i.covers(lba))
            &&& !(self.replaced matches Some(f) && f.covers(lba))
        }
    }

    /// A directory sector with the entries it holds redirected.
    pub open spec fn with_redirects(&self, lba: u64, raw: Seq<u8>) -> Seq<u8> {
        let a = match self.replaced {
            Some(f) if f.entry.sector == lba => redirected(
                raw,
                f.entry.offset as int,
                f.extent,
                f.size,
            ),
            _ => raw,
        };
        match self.initrd {
            Some(i) if i.entry.sector == lba => redirected(
                a,
                i.entry.offset as int,
                i.base_lba,
                i.new_size(),
            ),
            _ => a,
        }
    }

    /// Block `lba`, where the image has `raw` there.
    pub open spec fn block(&self, lba: u64, raw: Seq<u8>) -> Seq<u8> {
        if self.redirects_file(lba) || self.redirects_initrd(lba) {
            self.with_redirects(lba, raw)
        } else if self.initrd matches Some(i) && i.covers(lba) {
            padded_sector(self.premount_cpio@, lba - (self.initrd->0).end())
        } else if self.replaced matches Some(f) && f.covers(lba) {
            let f = self.replaced->0;
            f.data@.subrange((lba - f.extent) * 2048, (lba - f.extent) * 2048 + 2048)
        } else if lba == PVD_SECTOR {
            let n = iso9660::wrap32(self.last_block + 1);
            bytes::overlay(raw, 80, bytes::le_bytes32(n) + bytes::be_bytes32(n))
        } else {
            raw
        }
    }

    /// A CD-ROM that shows the image as it is.
    pub fn new(iso_lba: u64, iso_size_bytes: u64) -> (r: Self)
        requires
            iso_size_bytes >= 2048,
        ensures
            r.wf(),
            r.iso_lba == iso_lba,
            r.last_block == iso_size_bytes / 2048 - 1,
            r.replaced is None,
            r.initrd is None,
            r.premount_cpio@.len() == 0,
    {
        VirtualBlockIo {
            iso_lba,
            last_block: iso_size_bytes / 2048 - 1,
            replaced: None,
            initrd: None,
            premount_cpio: Vec::new(),
        }
    }

    /// Whether block `lba` is read from the image.
    pub fn needs_image(&self, lba: u64) -> (r: bool)
        requires
            self.wf(),
        ensures
            r == self.from_image(lba),
    {
        let mut memory: bool = false;
        if let Some(f) = &self.replaced {
            if f.entry.sector as u64 == lba {
                return true;
            }
            let n: u64 = (f.data.len() / 2048) as u64;
            memory = f.extent as u64 <= lba && lba - (f.extent as u64) < n;
        }
        if let Some(i) = &self.initrd {
            if i.entry.sector as u64 == lba {
                return true;
            }
            let end: u64 = i.base_lba as u64 + (i.orig_size as u64 + 2047) / 2048;
            if end <= lba && lba < end + i.ext_sectors as u64 {
                memory = true;
            }
        }
        !memory
    }

    fn serve_directory(&self, lba: u64, raw: &[u8; 2048]) -> (r: [u8; 2048])
        requires
            self.wf(),
        ensures
            r@ == self.with_redirects(lba, raw@),
    {
        let mut out: [u8; 2048] = *raw;
        if let Some(f) = &self.replaced {
            if f.entry.sector as u64 == lba {
                patch_dir_entry(&mut out, f.entry.offset as usize, f.extent, f.size);
            }
        }
        if let Some(i) = &self.initrd {
            if i.entry.sector as u64 == lba {
                let sectors: u64 = (i.orig_size as u64 + 2047) / 2048 + i.ext_sectors as u64;
                let size: u32 = (sectors * 2048 % 0x1_0000_0000) as u32;
                patch_dir_entry(&mut out, i.entry.offset as usize, i.base_lba, size);
            }
        }
        out
    }

    /// Block `lba`, given what the image has there; `None` where the image is
    /// needed and cannot be read.
    pub fn read_block(&self, lba: u64, raw: Option<&[u8; 2048]>) -> (r: Option<[u8; 2048]>)
        requires
            self.wf(),
        ensures
            match raw {
                Some(s) => r matches Some(b) && b@ == self.block(lba, s@),
                None => if self.from_image(lba) {
                    r is None
                } else {
                    r matches Some(b) && forall|s: Seq<u8>| b@ == self.block(lba, s)
                },
            },
    {
        let mut redirect: bool = false;
        if let Some(f) = &self.replaced {
            if f.entry.sector as u64 == lba {
                redirect = true;
            }
        }
        if let Some(i) = &self.initrd {
            if i.entry.sector as u64 == lba {
                redirect = true;
            }
        }
        if redirect {
            return match raw {
                None => None,
                Some(s) => Some(self.serve_directory(lba, s)),
            };
        }
        if let Some(i) = &self.initrd {
            let end: u64 = i.base_lba as u64 + (i.orig_size as u64 + 2047) / 2048;
            if end <= lba && lba < end + i.ext_sectors as u64 {
                return Some(self.serve_premount(lba - end));
            }
        }
        if let Some(f) = &self.replaced {
            let n: u64 = (f.data.len() / 2048) as u64;
            if f.extent as u64 <= lba && lba - (f.extent as u64) < n {
                return Some(serve_memory_sector(&f.data, (lba - f.extent as u64) as usize));
            }
        }
        match raw {
            None => None,
            Some(s) => {
                let mut out: [u8; 2048] = *s;
                if lba == PVD_SECTOR {
                    let n: u32 = ((self.last_block as u128 + 1) % 0x1_0000_0000) as u32;
                    let mut field: Vec<u8> = Vec::new();
                    bytes::push_le32(&mut field, n);
                    push_be32(&mut field, n);
                    assert(field@ =~= bytes::le_bytes32(n) + bytes::be_bytes32(n));
                    put(&mut out, 80, &field);
                }
                Some(out)
            },
        }
    }

    #[verifier::loop_isolation(false)]
    fn serve_premount(&self, i: u64) -> (r: [u8; 2048])
        requires
            i <= 0xFFFF_FFFF,
        ensures
            r@ == padded_sector(self.premount_cpio@, i as int),
    {
        let mut out: [u8; 2048] = [0; 2048];
        let n: u64 = self.premount_cpio.len() as u64;
        let from: u64 = i * 2048;
        if from < n {
            let start: usize = from as usize;
            let len: usize = if n - from < 2048 {
                (n - from) as usize
            } else {
                2048
            };
            let data: &[u8] = &self.premount_cpio;
            put(&mut out, 0, &data[start..start + len]);
        }
        assert(out@ =~= padded_sector(self.premount_cpio@, i as int));
        out
    }

    /// The blocks of a read.
    pub open spec fn blocks(&self, lba: int, raws: Seq<Seq<u8>>, n: int) -> Seq<u8>
        decreases n,
    {
        if n <= 0 {
            Seq::empty()
        } else {
            self.blocks(lba, raws, n - 1) + self.block(
                chain::wrap64(lba + n - 1),
                raws[n - 1],
            )
        }
    }

    /// Reads `buffer_size` bytes at block `lba`. `raws` has, for each block
    /// that is read from the image, what the image has there, or `None` where
    /// that cannot be read.
    #[verifier::loop_isolation(false)]
    pub fn vblock_read(&self, lba: u64, buffer_size: usize, raws: &[Option<[u8; 2048]>]) -> (r:
        Result<Vec<u8>, BlockError>)
        requires
            self.wf(),
            buffer_size % 2048 == 0 ==> raws@.len() == buffer_size / 2048,
        ensures
            if buffer_size % 2048 != 0 {
                r == Err::<Vec<u8>, BlockError>(BlockError::BadBufferSize)
            } else if exists|k: int|
                0 <= k < raws@.len() && #[trigger] raws@[k] is None && self.from_image(
                    chain::wrap64(lba + k),
                ) {
                r == Err::<Vec<u8>, BlockError>(BlockError::Device)
            } else {
                r matches Ok(v) && v@ == self.blocks(
                    lba as int,
                    raw_views(raws@),
                    raws@.len() as int,
                )
            },
    {
        if buffer_size % 2048 != 0 {
            return Err(BlockError::BadBufferSize);
        }
        let mut out: Vec<u8> = Vec::new();
        let mut k: usize = 0;
        while k < raws.len()
            invariant
                k <= raws@.len(),
                out@ == self.blocks(lba as int, raw_views(raws@), k as int),
                forall|j: int|
                    0 <= j < k ==> !(#[trigger] raws@[j] is None && self.from_image(
                        chain::wrap64(lba + j),
                    )),
            decreases raws@.len() - k,
        {
            let block_lba: u64 = ((lba as u128 + k as u128) % WORD) as u64;
            let raw: Option<&[u8; 2048]> = match &raws[k] {
                None => None,
                Some(s) => Some(s),
            };
            match self.read_block(block_lba, raw) {
                None => {
                    assert(raws@[k as int] is None);
                    return Err(BlockError::Device);
                },
                Some(b) => {
                    assert(b@ == self.block(block_lba, raw_views(raws@)[k as int]));
                    push_all(&mut out, &b);
                },
            }
            k += 1;
        }
        Ok(out)
    }

    /// Replaces a file: its new contents follow the last block, and its entry is
    /// redirected to them.
    pub fn replace_file(&mut self, entry: EntryPlace, content: &[u8])
        requires
            old(self).wf(),
            old(self).last_block + (content@.len() + 2047) / 2048 <= u32::MAX,
            content@.len() <= u32::MAX,
        ensures
            final(self).wf(),
            replaces(*old(self), *final(self), entry, content@),
    {
        assert(content.len() <= usize::MAX);
        let tail: usize = (2048 - content.len() % 2048) % 2048;
        let mut data: Vec<u8> = slice_vec(content, 0, content.len());
        push_repeat(&mut data, 0, tail);
        let sectors: u64 = (data.len() / 2048) as u64;
        assert(data@ =~= whole_sectors(content@));
        let extent: u32 = ((self.last_block + 1) % 0x1_0000_0000) as u32;
        self.last_block = self.last_block + sectors;
        self.replaced = Some(ReplacedFile { entry, extent, size: content.len() as u32, data });
    }
}

/// Contents padded with zeros to whole sectors.
pub open spec fn whole_sectors(content: Seq<u8>) -> Seq<u8> {
    content + bytes::zeros(((content.len() + 2047) / 2048 * 2048 - content.len()) as nat)
}

/// Whether `b` is `a` with the file of that entry replaced.
pub open spec fn replaces(
    a: VirtualBlockIo,
    b: VirtualBlockIo,
    entry: EntryPlace,
    content: Seq<u8>,
) -> bool {
    &&& b.iso_lba == a.iso_lba
    &&& b.initrd == a.initrd
    &&& b.premount_cpio == a.premount_cpio
    &&& b.last_block == a.last_block + (content.len() + 2047) / 2048
    &&& b.replaced matches Some(f) && f.entry == entry && f.extent == (a.last_block + 1) % 0x1_0000_0000 && f.size
        == content.len() && f.data@ == whole_sectors(content)
}

pub open spec fn raw_views(raws: Seq<Option<[u8; 2048]>>) -> Seq<Seq<u8>> {
    Seq::new(
        raws.len(),
        |i: int|
            match raws[i] {
                Some(s) => s@,
                None => Seq::empty(),
            },
    )
}

/// Sector `i` of contents in memory.
pub fn serve_memory_sector(data: &[u8], i: usize) -> (r: [u8; 2048])
    requires
        data@.len() % 2048 == 0,
        i < data@.len() / 2048,
    ensures
        r@ == data@.subrange(i * 2048, i * 2048 + 2048),
{
    let mut out: [u8; 2048] = [0; 2048];
    assert(data.len() <= usize::MAX);
    put(&mut out, 0, &data[i * 2048..i * 2048 + 2048]);
    assert(out@ =~= data@.subrange(i * 2048, i * 2048 + 2048));
    out
}

/// The device path of the CD-ROM: a CD-ROM node of a boot entry and partition
/// at 0, and the end node.
pub fn cdrom_device_path() -> (r: [u8; 28])
    ensures
        r@ == seq![0x04u8, 0x02, 24, 0] + bytes::zeros(20) + seq![0x7Fu8, 0xFF, 0x04, 0x00],
{
    let mut dp: [u8; 28] = [0; 28];
    dp[0] = 0x04;
    dp[1] = 0x02;
    dp[2] = 24;
    dp[24] = 0x7F;
    dp[25] = 0xFF;
    dp[26] = 0x04;
    assert(dp@ =~= seq![0x04u8, 0x02, 24, 0] + bytes::zeros(20) + seq![0x7Fu8, 0xFF, 0x04, 0x00]);
    dp
}

// ---------------------------------------------------------------------------
// Setting the CD-ROM up
// ---------------------------------------------------------------------------

/// What to do next when the CD-ROM is set up with the firmware.
#[derive(Clone, Copy, PartialEq, Eq, Structural, Debug)]
pub enum SetupStep {
    AllocatePath,
    AllocateBlockIo,
    InstallBlockIo,
    InstallPath,
    CreateFs,
    InstallFs,
    FreeFs,
    QueryFs,
    FreeBlockIo,
    FreePath,
    Done { with_fs: bool },
    /// Set up, with a file system that the firmware does not hand out.
    DoneHidden,
    Failed,
}

/// What is allocated before a step is carried out.
pub struct Held {
    pub path: bool,
    pub block_io: bool,
    pub fs: bool,
}

impl SetupStep {
    /// The step after this one, by whether this one succeeded. A CD-ROM
    /// without device path or file system is still of use; one without block
    /// access is not.
    pub open spec fn spec_next(&self, ok: bool) -> SetupStep {
        match *self {
            SetupStep::AllocatePath => if ok {
                SetupStep::AllocateBlockIo
            } else {
                SetupStep::Failed
            },
            SetupStep::AllocateBlockIo => if ok {
                SetupStep::InstallBlockIo
            } else {
                SetupStep::FreePath
            },
            SetupStep::InstallBlockIo => if ok {
                SetupStep::InstallPath
            } else {
                SetupStep::FreeBlockIo
            },
            SetupStep::InstallPath => SetupStep::CreateFs,
            SetupStep::CreateFs => if ok {
                SetupStep::InstallFs
            } else {
                SetupStep::Done { with_fs: false }
            },
            SetupStep::InstallFs => if ok {
                SetupStep::QueryFs
            } else {
                SetupStep::FreeFs
            },
            SetupStep::FreeFs => SetupStep::Done { with_fs: false },
            SetupStep::QueryFs => if ok {
                SetupStep::Done { with_fs: true }
            } else {
                SetupStep::DoneHidden
            },
            SetupStep::FreeBlockIo => SetupStep::FreePath,
            SetupStep::FreePath => SetupStep::Failed,
            SetupStep::Done { .. } | SetupStep::DoneHidden => *self,
            SetupStep::Failed => *self,
        }
    }

    pub fn next(&self, ok: bool) -> (r: SetupStep)
        ensures
            r == self.spec_next(ok),
    {
        match *self {
            SetupStep::AllocatePath => if ok {
                SetupStep::AllocateBlockIo
            } else {
                SetupStep::Failed
            },
            SetupStep::AllocateBlockIo => if ok {
                SetupStep::InstallBlockIo
            } else {
                SetupStep::FreePath
            },
            SetupStep::InstallBlockIo => if ok {
                SetupStep::InstallPath
            } else {
                SetupStep::FreeBlockIo
            },
            SetupStep::InstallPath => SetupStep::CreateFs,
            SetupStep::CreateFs => if ok {
                SetupStep::InstallFs
            } else {
                SetupStep::Done { with_fs: false }
            },
            SetupStep::InstallFs => if ok {
                SetupStep::QueryFs
            } else {
                SetupStep::FreeFs
            },
            SetupStep::FreeFs => SetupStep::Done { with_fs: false },
            SetupStep::QueryFs => if ok {
                SetupStep::Done { with_fs: true }
            } else {
                SetupStep::DoneHidden
            },
            SetupStep::FreeBlockIo => SetupStep::FreePath,
            SetupStep::FreePath => SetupStep::Failed,
            SetupStep::Done { with_fs } => SetupStep::Done { with_fs },
            SetupStep::DoneHidden => SetupStep::DoneHidden,
            SetupStep::Failed => SetupStep::Failed,
        }
    }

    /// What is allocated before this step.
    pub open spec fn held(&self) -> Held {
        match *self {
            SetupStep::AllocatePath | SetupStep::Failed => Held {
                path: false,
                block_io: false,
                fs: false,
            },
            SetupStep::AllocateBlockIo | SetupStep::FreePath => Held {
                path: true,
                block_io: false,
                fs: false,
            },
            SetupStep::InstallFs | SetupStep::FreeFs | SetupStep::QueryFs
            | SetupStep::DoneHidden => Held {
                path: true,
                block_io: true,
                fs: true,
            },
            SetupStep::Done { with_fs } => Held { path: true, block_io: true, fs: with_fs },
            _ => Held { path: true, block_io: true, fs: false },
        }
    }
}

// ---------------------------------------------------------------------------
// Laws
// ---------------------------------------------------------------------------

/// Each step accounts for what it allocates or frees: an allocation that fails
/// adds nothing, and a setup that fails leaves nothing allocated.
pub proof fn setup_frees_what_it_allocates(step: SetupStep, ok: bool)
    ensures
        ({
            let a = step.held();
            let b = step.spec_next(ok).held();
            match step {
                SetupStep::AllocatePath => b == (Held { path: ok, ..a }),
                SetupStep::AllocateBlockIo => b == (Held { block_io: ok, ..a }),
                SetupStep::CreateFs => b == (Held { fs: ok, ..a }),
                SetupStep::FreeFs => b == (Held { fs: false, ..a }),
                SetupStep::FreeBlockIo => b == (Held { block_io: false, ..a }),
                SetupStep::FreePath => b == (Held { path: false, ..a }),
                _ => b == a,
            }
        }),
{
}

/// Blocks that no patch concerns read as on the image.
pub proof fn untouched_blocks_read_as_on_image(v: VirtualBlockIo, lba: u64, raw: Seq<u8>)
    requires
        lba != PVD_SECTOR,
        v.from_image(lba),
        !v.redirects_file(lba),
        !v.redirects_initrd(lba),
    ensures
        v.block(lba, raw) == raw,
{
}

/// A redirected entry reads back as the extent it was redirected to, in both
/// byte orders, and the rest of its sector is as on the image.
pub proof fn redirected_entry_reads_back(s: Seq<u8>, off: int, extent: u32, size: u32)
    requires
        0 <= off,
        off + 18 <= s.len(),
    ensures
        ({
            let r = redirected(s, off, extent, size);
            &&& bytes::spec_le32(r, off + 2) == extent
            &&& bytes::spec_be32(r, off + 6) == extent
            &&& bytes::spec_le32(r, off + 10) == size
            &&& bytes::spec_be32(r, off + 14) == size
            &&& r.len() == s.len()
            &&& forall|k: int|
                0 <= k < s.len() && !(off + 2 <= k < off + 18) ==> #[trigger] r[k] == s[k]
        }),
{
    let r = redirected(s, off, extent, size);
    let f = entry_fields(extent, size);
    assert(f.len() == 16);
    bytes::le32_round_trip(extent);
    bytes::le32_round_trip(size);
    assert(forall|k: int| 0 <= k < 4 ==> f[k] == bytes::le_bytes32(extent)[k]);
    assert(forall|k: int| 0 <= k < 4 ==> f[4 + k] == bytes::be_bytes32(extent)[k]);
    assert(forall|k: int| 0 <= k < 4 ==> f[8 + k] == bytes::le_bytes32(size)[k]);
    assert(forall|k: int| 0 <= k < 4 ==> f[12 + k] == bytes::be_bytes32(size)[k]);
    assert(forall|k: int| 0 <= k < 16 ==> r[off + 2 + k] == f[k]);
    assert(r[off + 2] == f[0] && r[off + 3] == f[0int + 1] && r[off + 4] == f[0int + 2] && r[off + 5]
        == f[0int + 3]);
    assert(r[off + 6] == f[4] && r[off + 7] == f[4int + 1] && r[off + 8] == f[4int + 2] && r[off + 9]
        == f[4int + 3]);
    assert(r[off + 10] == f[8] && r[off + 11] == f[8int + 1] && r[off + 12] == f[8int + 2] && r[off + 13]
        == f[8int + 3]);
    assert(r[off + 14] == f[12] && r[off + 15] == f[12int + 1] && r[off + 16] == f[12int + 2] && r[off
        + 17] == f[12int + 3]);
}

/// The sectors that a replaced file's entry points to hold its new contents,
/// where they are neither directory sectors nor those of an extended initrd.
pub proof fn replaced_file_reads_new_contents(v: VirtualBlockIo, i: int, k: int, raw: Seq<u8>)
    requires
        v.wf(),
        v.replaced is Some,
        0 <= i < (v.replaced->0).data@.len() / 2048,
        0 <= k < 2048,
        (v.replaced->0).extent + i <= u64::MAX,
        (v.replaced->0).entry.sector != (v.replaced->0).extent + i,
        v.initrd matches Some(x) ==> x.entry.sector != (v.replaced->0).extent + i && !x.covers(
            ((v.replaced->0).extent + i) as u64,
        ),
    ensures
        v.block(((v.replaced->0).extent + i) as u64, raw)[k] == (v.replaced->0).data@[i * 2048 + k],
{
}

} // verus!
