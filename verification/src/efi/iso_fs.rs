//! A read-only file system view of an ISO image, with the premount archive as
//! an extra file in its root directory.

use vstd::prelude::*;
use crate::bytes;
use crate::bytes::{lower, push_le64, push_repeat, slice_vec};
use crate::efi::boot_kind::{BootKind, BootloaderType};
use crate::efi::iso9660;
use crate::efi::iso9660::{
    add32, iso_name_effective_len, parse_pvd, read_extent, read_extent_data, read_record, resolve_path,
    sector_count, Extent, BACKSLASH,
};
use crate::efi::iso_source;
use crate::efi::iso_source::{read_iso_sector, IsoSource};
use crate::efi::protocol::Guid;

verus! {

/// How a file operation ends.
#[derive(Clone, Copy, PartialEq, Eq, Structural, Debug)]
pub enum FileStatus {
    Success,
    InvalidParameter,
    Unsupported,
    NotFound,
    DeviceError,
    BufferTooSmall,
    WriteProtected,
}

/// The longest path that can be opened.
pub const PATH_MAX: usize = 256;

/// The size of a file record without its name.
pub const INFO_SIZE: usize = 80;

/// The GUID that asks for file records.
pub const FILE_INFO_D1: u32 = 0x0957_6E92;

pub const FILE_INFO_D2: u16 = 0x6D3F;

pub const FILE_INFO_D3: u16 = 0x11D2;

pub const FILE_INFO_D4: [u8; 8] = [0x8E, 0x39, 0x00, 0xA0, 0xC9, 0x69, 0x72, 0x3B];

/// A file that the volume shows in place of one on the image.
pub struct FileRedirect {
    pub old_extent: u32,
    pub old_size: u32,
    pub new_extent: u32,
    pub new_size: u32,
    pub content: Vec<u8>,
}

/// What the files of a volume share.
pub struct IsoFsCtx {
    pub root_lba: u32,
    pub root_size: u32,
    pub iso_name: Vec<u8>,
    pub live_media_uuid: [u8; 10],
    /// The premount archive; none where empty.
    pub premount_cpio: Vec<u8>,
    /// The name that the premount archive goes by.
    pub premount_target_name: Vec<u8>,
    pub boot_kind: BootKind,
    pub bootloader_type: BootloaderType,
    pub redirect: Option<FileRedirect>,
}

/// An open file or directory.
pub struct VirtualFile {
    pub is_dir: bool,
    pub extent_lba: u32,
    pub extent_size: u32,
    pub position: u64,
    pub needs_grub_patch: bool,
    /// Contents that replace those on the image.
    pub patched: Option<Vec<u8>>,
    /// Whether this is the premount archive.
    pub is_synthetic: bool,
    /// Whether the premount archive has been listed already.
    pub synthetic_injected: bool,
}

pub struct FileView {
    pub is_dir: bool,
    pub extent_lba: u32,
    pub extent_size: u32,
    pub position: u64,
    pub needs_grub_patch: bool,
    pub patched: Option<Seq<u8>>,
    pub is_synthetic: bool,
    pub synthetic_injected: bool,
}

impl View for VirtualFile {
    type V = FileView;

    open spec fn view(&self) -> FileView {
        FileView {
            is_dir: self.is_dir,
            extent_lba: self.extent_lba,
            extent_size: self.extent_size,
            position: self.position,
            needs_grub_patch: self.needs_grub_patch,
            patched: match self.patched {
                Some(p) => Some(p@),
                None => None,
            },
            is_synthetic: self.is_synthetic,
            synthetic_injected: self.synthetic_injected,
        }
    }
}

pub open spec fn opened(e: Extent, needs_grub_patch: bool) -> FileView {
    FileView {
        is_dir: e.is_dir,
        extent_lba: e.lba,
        extent_size: e.size,
        position: 0,
        needs_grub_patch,
        patched: None,
        is_synthetic: false,
        synthetic_injected: false,
    }
}

fn open_extent(e: Extent, needs_grub_patch: bool) -> (r: VirtualFile)
    ensures
        r@ == opened(e, needs_grub_patch),
{
    VirtualFile {
        is_dir: e.is_dir,
        extent_lba: e.lba,
        extent_size: e.size,
        position: 0,
        needs_grub_patch,
        patched: None,
        is_synthetic: false,
        synthetic_injected: false,
    }
}

/// The volume of an image, if the image has a volume descriptor.
pub fn create_iso_fs<S: IsoSource>(
    src: &S,
    iso_name: &[u8],
    live_media_uuid: &[u8; 10],
    premount_cpio: Vec<u8>,
) -> (r: Option<IsoFsCtx>)
    ensures
        r is Some <==> iso9660::root_dir(src) is Some,
        r matches Some(ctx) ==> {
            &&& iso9660::root_dir(src) == Some((ctx.root_lba, ctx.root_size))
            &&& ctx.iso_name@ == iso_name@.take(bytes::min_int(iso_name@.len() as int, 127))
            &&& ctx.live_media_uuid@ == live_media_uuid@
            &&& ctx.premount_cpio@ == premount_cpio@
            &&& ctx.premount_target_name@.len() == 0
            &&& ctx.boot_kind == BootKind::Unknown
            &&& ctx.bootloader_type == BootloaderType::Grub
            &&& ctx.redirect is None
        },
{
    let (root_lba, root_size) = match parse_pvd(src) {
        None => {
            return None;
        },
        Some(r) => r,
    };
    let n: usize = if iso_name.len() < 127 {
        iso_name.len()
    } else {
        127
    };
    Some(
        IsoFsCtx {
            root_lba,
            root_size,
            iso_name: slice_vec(iso_name, 0, n),
            live_media_uuid: *live_media_uuid,
            premount_cpio,
            premount_target_name: Vec::new(),
            boot_kind: BootKind::Unknown,
            bootloader_type: BootloaderType::Grub,
            redirect: None,
        },
    )
}

/// Opens the root directory.
pub fn sfs_open_volume(ctx: &IsoFsCtx) -> (r: VirtualFile)
    ensures
        r@ == opened(Extent { lba: ctx.root_lba, size: ctx.root_size, is_dir: true }, false),
{
    open_extent(Extent { lba: ctx.root_lba, size: ctx.root_size, is_dir: true }, false)
}

// ---------------------------------------------------------------------------
// Opening files
// ---------------------------------------------------------------------------

/// The part of a path behind its last separator.
pub open spec fn file_part(path: Seq<u16>) -> Seq<u16>
    decreases path.len(),
{
    if path.len() == 0 || path.last() == BACKSLASH || path.last() == 0x2F {
        Seq::empty()
    } else {
        file_part(path.drop_last()).push(path.last())
    }
}

/// A file name without its version suffix.
pub open spec fn unversioned(name: Seq<u16>) -> Seq<u16> {
    if name.len() >= 2 && name[name.len() - 2] == 0x3B {
        name.take(name.len() - 2)
    } else {
        name
    }
}

pub open spec fn lower16(c: u16) -> u16 {
    if 0x41 <= c <= 0x5A {
        (c + 0x20) as u16
    } else {
        c
    }
}

/// Whether the file that a path names is `target`, ASCII case and a version
/// suffix ignored.
pub open spec fn names(path: Seq<u16>, target: Seq<u8>) -> bool {
    let name = file_part(path);
    let bare = unversioned(name);
    &&& name.len() > 0
    &&& bare.len() == target.len()
    &&& forall|i: int|
        0 <= i < target.len() ==> lower16(bare[i]) == bytes::spec_lower(#[trigger] target[i]) as u16
}

#[verifier::loop_isolation(false)]
pub fn path_component_matches(path: &[u16], target: &[u8]) -> (r: bool)
    ensures
        r == names(path@, target@),
{
    let n: usize = path.len();
    let mut start: usize = n;
    assert(path@.subrange(0, n as int) =~= path@);
    assert(file_part(path@) =~= file_part(path@) + path@.subrange(n as int, n as int));
    while start > 0 && path[start - 1] != BACKSLASH && path[start - 1] != 0x2F
        invariant
            start <= n,
            file_part(path@) == file_part(path@.subrange(0, start as int)) + path@.subrange(
                start as int,
                n as int,
            ),
        decreases start,
    {
        let ghost head = path@.subrange(0, start as int);
        assert(head.drop_last() =~= path@.subrange(0, start - 1));
        assert(file_part(head) + path@.subrange(start as int, n as int) =~= file_part(
            head.drop_last(),
        ) + path@.subrange(start - 1, n as int));
        start -= 1;
    }
    assert(file_part(path@.subrange(0, start as int)) =~= Seq::empty());
    assert(file_part(path@) =~= path@.subrange(start as int, n as int));
    let name: &[u16] = &path[start..n];
    if name.len() == 0 {
        return false;
    }
    let len: usize = if name.len() >= 2 && name[name.len() - 2] == 0x3B {
        name.len() - 2
    } else {
        name.len()
    };
    assert(name@.take(name@.len() as int) =~= name@);
    assert(unversioned(name@) == name@.take(len as int));
    if len != target.len() {
        return false;
    }
    let mut i: usize = 0;
    while i < len
        invariant
            i <= len,
            forall|j: int|
                0 <= j < i ==> lower16(name@[j]) == bytes::spec_lower(#[trigger] target@[j]) as u16,
        decreases len - i,
    {
        let c: u16 = name[i];
        let low: u16 = if 0x41 <= c && c <= 0x5A {
            c + 0x20
        } else {
            c
        };
        if low != lower(target[i]) as u16 {
            return false;
        }
        i += 1;
    }
    true
}

/// Whether a path names the premount archive.
pub open spec fn names_premount(ctx: IsoFsCtx, path: Seq<u16>) -> bool {
    ctx.premount_cpio@.len() > 0 && (names(path, ctx.premount_target_name@) || names(
        path,
        bytes::text("PREMOUNT.CPIO"),
    ))
}

/// Whether a path ends in `.cfg`, by the low bytes of its last characters.
pub open spec fn is_cfg_path(path: Seq<u16>) -> bool {
    let n = path.len();
    &&& n >= 4
    &&& ((path[n - 4] % 256) as u8 | 0x20) == 0x2E
    &&& ((path[n - 3] % 256) as u8 | 0x20) == 0x63
    &&& ((path[n - 2] % 256) as u8 | 0x20) == 0x66
    &&& ((path[n - 1] % 256) as u8 | 0x20) == 0x67
}

/// Whether the volume shows other contents in place of an extent.
pub open spec fn is_redirected(ctx: IsoFsCtx, e: Extent) -> bool {
    ctx.redirect matches Some(r) && !e.is_dir && e.lba == r.old_extent && e.size == r.old_size
}

/// An extent of the image as the volume opens it.
pub open spec fn opened_in(ctx: IsoFsCtx, e: Extent, needs_grub_patch: bool) -> FileView {
    if is_redirected(ctx, e) {
        FileView {
            extent_lba: (ctx.redirect->0).new_extent,
            extent_size: (ctx.redirect->0).new_size,
            patched: Some((ctx.redirect->0).content@),
            ..opened(e, needs_grub_patch)
        }
    } else {
        opened(e, needs_grub_patch)
    }
}

fn open_in(ctx: &IsoFsCtx, e: Extent, needs_grub_patch: bool) -> (r: VirtualFile)
    ensures
        r@ == opened_in(*ctx, e, needs_grub_patch),
{
    let mut f: VirtualFile = open_extent(e, needs_grub_patch);
    if let Some(r) = &ctx.redirect {
        if !e.is_dir && e.lba == r.old_extent && e.size == r.old_size {
            f.extent_lba = r.new_extent;
            f.extent_size = r.new_size;
            let content: Vec<u8> = slice_vec(&r.content, 0, r.content.len());
            assert(content@ =~= r.content@);
            f.patched = Some(content);
        }
    }
    f
}

/// What opening a path from a directory comes to.
pub open spec fn open_outcome<S: IsoSource>(
    src: &S,
    ctx: IsoFsCtx,
    dir: FileView,
    path: Seq<u16>,
) -> Result<FileView, FileStatus> {
    if !dir.is_dir {
        Err(FileStatus::Unsupported)
    } else if path.len() > PATH_MAX {
        Err(FileStatus::InvalidParameter)
    } else if names_premount(ctx, path) {
        Ok(
            FileView {
                is_dir: false,
                extent_lba: 0,
                extent_size: iso9660::wrap32(ctx.premount_cpio@.len() as int),
                position: 0,
                needs_grub_patch: false,
                patched: None,
                is_synthetic: true,
                synthetic_injected: false,
            },
        )
    } else {
        match iso9660::resolve(src, dir.extent_lba, dir.extent_size, path) {
            None => Err(FileStatus::NotFound),
            Some(e) => Ok(opened_in(ctx, e, !e.is_dir && is_cfg_path(path))),
        }
    }
}

/// Opens a path from an open directory. The path comes without terminator.
pub fn file_open<S: IsoSource>(src: &S, ctx: &IsoFsCtx, dir: &VirtualFile, path: &[u16]) -> (r:
    Result<VirtualFile, FileStatus>)
    ensures
        match open_outcome(src, *ctx, dir@, path@) {
            Ok(f) => r matches Ok(v) && v@ == f,
            Err(e) => r matches Err(x) && x == e,
        },
{
    if !dir.is_dir {
        return Err(FileStatus::Unsupported);
    }
    if path.len() > PATH_MAX {
        return Err(FileStatus::InvalidParameter);
    }
    if ctx.premount_cpio.len() > 0 && (path_component_matches(path, &ctx.premount_target_name)
        || path_component_matches(path, "PREMOUNT.CPIO".as_bytes())) {
        return Ok(
            VirtualFile {
                is_dir: false,
                extent_lba: 0,
                extent_size: (ctx.premount_cpio.len() as u64 % 0x1_0000_0000) as u32,
                position: 0,
                needs_grub_patch: false,
                patched: None,
                is_synthetic: true,
                synthetic_injected: false,
            },
        );
    }
    match resolve_path(src, dir.extent_lba, dir.extent_size, path) {
        None => Err(FileStatus::NotFound),
        Some(e) => {
            let n: usize = path.len();
            let is_cfg: bool = !e.is_dir && n >= 4 && ((path[n - 4] % 256) as u8 | 0x20) == 0x2E && (
            (path[n - 3] % 256) as u8 | 0x20) == 0x63 && ((path[n - 2] % 256) as u8 | 0x20) == 0x66
                && ((path[n - 1] % 256) as u8 | 0x20) == 0x67;
            Ok(open_in(ctx, e, is_cfg))
        },
    }
}

// ---------------------------------------------------------------------------
// Reading files
// ---------------------------------------------------------------------------

/// What a read of `len` bytes at `pos` of contents in memory yields.
pub open spec fn memory_read(data: Seq<u8>, pos: u64, len: int) -> Seq<u8> {
    if pos >= data.len() {
        Seq::empty()
    } else {
        data.subrange(pos as int, bytes::min_int(pos + len, data.len() as int))
    }
}

/// What a read of `len` bytes at the position of a file yields: the premount
/// archive, contents that replace those on the image, or the image's.
pub open spec fn file_data<S: IsoSource>(src: &S, ctx: IsoFsCtx, f: FileView, len: int) -> Seq<u8> {
    if f.is_synthetic {
        memory_read(ctx.premount_cpio@, f.position, len)
    } else {
        match f.patched {
            Some(p) => memory_read(p, f.position, len),
            None => iso9660::spec_read_extent(src, f.extent_lba, f.extent_size, f.position, len),
        }
    }
}

fn read_memory(data: &[u8], pos: u64, len: usize) -> (r: Vec<u8>)
    ensures
        r@ == memory_read(data@, pos, len as int),
        r@.len() <= len,
        pos + r@.len() <= data@.len() || r@.len() == 0,
{
    if pos >= data.len() as u64 {
        return Vec::new();
    }
    let from: usize = pos as usize;
    let avail: usize = data.len() - from;
    let n: usize = if len < avail {
        len
    } else {
        avail
    };
    slice_vec(data, from, from + n)
}

/// Reads up to `len` bytes at the position of a file and moves the position
/// behind them.
pub fn file_read_file<S: IsoSource>(src: &S, ctx: &IsoFsCtx, vf: &mut VirtualFile, len: usize) -> (r:
    Result<Vec<u8>, FileStatus>)
    ensures
        old(vf).is_dir ==> r == Err::<Vec<u8>, FileStatus>(FileStatus::Unsupported)
            && *final(vf) == *old(vf),
        !old(vf).is_dir ==> {
            let data = file_data(src, *ctx, old(vf)@, len as int);
            &&& r matches Ok(v) && v@ == data
            &&& final(vf)@ == (FileView {
                position: (old(vf).position + data.len()) as u64,
                ..old(vf)@
            })
        },
{
    if vf.is_dir {
        return Err(FileStatus::Unsupported);
    }
    let data: Vec<u8> = if vf.is_synthetic {
        read_memory(&ctx.premount_cpio, vf.position, len)
    } else {
        match &vf.patched {
            Some(p) => read_memory(p, vf.position, len),
            None => {
                let d: Vec<u8> = read_extent_data(
                    src,
                    vf.extent_lba,
                    vf.extent_size,
                    vf.position,
                    len,
                );
                proof {
                    read_within_extent(
                        src,
                        vf.extent_lba,
                        vf.extent_size,
                        vf.position,
                        len as int,
                    );
                }
                d
            },
        }
    };
    assert(vf.position + data@.len() <= u64::MAX) by {
        assert(data.len() <= usize::MAX);
        assert(ctx.premount_cpio.len() <= usize::MAX);
        if let Some(p) = vf.patched {
            assert(p.len() <= usize::MAX);
        }
    }
    vf.position = vf.position + data.len() as u64;
    Ok(data)
}

proof fn extent_data_len<S: IsoSource>(src: &S, n: int, from: int, want: int)
    requires
        want >= 0,
    ensures
        iso9660::extent_data(src, n, from, want).len() <= want,
    decreases want,
{
    if want > 0 && 0 <= from < 2048 {
        if let Some(s) = iso_source::iso_sector(src, iso9660::wrap32(n)) {
            let copy = bytes::min_int(want, 2048 - from);
            extent_data_len(src, n + 1, 0, want - copy);
        }
    }
}

/// A read never goes past the end of the extent, and yields nothing from there
/// on.
pub proof fn read_within_extent<S: IsoSource>(
    src: &S,
    lba: u32,
    size: u32,
    offset: u64,
    len: int,
)
    requires
        len >= 0,
    ensures
        iso9660::spec_read_extent(src, lba, size, offset, len).len() <= len,
        offset < size ==> offset + iso9660::spec_read_extent(src, lba, size, offset, len).len()
            <= size,
        offset >= size ==> iso9660::spec_read_extent(src, lba, size, offset, len).len() == 0,
{
    if offset < size {
        extent_data_len(
            src,
            lba + offset as int / 2048,
            offset as int % 2048,
            bytes::min_int(size - offset, len),
        );
    }
}

// ---------------------------------------------------------------------------
// Positions and records
// ---------------------------------------------------------------------------

/// The size of what a file reads as.
pub open spec fn length(ctx: IsoFsCtx, f: FileView) -> u64 {
    match f.patched {
        Some(p) => p.len() as u64,
        None => if f.is_synthetic {
            ctx.premount_cpio@.len() as u64
        } else {
            f.extent_size as u64
        },
    }
}

fn file_length(ctx: &IsoFsCtx, vf: &VirtualFile) -> (r: u64)
    ensures
        r == length(*ctx, vf@),
{
    match &vf.patched {
        Some(p) => p.len() as u64,
        None => if vf.is_synthetic {
            ctx.premount_cpio.len() as u64
        } else {
            vf.extent_size as u64
        },
    }
}

pub fn file_get_position(vf: &VirtualFile) -> (r: u64)
    ensures
        r == vf.position,
{
    vf.position
}

/// Moves the position of a file, at most to its end. A directory can only be
/// rewound.
pub fn file_set_position(ctx: &IsoFsCtx, vf: &mut VirtualFile, position: u64) -> (r: FileStatus)
    ensures
        ({
            let f = old(vf)@;
            if f.is_dir && position != 0 {
                r == FileStatus::Unsupported && final(vf)@ == f
            } else {
                &&& r == FileStatus::Success
                &&& final(vf)@ == (FileView {
                    position: if f.is_dir {
                        0
                    } else {
                        bytes::min_int(position as int, length(*ctx, f) as int) as u64
                    },
                    ..f
                })
            }
        }),
{
    if vf.is_dir {
        if position != 0 {
            return FileStatus::Unsupported;
        }
        vf.position = 0;
        return FileStatus::Success;
    }
    let max: u64 = file_length(ctx, vf);
    vf.position = if position > max {
        max
    } else {
        position
    };
    FileStatus::Success
}

/// `n` rounded up to a multiple of 8.
pub open spec fn pad8(n: int) -> int {
    (n + 7) / 8 * 8
}

/// The fixed part of a file record.
pub open spec fn info_head(size: int, file_size: u64, is_dir: bool) -> Seq<u8> {
    bytes::le_bytes64(size as u64) + bytes::le_bytes64(file_size) + bytes::le_bytes64(file_size)
        + bytes::zeros(48) + bytes::le_bytes64(if is_dir {
        1
    } else {
        0
    })
}

/// A name in UTF-16, byte by byte.
pub open spec fn wide(name: Seq<u8>) -> Seq<u8> {
    Seq::new(
        2 * name.len(),
        |i: int|
            if i % 2 == 0 {
                name[i / 2]
            } else {
                0u8
            },
    )
}

pub open spec fn info_size(name_len: int) -> int {
    pad8(INFO_SIZE + (name_len + 1) * 2)
}

/// A file record with a name, zero-terminated and padded.
pub open spec fn info_record(name: Seq<u8>, file_size: u64, is_dir: bool) -> Seq<u8> {
    let n = info_size(name.len() as int);
    info_head(n, file_size, is_dir) + wide(name) + bytes::zeros(
        (n - INFO_SIZE - 2 * name.len()) as nat,
    )
}

fn push_info_head(out: &mut Vec<u8>, size: u64, file_size: u64, is_dir: bool)
    ensures
        final(out)@ == old(out)@ + info_head(size as int, file_size, is_dir),
{
    let ghost before = out@;
    push_le64(out, size);
    push_le64(out, file_size);
    push_le64(out, file_size);
    push_repeat(out, 0, 48);
    push_le64(
        out,
        if is_dir {
            1
        } else {
            0
        },
    );
    assert(out@ =~= before + info_head(size as int, file_size, is_dir));
}

#[verifier::loop_isolation(false)]
fn push_info_record(out: &mut Vec<u8>, name: &[u8], file_size: u64, is_dir: bool)
    requires
        name@.len() <= 255,
    ensures
        final(out)@ == old(out)@ + info_record(name@, file_size, is_dir),
{
    let ghost before = out@;
    let n: usize = (INFO_SIZE + (name.len() + 1) * 2 + 7) / 8 * 8;
    push_info_head(out, n as u64, file_size, is_dir);
    let ghost head = out@;
    let mut i: usize = 0;
    while i < name.len()
        invariant
            i <= name@.len(),
            out@ == head + wide(name@).take(2 * i),
        decreases name@.len() - i,
    {
        out.push(name[i]);
        out.push(0);
        i += 1;
        assert(out@ =~= head + wide(name@).take(2 * i));
    }
    push_repeat(out, 0, n - INFO_SIZE - 2 * name.len());
    assert(out@ =~= before + info_record(name@, file_size, is_dir));
}

/// The record of an open file, which goes without a name, where `buf_size`
/// bytes have room for it; else how much room it needs.
pub fn file_get_info(ctx: &IsoFsCtx, vf: &VirtualFile, kind: &Guid, buf_size: usize) -> (r: Result<
    Vec<u8>,
    (FileStatus, usize),
>)
    ensures
        ({
            let known = kind.d1 == FILE_INFO_D1 && kind.d2 == FILE_INFO_D2 && kind.d3
                == FILE_INFO_D3 && kind.d4@ == FILE_INFO_D4@;
            match r {
                Ok(v) => {
                    &&& known
                    &&& buf_size >= INFO_SIZE + 2
                    &&& v@ == info_head(INFO_SIZE + 2, length(*ctx, vf@), vf.is_dir) + seq![0u8, 0]
                },
                Err((FileStatus::Unsupported, n)) => !known && n == buf_size,
                Err((FileStatus::BufferTooSmall, n)) => known && buf_size < INFO_SIZE + 2 && n
                    == INFO_SIZE + 2,
                Err(_) => false,
            }
        }),
{
    if kind.d1 != FILE_INFO_D1 || kind.d2 != FILE_INFO_D2 || kind.d3 != FILE_INFO_D3
        || !bytes::bytes_eq(&kind.d4, &FILE_INFO_D4) {
        return Err((FileStatus::Unsupported, buf_size));
    }
    if buf_size < INFO_SIZE + 2 {
        return Err((FileStatus::BufferTooSmall, INFO_SIZE + 2));
    }
    let mut out: Vec<u8> = Vec::new();
    push_info_head(&mut out, (INFO_SIZE + 2) as u64, file_length(ctx, vf), vf.is_dir);
    out.push(0);
    out.push(0);
    assert(out@ =~= info_head(INFO_SIZE + 2, length(*ctx, vf@), vf.is_dir) + seq![0u8, 0]);
    Ok(out)
}

/// Files cannot be written to, deleted or changed.
pub fn file_write_ro() -> (r: FileStatus)
    ensures
        r == FileStatus::WriteProtected,
{
    FileStatus::WriteProtected
}

// ---------------------------------------------------------------------------
// Reading directories
// ---------------------------------------------------------------------------

/// A place in a directory: a byte of one of its sectors.
pub open spec fn dir_position(sector: int, byte: int) -> u64 {
    (sector * 65536 + byte) as u64
}

/// The position behind the last record, before the premount archive is listed.
pub open spec fn end_position(total: u32) -> u64 {
    (total * 65536 + (if total % 2 == 1 {
        0int
    } else {
        65536
    })) as u64
}

/// The position once the premount archive has been listed.
pub open spec fn done_position(total: u32) -> u64 {
    (total * 65536 + (if total / 2 % 2 == 1 {
        0int
    } else {
        131072
    })) as u64
}

/// What a read of a directory yields: records and the position behind them,
/// the room that the next record needs, or an unreadable sector and the
/// position then.
pub enum DirRead {
    Entries { data: Seq<u8>, position: u64 },
    TooSmall { need: int },
    Unreadable { position: u64 },
}

/// Reads records from byte `off` of the directory's sector `idx`, which is
/// `s`, on, into what is left of `room` bytes behind `out`.
pub open spec fn fill<S: IsoSource>(
    src: &S,
    lba: u32,
    total: u32,
    room: int,
    idx: int,
    off: int,
    s: Seq<u8>,
    out: Seq<u8>,
) -> DirRead
    decreases total - idx, 2048 - off,
{
    let ended = DirRead::Entries { data: out, position: end_position(total) };
    let name = iso9660::effective_name(iso9660::record_name(s, off));
    let need = info_size(name.len() as int);
    if out.len() + INFO_SIZE + 2 > room || idx >= total || off < 0 {
        DirRead::Entries { data: out, position: dir_position(idx, off) }
    } else if off + 34 > 2048 || s[off] == 0 {
        if idx + 1 >= total {
            ended
        } else {
            match iso_source::iso_sector(src, iso9660::wrap32(lba + idx + 1)) {
                None => DirRead::Unreadable { position: dir_position(idx + 1, 0) },
                Some(next) => if off > 0 && next[0] == 0 {
                    ended
                } else {
                    fill(src, lba, total, room, idx + 1, 0, next, out)
                },
            }
        }
    } else if !iso9660::record_at(s, off) {
        ended
    } else if out.len() + need > room {
        if out.len() == 0 {
            DirRead::TooSmall { need }
        } else {
            DirRead::Entries { data: out, position: dir_position(idx, off) }
        }
    } else {
        let e = iso9660::record_extent(s, off);
        fill(
            src,
            lba,
            total,
            room,
            idx,
            off + s[off],
            s,
            out + info_record(name, e.size as u64, e.is_dir),
        )
    }
}

/// The name that the premount archive is listed under.
pub open spec fn premount_name(ctx: IsoFsCtx) -> Seq<u8> {
    if ctx.premount_target_name@.len() > 0 {
        ctx.premount_target_name@
    } else {
        bytes::text("PREMOUNT.CPIO")
    }
}

/// What a read of an open directory into `room` bytes comes to: the outcome,
/// and the directory after it.
pub open spec fn dir_read<S: IsoSource>(src: &S, ctx: IsoFsCtx, f: FileView, room: int) -> (
    DirRead,
    FileView,
) {
    let total = iso9660::spec_sector_count(f.extent_size);
    let idx = (f.position / 65536 % 0x1_0000_0000) as int;
    let off = (f.position % 65536) as int;
    let g = if f.position == 0 {
        FileView { synthetic_injected: false, ..f }
    } else {
        f
    };
    if idx >= total && f.position / 65536 % 2 == 1 && !g.synthetic_injected {
        let record = info_record(premount_name(ctx), ctx.premount_cpio@.len() as u64, false);
        if ctx.premount_cpio@.len() == 0 {
            let done = done_position(total);
            (
                DirRead::Entries { data: Seq::empty(), position: done },
                FileView { position: done, ..g },
            )
        } else if record.len() <= room {
            let done = done_position(total);
            (
                DirRead::Entries { data: record, position: done },
                FileView { position: done, synthetic_injected: true, ..g },
            )
        } else {
            (DirRead::TooSmall { need: record.len() as int }, g)
        }
    } else if idx >= total {
        (DirRead::Entries { data: Seq::empty(), position: g.position }, g)
    } else {
        match iso_source::iso_sector(src, iso9660::wrap32(f.extent_lba + idx)) {
            None => (DirRead::Unreadable { position: g.position }, g),
            Some(s) => {
                let r = fill(src, f.extent_lba, total, room, idx, off, s, Seq::empty());
                let position = match r {
                    DirRead::Entries { position, .. } => position,
                    DirRead::TooSmall { .. } => g.position,
                    DirRead::Unreadable { position } => position,
                };
                (r, FileView { position, ..g })
            },
        }
    }
}

/// The outcome of a directory read, in the caller's terms.
pub open spec fn read_result(r: DirRead) -> Result<Seq<u8>, (FileStatus, int)> {
    match r {
        DirRead::Entries { data, .. } => Ok(data),
        DirRead::TooSmall { need } => Err((FileStatus::BufferTooSmall, need)),
        DirRead::Unreadable { .. } => Err((FileStatus::DeviceError, 0)),
    }
}

pub open spec fn result_view(r: Result<Vec<u8>, (FileStatus, usize)>) -> Result<
    Seq<u8>,
    (FileStatus, int),
> {
    match r {
        Ok(v) => Ok(v@),
        Err((s, n)) => Err((s, n as int)),
    }
}

#[verifier::rlimit(80)]
#[verifier::loop_isolation(false)]
fn fill_from<S: IsoSource>(
    src: &S,
    lba: u32,
    total: u32,
    room: usize,
    start_idx: u32,
    start_off: usize,
    first: &[u8; 2048],
) -> (r: (Result<Vec<u8>, (FileStatus, usize)>, Option<u64>))
    requires
        start_idx < total,
        start_off <= 65535,
    ensures
        ({
            let want = fill(
                src,
                lba,
                total,
                room as int,
                start_idx as int,
                start_off as int,
                first@,
                Seq::empty(),
            );
            &&& result_view(r.0) == read_result(want)
            &&& r.1 == (match want {
                DirRead::Entries { position, .. } => Some(position),
                DirRead::TooSmall { .. } => None,
                DirRead::Unreadable { position } => Some(position),
            })
        }),
{
    let mut s: [u8; 2048] = *first;
    let mut idx: u32 = start_idx;
    let mut off: usize = start_off;
    let mut out: Vec<u8> = Vec::new();
    let ghost want = fill(
        src,
        lba,
        total,
        room as int,
        start_idx as int,
        start_off as int,
        first@,
        Seq::empty(),
    );
    let end: u64 = total as u64 * 65536 + (if total % 2 == 1 {
        0
    } else {
        65536
    });
    loop
        invariant
            idx < total,
            off <= 65535,
            off > 2048 ==> idx == start_idx && off == start_off,
            out@.len() <= room,
            want == fill(src, lba, total, room as int, idx as int, off as int, s@, out@),
        decreases total - idx, 65536 - off,
    {
        if room < INFO_SIZE + 2 || out.len() > room - (INFO_SIZE + 2) {
            return (Ok(out), Some(idx as u64 * 65536 + off as u64));
        }
        if off + 34 > 2048 || s[off] == 0 {
            if idx + 1 >= total {
                return (Ok(out), Some(end));
            }
            let next: u32 = ((lba as u64 + idx as u64 + 1) % 0x1_0000_0000) as u32;
            if !read_iso_sector(src, next, &mut s) {
                return (Err((FileStatus::DeviceError, 0)), Some((idx as u64 + 1) * 65536));
            }
            if off > 0 && s[0] == 0 {
                return (Ok(out), Some(end));
            }
            idx += 1;
            off = 0;
            continue;
        }
        match read_record(&s, off) {
            None => {
                return (Ok(out), Some(end));
            },
            Some(len) => {
                let data: &[u8] = &s;
                let name_len: usize = s[off + 32] as usize;
                let full: &[u8] = &data[off + 33..off + 33 + name_len];
                let n: usize = iso_name_effective_len(full);
                let name: &[u8] = &full[0..n];
                assert(name@ =~= iso9660::effective_name(iso9660::record_name(s@, off as int)));
                let need: usize = (INFO_SIZE + (n + 1) * 2 + 7) / 8 * 8;
                if need > room - out.len() {
                    if out.len() == 0 {
                        return (Err((FileStatus::BufferTooSmall, need)), None);
                    }
                    return (Ok(out), Some(idx as u64 * 65536 + off as u64));
                }
                let e: Extent = read_extent(&s, off);
                push_info_record(&mut out, name, e.size as u64, e.is_dir);
                off += len;
            },
        }
    }
}

/// Reads records of an open directory into `room` bytes, from its position on.
/// The premount archive is listed last, once the others are.
pub fn file_read_dir<S: IsoSource>(src: &S, ctx: &IsoFsCtx, vf: &mut VirtualFile, room: usize) -> (r:
    Result<Vec<u8>, (FileStatus, usize)>)
    requires
        ctx.premount_target_name@.len() <= 16,
    ensures
        !old(vf).is_dir ==> r == Err::<Vec<u8>, (FileStatus, usize)>((FileStatus::Unsupported, 0))
            && *final(vf) == *old(vf),
        old(vf).is_dir ==> {
            let (want, after) = dir_read(src, *ctx, old(vf)@, room as int);
            &&& result_view(r) == read_result(want)
            &&& final(vf)@ == after
        },
{
    if !vf.is_dir {
        return Err((FileStatus::Unsupported, 0));
    }
    let total: u32 = sector_count(vf.extent_size);
    let idx: u32 = (vf.position / 65536 % 0x1_0000_0000) as u32;
    let off: usize = (vf.position % 65536) as usize;
    if vf.position == 0 {
        vf.synthetic_injected = false;
    }
    if idx >= total && vf.position / 65536 % 2 == 1 && !vf.synthetic_injected {
        let done: u64 = total as u64 * 65536 + (if total / 2 % 2 == 1 {
            0
        } else {
            131072
        });
        if ctx.premount_cpio.len() == 0 {
            vf.position = done;
            return Ok(Vec::new());
        }
        let name: &[u8] = if ctx.premount_target_name.len() > 0 {
            &ctx.premount_target_name
        } else {
            "PREMOUNT.CPIO".as_bytes()
        };
        proof {
            reveal_strlit("PREMOUNT.CPIO");
            vstd::string::is_ascii_spec_bytes("PREMOUNT.CPIO");
        }
        let mut out: Vec<u8> = Vec::new();
        push_info_record(&mut out, name, ctx.premount_cpio.len() as u64, false);
        assert(out@ =~= info_record(premount_name(*ctx), ctx.premount_cpio@.len() as u64, false));
        if out.len() > room {
            return Err((FileStatus::BufferTooSmall, out.len()));
        }
        vf.synthetic_injected = true;
        vf.position = done;
        return Ok(out);
    }
    if idx >= total {
        return Ok(Vec::new());
    }
    let mut s: [u8; 2048] = [0; 2048];
    if !read_iso_sector(src, add32(vf.extent_lba, idx), &mut s) {
        return Err((FileStatus::DeviceError, 0));
    }
    let (r, position) = fill_from(src, vf.extent_lba, total, room, idx, off, &s);
    if let Some(p) = position {
        vf.position = p;
    }
    r
}

/// A file that the volume redirects reads as its new contents.
pub proof fn redirected_file_reads_new_contents<S: IsoSource>(
    src: &S,
    ctx: IsoFsCtx,
    e: Extent,
    needs_grub_patch: bool,
    len: int,
)
    requires
        is_redirected(ctx, e),
        len >= (ctx.redirect->0).content@.len(),
    ensures
        file_data(src, ctx, opened_in(ctx, e, needs_grub_patch), len) == (ctx.redirect->0).content@,
{
    let content = (ctx.redirect->0).content@;
    assert(content.subrange(0, content.len() as int) =~= content);
}

} // verus!
