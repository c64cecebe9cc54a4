//! What the boot loader of an image sees of it: a CD-ROM, and the files on it.

use vstd::prelude::*;
use crate::bytes;
use crate::digits;
use crate::efi::iso9660;
use crate::efi::iso_fs;
use crate::efi::iso_fs::{DirRead, FileStatus, FileView, IsoFsCtx};
use crate::efi::iso_laws;
use crate::efi::iso_source;
use crate::efi::iso_source::IsoSource;
use crate::efi::premount;
use crate::efi::virtual_blockio;
use crate::efi::virtual_blockio::{
    EntryPlace, IsoMedia, RawMedia, SetupStep, VhdMedia, VirtualBlockIo, VirtualMedia,
};

verus! {

// ---------------------------------------------------------------------------
// Blocks
// ---------------------------------------------------------------------------

/// A block of a medium is read where the blocks before it end on the disk.
pub proof fn block_lies_behind_those_before(
    block: u64,
    start: u64,
    size: u32,
    count: u64,
    backing: u32,
    len: int,
    offset: int,
)
    requires
        0 < backing,
    ensures
        ({
            let r = virtual_blockio::block_source(block, start, size, count, backing, len, offset);
            &&& r matches Some(lba) ==> {
                &&& lba * backing == start * backing + block * size
                &&& block < count
                &&& offset + size <= len
            }
            &&& block < count && 0 < size <= 65536 && offset + size <= len && size % backing == 0
                && start + block * (size / backing) <= u64::MAX ==> r is Some
        }),
{
    if size % backing == 0 {
        let k: u32 = size / backing;
        assert(size == k * backing) by {
            vstd::arithmetic::div_mod::lemma_fundamental_div_mod(size as int, backing as int);
            assert(backing as int * (size as int / backing as int) == k * backing)
                by (nonlinear_arith)
                requires
                    k == size as int / backing as int,
            ;
        }
        assert((start + block * k) * backing == start * backing + block * size) by (nonlinear_arith)
            requires
                size == k * backing,
        ;
    }
}

/// A CD-ROM has blocks of 2048 bytes, and a disk image those of its disk, which are of
/// 512 bytes at least. Each is read from where its data start.
pub proof fn media_have_their_blocks(i: IsoMedia, r: RawMedia, v: VhdMedia)
    ensures
        i.spec_block_size() == 2048,
        i.spec_start() == i.iso_lba,
        i.spec_count() == i.total_blocks,
        r.spec_block_size() == (if r.sector_size > 512 {
            r.sector_size
        } else {
            512
        }),
        r.spec_start() == r.start_lba,
        r.spec_count() == r.total_blocks,
        v.spec_block_size() == (if v.sector_size > 512 {
            v.sector_size
        } else {
            512
        }),
        v.spec_start() == v.data_lba,
        v.spec_count() == v.total_blocks,
        i.spec_media_type() == "ISO"@,
        r.spec_media_type() == "IMG"@,
        v.spec_media_type() == "VHD"@,
{
}

/// The volume descriptor of the CD-ROM tells how many blocks it has, whatever the
/// image says; all else of the descriptor is the image's.
pub proof fn descriptor_counts_the_blocks(v: VirtualBlockIo, raw: Seq<u8>)
    requires
        raw.len() == 2048,
        v.last_block < u32::MAX,
        v.replaced matches Some(f) ==> f.entry.sector != 16 && f.extent > 16,
        v.initrd matches Some(x) ==> x.entry.sector != 16 && x.base_lba > 16,
    ensures
        ({
            let b = v.block(16, raw);
            &&& b.len() == 2048
            &&& iso_laws::number4(b, 80) == v.last_block + 1
            &&& b[87] + 256 * b[86] + 65536 * b[85] + 16777216 * b[84] == v.last_block + 1
            &&& forall|k: int| 0 <= k < 2048 && !(80 <= k < 88) ==> #[trigger] b[k] == raw[k]
        }),
{
    let n = iso9660::wrap32(v.last_block + 1);
    assert(n == v.last_block + 1);
    bytes::le32_round_trip(n);
    let t = bytes::le_bytes32(n) + bytes::be_bytes32(n);
    let b = v.block(16, raw);
    assert(b == bytes::overlay(raw, 80, t));
    assert(b[80] == t[0] && b[81] == t[1] && b[82] == t[2] && b[83] == t[3]);
    assert(b[84] == t[4] && b[85] == t[5] && b[86] == t[6] && b[87] == t[7]);
}

/// Behind the last sector of an initrd that was extended the archive is read, and
/// zeros behind that.
pub proof fn archive_follows_the_initrd(v: VirtualBlockIo, i: int, k: int, raw: Seq<u8>)
    requires
        v.initrd is Some,
        0 <= i < (v.initrd->0).ext_sectors,
        0 <= k < 2048,
        ({
            let x = v.initrd->0;
            let lba = x.base_lba + (x.orig_size + 2047) / 2048 + i;
            x.entry.sector != lba && (v.replaced matches Some(f) ==> f.entry.sector != lba)
        }),
    ensures
        ({
            let x = v.initrd->0;
            let lba = x.base_lba + (x.orig_size + 2047) / 2048 + i;
            let c = v.premount_cpio@;
            v.block(lba as u64, raw)[k] == (if i * 2048 + k < c.len() {
                c[i * 2048 + k]
            } else {
                0
            })
        }),
{
}

/// The entry of an initrd that was extended covers the archive too: the file starts
/// where it did and is longer by the sectors of the archive.
pub proof fn initrd_entry_covers_the_archive(v: VirtualBlockIo, raw: Seq<u8>)
    requires
        raw.len() == 2048,
        v.initrd is Some,
        (v.initrd->0).entry.offset + 18 <= 2048,
        v.replaced matches Some(f) ==> f.entry.sector != (v.initrd->0).entry.sector,
        ((v.initrd->0).orig_size + 2047) / 2048 * 2048 + (v.initrd->0).ext_sectors * 2048 <= u32::MAX,
    ensures
        ({
            let x = v.initrd->0;
            let at = x.entry.offset as int;
            let b = v.block(x.entry.sector as u64, raw);
            let size = iso_laws::number4(b, at + 10);
            &&& iso_laws::number4(b, at + 2) == x.base_lba
            &&& size % 2048 == 0
            &&& size >= x.orig_size + x.ext_sectors * 2048
            &&& size < x.orig_size + x.ext_sectors * 2048 + 2048
            &&& forall|k: int|
                0 <= k < 2048 && !(at + 2 <= k < at + 18) ==> #[trigger] b[k] == raw[k]
        }),
{
    let x = v.initrd->0;
    let at = x.entry.offset as int;
    virtual_blockio::redirected_entry_reads_back(raw, at, x.base_lba, x.new_size());
    assert(v.block(x.entry.sector as u64, raw) == virtual_blockio::redirected(
        raw,
        at,
        x.base_lba,
        x.new_size(),
    ));
}

/// A file that was replaced stands behind the last sector of the image, and the
/// CD-ROM has grown by its sectors.
pub proof fn replaced_file_stands_behind_the_image(
    a: VirtualBlockIo,
    b: VirtualBlockIo,
    entry: EntryPlace,
    content: Seq<u8>,
    raw: Seq<u8>,
    k: int,
)
    requires
        virtual_blockio::replaces(a, b, entry, content),
        a.initrd is None,
        a.last_block + (content.len() + 2047) / 2048 <= u32::MAX,
        entry.sector <= a.last_block,
        0 <= k < content.len(),
    ensures
        b.block((a.last_block + 1 + k / 2048) as u64, raw)[k % 2048] == content[k],
        (b.last_block - a.last_block) * 2048 >= content.len() > (b.last_block - a.last_block - 1)
            * 2048,
{
    let f = b.replaced->0;
    let i = k / 2048;
    let n = (a.last_block + 1 + i) as u64;
    let d = virtual_blockio::whole_sectors(content);
    assert(d.len() == (content.len() + 2047) / 2048 * 2048);
    assert(d[k] == content[k]);
    assert(f.extent == a.last_block + 1);
    assert(f.data@ == d);
    assert(f.covers(n));
    assert(!b.redirects_file(n) && !b.redirects_initrd(n));
    assert(b.block(n, raw) == f.data@.subrange((n - f.extent) * 2048, (n - f.extent) * 2048 + 2048));
    assert(i * 2048 + k % 2048 == k);
}

/// The entry of a file that was replaced leads to its new contents, and the other
/// blocks of the image read as they did, but for the descriptor.
pub proof fn replaced_entry_leads_behind_the_image(
    a: VirtualBlockIo,
    b: VirtualBlockIo,
    entry: EntryPlace,
    content: Seq<u8>,
    raw: Seq<u8>,
    lba: u64,
)
    requires
        virtual_blockio::replaces(a, b, entry, content),
        a.initrd is None,
        a.last_block + (content.len() + 2047) / 2048 <= u32::MAX,
        a.last_block < u32::MAX,
        content.len() <= u32::MAX,
        entry.offset + 18 <= 2048,
        raw.len() == 2048,
    ensures
        iso_laws::number4(b.block(entry.sector as u64, raw), entry.offset + 2) == a.last_block + 1,
        iso_laws::number4(b.block(entry.sector as u64, raw), entry.offset + 10) == content.len(),
        lba <= a.last_block && lba != 16 && lba != entry.sector ==> b.block(lba, raw) == raw,
{
    let f = b.replaced->0;
    let at = entry.offset as int;
    virtual_blockio::redirected_entry_reads_back(raw, at, f.extent, f.size);
    assert(b.block(entry.sector as u64, raw) == virtual_blockio::redirected(
        raw,
        at,
        f.extent,
        f.size,
    ));
    if lba <= a.last_block {
        assert(!f.covers(lba));
    }
}

/// Blocks that are read at once are read one behind the other.
pub proof fn blocks_are_read_in_a_row(
    v: VirtualBlockIo,
    lba: int,
    raws: Seq<Seq<u8>>,
    n: int,
    i: int,
    k: int,
)
    requires
        0 <= lba,
        lba + n <= u64::MAX,
        0 <= i < n <= raws.len(),
        0 <= k < 2048,
        forall|j: int|
            0 <= j < n ==> v.block((lba + j) as u64, #[trigger] raws[j]).len() == 2048,
    ensures
        v.blocks(lba, raws, n).len() == n * 2048,
        v.blocks(lba, raws, n)[i * 2048 + k] == v.block((lba + i) as u64, raws[i])[k],
    decreases n,
{
    blocks_len(v, lba, raws, n - 1);
    assert(v.block((lba + n - 1) as u64, raws[n - 1]).len() == 2048);
    if i < n - 1 {
        blocks_are_read_in_a_row(v, lba, raws, n - 1, i, k);
        assert(v.blocks(lba, raws, n)[i * 2048 + k] == v.blocks(lba, raws, n - 1)[i * 2048 + k]);
    }
}

proof fn blocks_len(v: VirtualBlockIo, lba: int, raws: Seq<Seq<u8>>, n: int)
    requires
        0 <= lba,
        lba + n <= u64::MAX,
        0 <= n <= raws.len(),
        forall|j: int|
            0 <= j < n ==> v.block((lba + j) as u64, #[trigger] raws[j]).len() == 2048,
    ensures
        v.blocks(lba, raws, n).len() == n * 2048,
    decreases n,
{
    if n > 0 {
        blocks_len(v, lba, raws, n - 1);
        assert(v.block((lba + n - 1) as u64, raws[n - 1]).len() == 2048);
    }
}

/// A CD-ROM is set up with its block access, its path and its file system, in this
/// order. It is of no use without block access, and of use without the rest.
pub proof fn cdrom_is_set_up_in_order()
    ensures
        ({
            let good = |s: SetupStep| s.spec_next(true);
            let bad = |s: SetupStep| s.spec_next(false);
            &&& good(SetupStep::AllocatePath) == SetupStep::AllocateBlockIo
            &&& good(SetupStep::AllocateBlockIo) == SetupStep::InstallBlockIo
            &&& good(SetupStep::InstallBlockIo) == SetupStep::InstallPath
            &&& good(SetupStep::InstallPath) == SetupStep::CreateFs
            &&& bad(SetupStep::InstallPath) == SetupStep::CreateFs
            &&& good(SetupStep::CreateFs) == SetupStep::InstallFs
            &&& good(SetupStep::InstallFs) == SetupStep::QueryFs
            &&& good(SetupStep::QueryFs) == (SetupStep::Done { with_fs: true })
            &&& bad(SetupStep::CreateFs) == (SetupStep::Done { with_fs: false })
            &&& good(bad(SetupStep::InstallFs)) == (SetupStep::Done { with_fs: false })
            &&& bad(SetupStep::QueryFs) == SetupStep::DoneHidden
            &&& bad(SetupStep::AllocatePath) == SetupStep::Failed
            &&& good(bad(SetupStep::AllocateBlockIo)) == SetupStep::Failed
            &&& good(good(bad(SetupStep::InstallBlockIo))) == SetupStep::Failed
        }),
{
}

// ---------------------------------------------------------------------------
// Files
// ---------------------------------------------------------------------------

/// Contents in memory that are read in two pieces are read as in one.
pub proof fn memory_is_read_in_order(data: Seq<u8>, pos: u64, a: int, b: int)
    requires
        0 <= a,
        0 <= b,
        pos + a <= u64::MAX,
    ensures
        iso_fs::memory_read(data, 0, data.len() as int) == data,
        iso_fs::memory_read(data, pos, a + b) == iso_fs::memory_read(data, pos, a)
            + iso_fs::memory_read(data, (pos + a) as u64, b),
        pos + a <= data.len() ==> iso_fs::memory_read(data, pos, a).len() == a,
        forall|k: int|
            0 <= k < iso_fs::memory_read(data, pos, a).len() ==> #[trigger] iso_fs::memory_read(
                data,
                pos,
                a,
            )[k] == data[pos + k],
{
    assert(iso_fs::memory_read(data, 0, data.len() as int) =~= data);
    assert(iso_fs::memory_read(data, pos, a + b) =~= iso_fs::memory_read(data, pos, a)
        + iso_fs::memory_read(data, (pos + a) as u64, b));
}

/// A file that is opened is read from its start: the archive under its name, the
/// new contents where they were redirected, and else what the image holds.
pub proof fn opened_file_is_read_from_its_start<S: IsoSource>(
    src: &S,
    ctx: IsoFsCtx,
    dir: FileView,
    path: Seq<u16>,
    len: int,
)
    requires
        dir.is_dir,
        path.len() <= 256,
        len >= 0,
    ensures
        ({
            let r = iso_fs::open_outcome(src, ctx, dir, path);
            let archive = ctx.premount_cpio@;
            let at = iso9660::resolve(src, dir.extent_lba, dir.extent_size, path);
            if archive.len() > 0 && (iso_fs::names(path, ctx.premount_target_name@)
                || iso_fs::names(path, bytes::text("PREMOUNT.CPIO"))) {
                r matches Ok(f) && {
                    &&& !f.is_dir && f.position == 0
                    &&& len >= archive.len() ==> iso_fs::file_data(src, ctx, f, len) == archive
                    &&& archive.len() <= u32::MAX ==> f.extent_size == archive.len()
                    &&& iso_fs::length(ctx, f) == archive.len() as u64
                }
            } else {
                match at {
                    None => r == Err::<FileView, FileStatus>(FileStatus::NotFound),
                    Some(e) => r matches Ok(f) && {
                        &&& f.is_dir == e.is_dir && f.position == 0
                        &&& f.needs_grub_patch == (!e.is_dir && iso_fs::is_cfg_path(path))
                        &&& match ctx.redirect {
                            Some(x) if !e.is_dir && e.lba == x.old_extent && e.size == x.old_size => {
                                &&& len >= x.content@.len() ==> iso_fs::file_data(src, ctx, f, len)
                                    == x.content@
                                &&& f.extent_lba == x.new_extent && f.extent_size == x.new_size
                                &&& iso_fs::length(ctx, f) == x.content@.len() as u64
                            },
                            _ => {
                                &&& iso_fs::file_data(src, ctx, f, len)
                                    == iso9660::spec_read_extent(src, e.lba, e.size, 0, len)
                                &&& iso_fs::length(ctx, f) == e.size
                            },
                        }
                    },
                }
            }
        }),
{
    let archive = ctx.premount_cpio@;
    if len >= archive.len() {
        assert(iso_fs::memory_read(archive, 0, len) =~= archive);
    }
    if ctx.redirect is Some {
        let c = (ctx.redirect->0).content@;
        if len >= c.len() {
            assert(iso_fs::memory_read(c, 0, len) =~= c);
        }
    }
}

/// A file is that of a configuration when its path ends in `.cfg`, in either case.
pub proof fn configurations_end_in_cfg(front: Seq<u16>, c: u16, f: u16, g: u16)
    ensures
        (c == 0x63 || c == 0x43) && (f == 0x66 || f == 0x46) && (g == 0x67 || g == 0x47)
            ==> iso_fs::is_cfg_path(front + seq![0x2Eu16, c, f, g]),
        front.len() < 4 ==> !iso_fs::is_cfg_path(front),
        c < 256 && f < 256 && g < 256 && iso_fs::is_cfg_path(front + seq![0x2Eu16, c, f, g]) ==> (c
            == 0x63 || c == 0x43) && (f == 0x66 || f == 0x46) && (g == 0x67 || g == 0x47),
{
    let path = front + seq![0x2Eu16, c, f, g];
    let n = path.len();
    assert(path[n - 4] == 0x2E && path[n - 3] == c && path[n - 2] == f && path[n - 1] == g);
    bit_makes_lower((c % 256) as u8);
    bit_makes_lower((f % 256) as u8);
    bit_makes_lower((g % 256) as u8);
}

proof fn bit_makes_lower(b: u8)
    ensures
        (b | 0x20) == 0x63u8 <==> b == 0x63 || b == 0x43,
        (b | 0x20) == 0x66u8 <==> b == 0x66 || b == 0x46,
        (b | 0x20) == 0x67u8 <==> b == 0x67 || b == 0x47,
        0x2Eu8 | 0x20 == 0x2Eu8,
{
    assert((b | 0x20) == 0x63u8 <==> b == 0x63 || b == 0x43) by (bit_vector);
    assert((b | 0x20) == 0x66u8 <==> b == 0x66 || b == 0x46) by (bit_vector);
    assert((b | 0x20) == 0x67u8 <==> b == 0x67 || b == 0x47) by (bit_vector);
    assert(0x2Eu8 | 0x20 == 0x2Eu8) by (bit_vector);
}

/// A path names a file by what follows its last separator, the version and the case
/// of its letters aside.
pub proof fn last_component_names_the_file(dirs: Seq<u16>, sep: u16, name: Seq<u16>, target: Seq<u8>)
    requires
        sep == 0x5C || sep == 0x2F,
        name.len() > 0,
        forall|i: int| 0 <= i < name.len() ==> #[trigger] name[i] != 0x5C && name[i] != 0x2F,
        name.len() >= 2 ==> name[name.len() - 2] != 0x3B,
    ensures
        iso_fs::names(dirs.push(sep) + name, target) == iso_fs::names(name, target),
        iso_fs::names(name, target) <==> {
            &&& name.len() == target.len()
            &&& forall|i: int|
                0 <= i < target.len() ==> iso_laws::folded(name[i] as int) == iso_laws::folded(
                    #[trigger] target[i] as int,
                )
        },
{
    let path = dirs.push(sep) + name;
    tail_is_name(dirs.push(sep), name);
    tail_is_name(Seq::empty(), name);
    assert(Seq::<u16>::empty() + name =~= name);
    if iso_fs::names(name, target) {
        assert forall|i: int| 0 <= i < target.len() implies iso_laws::folded(name[i] as int)
            == iso_laws::folded(#[trigger] target[i] as int) by {
            assert(iso_fs::lower16(name[i]) == bytes::spec_lower(target[i]) as u16);
        }
    }
    if name.len() == target.len() && (forall|i: int|
        0 <= i < target.len() ==> iso_laws::folded(name[i] as int) == iso_laws::folded(
            #[trigger] target[i] as int,
        )) {
        assert forall|i: int| 0 <= i < target.len() implies iso_fs::lower16(name[i])
            == bytes::spec_lower(#[trigger] target[i]) as u16 by {
            assert(iso_laws::folded(name[i] as int) == iso_laws::folded(target[i] as int));
        }
    }
}

proof fn tail_is_name(front: Seq<u16>, name: Seq<u16>)
    requires
        front.len() > 0 ==> front.last() == 0x5C || front.last() == 0x2F,
        forall|i: int| 0 <= i < name.len() ==> #[trigger] name[i] != 0x5C && name[i] != 0x2F,
    ensures
        iso_fs::file_part(front + name) == name,
    decreases name.len(),
{
    let path = front + name;
    if name.len() == 0 {
        assert(path =~= front);
        assert(iso_fs::file_part(path) =~= name);
    } else {
        let n = name.drop_last();
        tail_is_name(front, n);
        assert(path.drop_last() =~= front + n);
        assert(path.last() == name[name.len() - 1]);
        assert(n.push(name.last()) =~= name);
    }
}

/// What the firmware is told of a file: how long the record is, how long the file
/// is, whether it is a directory, and its name.
pub proof fn info_tells_of_the_file(name: Seq<u8>, size: u64, is_dir: bool)
    requires
        name.len() <= 255,
    ensures
        ({
            let r = iso_fs::info_record(name, size, is_dir);
            let number8 = |at: int|
                iso_laws::number4(r, at) + 0x1_0000_0000 * iso_laws::number4(r, at + 4);
            &&& number8(0) == r.len()
            &&& number8(8) == size
            &&& number8(16) == size
            &&& number8(72) == (if is_dir {
                1int
            } else {
                0
            })
            &&& r.len() % 8 == 0
            &&& 80 + 2 * name.len() + 2 <= r.len() < 80 + 2 * name.len() + 10
            &&& forall|i: int|
                0 <= i < name.len() ==> r[80 + 2 * i] == #[trigger] name[i] && r[81 + 2 * i] == 0
            &&& forall|i: int| 80 + 2 * name.len() <= i < r.len() ==> #[trigger] r[i] == 0
        }),
{
    let n = iso_fs::info_size(name.len() as int);
    let attr: u64 = if is_dir {
        1
    } else {
        0
    };
    let head = iso_fs::info_head(n, size, is_dir);
    let b0 = bytes::le_bytes64(n as u64);
    let b1 = bytes::le_bytes64(size);
    let b2 = bytes::le_bytes64(attr);
    assert(head =~= b0 + b1 + b1 + bytes::zeros(48) + b2);
    assert(head.len() == 80);
    let r = iso_fs::info_record(name, size, is_dir);
    assert(r.len() == n);
    bytes::le64_round_trip(n as u64);
    bytes::le64_round_trip(size);
    bytes::le64_round_trip(attr);
    number_at(r, 0, b0);
    number_at(r, 8, b1);
    number_at(r, 16, b1);
    number_at(r, 72, b2);
    assert forall|i: int| 0 <= i < name.len() implies r[80 + 2 * i] == #[trigger] name[i] && r[81 + 2
        * i] == 0 by {
        assert(r[80 + 2 * i] == iso_fs::wide(name)[2 * i]);
        assert(r[81 + 2 * i] == iso_fs::wide(name)[2 * i + 1]);
    }
}

proof fn number_at(r: Seq<u8>, at: int, b: Seq<u8>)
    requires
        0 <= at,
        at + 8 <= r.len(),
        b.len() == 8,
        forall|i: int| 0 <= i < 8 ==> r[at + i] == #[trigger] b[i],
    ensures
        iso_laws::number4(r, at) + 0x1_0000_0000 * iso_laws::number4(r, at + 4) == bytes::spec_le64(
            b,
            0,
        ),
{
    assert(r[at] == b[0] && r[at + 1] == b[1] && r[at + 2] == b[2] && r[at + 3] == b[3]);
    assert(r[at + 4] == b[4] && r[at + 5] == b[5] && r[at + 6] == b[6] && r[at + 7] == b[7]);
    assert(bytes::spec_le32(b, 0) == iso_laws::number4(r, at));
    assert(bytes::spec_le32(b, 4) == iso_laws::number4(r, at + 4));
}

proof fn listing_keeps_what_it_has<S: IsoSource>(
    src: &S,
    lba: u32,
    total: u32,
    room: int,
    idx: int,
    off: int,
    s: Seq<u8>,
    out: Seq<u8>,
)
    requires
        out.len() > 0,
    ensures
        match iso_fs::fill(src, lba, total, room, idx, off, s, out) {
            DirRead::Entries { data, .. } => data.len() >= out.len() && data.take(out.len() as int)
                == out,
            DirRead::TooSmall { .. } => false,
            DirRead::Unreadable { .. } => true,
        },
    decreases total - idx, 2048 - off,
{
    assert(out.take(out.len() as int) =~= out);
    let name = iso9660::effective_name(iso9660::record_name(s, off));
    let need = iso_fs::info_size(name.len() as int);
    if out.len() + 82 > room || idx >= total || off < 0 {
    } else if off + 34 > 2048 || s[off] == 0 {
        if idx + 1 < total {
            let n = iso9660::wrap32(lba + idx + 1);
            if iso_source::iso_sector(src, n) is Some {
                let next = iso_source::iso_sector(src, n)->0;
                if !(off > 0 && next[0] == 0) {
                    listing_keeps_what_it_has(src, lba, total, room, idx + 1, 0, next, out);
                }
            }
        }
    } else if iso9660::record_at(s, off) && out.len() + need <= room {
        let e = iso9660::record_extent(s, off);
        let more = out + iso_fs::info_record(name, e.size as u64, e.is_dir);
        listing_keeps_what_it_has(src, lba, total, room, idx, off + s[off], s, more);
        match iso_fs::fill(src, lba, total, room, idx, off + s[off], s, more) {
            DirRead::Entries { data, .. } => {
                assert(data.take(out.len() as int) =~= data.take(more.len() as int).take(
                    out.len() as int,
                ));
                assert(more.take(out.len() as int) =~= out);
            },
            _ => {},
        }
    }
}

proof fn info_len(name: Seq<u8>, size: u64, is_dir: bool)
    requires
        name.len() <= 255,
    ensures
        iso_fs::info_record(name, size, is_dir).len() == iso_fs::info_size(name.len() as int),
        iso_fs::info_size(name.len() as int) > 0,
{
    let n = iso_fs::info_size(name.len() as int);
    assert(iso_fs::info_head(n, size, is_dir).len() == 80);
}

proof fn first_is_told<S: IsoSource>(
    src: &S,
    lba: u32,
    total: u32,
    room: int,
    idx: int,
    off: int,
    s: Seq<u8>,
    name: Seq<u8>,
    told: Seq<u8>,
)
    requires
        0 <= idx < total,
        off >= 0,
        iso9660::record_at(s, off),
        82 <= room,
        name == iso9660::effective_name(iso9660::record_name(s, off)),
        told == iso_fs::info_record(
            name,
            iso9660::record_extent(s, off).size as u64,
            iso9660::record_extent(s, off).is_dir,
        ),
        told.len() == iso_fs::info_size(name.len() as int),
        told.len() > 0,
    ensures
        match iso_fs::fill(src, lba, total, room, idx, off, s, Seq::empty()) {
            DirRead::Entries { data, .. } => told.len() <= room && told.len() <= data.len()
                && data.take(told.len() as int) == told,
            DirRead::TooSmall { need } => need == told.len() && room < told.len(),
            DirRead::Unreadable { .. } => told.len() <= room,
        },
{
    if told.len() <= room {
        assert(Seq::<u8>::empty() + told =~= told);
        listing_keeps_what_it_has(src, lba, total, room, idx, off + s[off], s, told);
    }
}

/// A directory is listed from the record where the reader stands: what is told first
/// is what that record says, if it fits, and else how much room that takes.
pub proof fn listing_starts_with_the_record<S: IsoSource>(
    src: &S,
    lba: u32,
    total: u32,
    room: int,
    idx: int,
    off: int,
    s: Seq<u8>,
)
    requires
        s.len() == 2048,
        0 <= idx < total,
        iso_laws::is_record(s, off),
        82 <= room,
    ensures
        ({
            let name = iso9660::effective_name(s.subrange(off + 33, off + 33 + s[off + 32]));
            let told = iso_fs::info_record(
                name,
                iso_laws::number4(s, off + 10) as u64,
                s[off + 25] / 2 % 2 == 1,
            );
            match iso_fs::fill(src, lba, total, room, idx, off, s, Seq::empty()) {
                DirRead::Entries { data, .. } => told.len() <= room && told.len() <= data.len()
                    && data.take(told.len() as int) == told,
                DirRead::TooSmall { need } => need == told.len() && room < told.len(),
                DirRead::Unreadable { .. } => told.len() <= room,
            }
        }),
{
    let name = iso9660::effective_name(s.subrange(off + 33, off + 33 + s[off + 32]));
    let told = iso_fs::info_record(
        name,
        iso_laws::number4(s, off + 10) as u64,
        s[off + 25] / 2 % 2 == 1,
    );
    assert(name.len() <= 255);
    info_len(name, iso_laws::number4(s, off + 10) as u64, s[off + 25] / 2 % 2 == 1);
    first_is_told(src, lba, total, room, idx, off, s, name, told);
}

/// A directory that was just opened is listed from its first sector on, and one that
/// cannot be read is an error of the device.
pub proof fn directory_is_listed_from_its_start<S: IsoSource>(
    src: &S,
    ctx: IsoFsCtx,
    f: FileView,
    room: int,
)
    requires
        f.is_dir,
        f.position == 0,
        f.extent_size > 0,
    ensures
        ({
            let r = iso_fs::dir_read(src, ctx, f, room).0;
            match iso_laws::image_sector(src, f.extent_lba as int) {
                None => iso_fs::read_result(r) == Err::<Seq<u8>, (FileStatus, int)>(
                    (FileStatus::DeviceError, 0),
                ),
                Some(s) => r == iso_fs::fill(
                    src,
                    f.extent_lba,
                    ((f.extent_size + 2047) / 2048) as u32,
                    room,
                    0,
                    0,
                    s,
                    Seq::empty(),
                ),
            }
        }),
{
    assert(iso9660::spec_sector_count(f.extent_size) > 0);
    assert(iso9660::wrap32(f.extent_lba as int) == f.extent_lba);
}

/// Behind the records of a directory the archive is listed once, where there is one,
/// under the name it goes by and with its size.
pub proof fn archive_is_listed_once<S: IsoSource>(src: &S, ctx: IsoFsCtx, f: FileView, room: int)
    requires
        f.is_dir,
        f.position / 65536 < 0x1_0000_0000,
        f.position / 65536 >= (f.extent_size + 2047) / 2048,
        f.position > 0,
        f.position / 65536 % 2 == 1,
        room >= 4096,
        ctx.premount_target_name@.len() <= 30,
    ensures
        ({
            let (r, after) = iso_fs::dir_read(src, ctx, f, room);
            let name = if ctx.premount_target_name@.len() > 0 {
                ctx.premount_target_name@
            } else {
                bytes::text("PREMOUNT.CPIO")
            };
            let told = iso_fs::read_result(r);
            &&& !f.synthetic_injected && ctx.premount_cpio@.len() > 0 ==> told == Ok::<
                Seq<u8>,
                (FileStatus, int),
            >(iso_fs::info_record(name, ctx.premount_cpio@.len() as u64, false))
                && after.synthetic_injected
            &&& f.synthetic_injected || ctx.premount_cpio@.len() == 0 ==> told == Ok::<
                Seq<u8>,
                (FileStatus, int),
            >(Seq::empty())
        }),
{
    reveal_strlit("PREMOUNT.CPIO");
    vstd::string::is_ascii_spec_bytes("PREMOUNT.CPIO");
    let name = iso_fs::premount_name(ctx);
    assert(name.len() <= 30);
    info_len(name, ctx.premount_cpio@.len() as u64, false);
}

// ---------------------------------------------------------------------------
// Archive
// ---------------------------------------------------------------------------

/// The number that hexadecimal digits denote.
pub open spec fn hex_value(s: Seq<u8>) -> int
    decreases s.len(),
{
    if s.len() == 0 {
        0
    } else {
        16 * hex_value(s.drop_last()) + (if s.last() <= 0x39 {
            s.last() - 0x30
        } else if s.last() < 0x61 {
            s.last() - 0x41 + 10
        } else {
            s.last() - 0x61 + 10
        })
    }
}

/// `16` to the `n`.
pub open spec fn pow16(n: nat) -> nat
    decreases n,
{
    if n == 0 {
        1
    } else {
        16 * pow16((n - 1) as nat)
    }
}

/// A number that is written in as many hexadecimal digits as it has reads back.
pub proof fn hex_reads_back(v: nat, n: nat, ten: u8)
    requires
        v < pow16(n),
        ten == 0x41 || ten == 0x61,
    ensures
        hex_value(digits::hex(v, n, ten)) == v,
        digits::hex(v, n, ten).len() == n,
        forall|i: int|
            0 <= i < n ==> {
                let c = #[trigger] digits::hex(v, n, ten)[i];
                0x30 <= c <= 0x39 || ten <= c <= ten + 5
            },
    decreases n,
{
    if n > 0 {
        hex_reads_back(v / 16, (n - 1) as nat, ten);
        let h = digits::hex(v, n, ten);
        assert(h.drop_last() =~= digits::hex(v / 16, (n - 1) as nat, ten));
    }
}

proof fn field_reads_back(v: u32)
    ensures
        premount::field(v as int).len() == 8,
        hex_value(premount::field(v as int)) == v,
{
    reveal_with_fuel(pow16, 9);
    hex_reads_back(v as nat, 8, 0x41);
}

proof fn field_stands(vs: Seq<u32>, i: int, j: int)
    requires
        0 <= i <= j < vs.len(),
    ensures
        premount::fields(vs, i).len() == 8 * (vs.len() - i),
        premount::fields(vs, i).subrange(8 * (j - i), 8 * (j - i) + 8) == premount::field(
            vs[j] as int,
        ),
    decreases vs.len() - i,
{
    field_reads_back(vs[i]);
    let f = premount::fields(vs, i);
    if i + 1 < vs.len() {
        let j2 = if j > i {
            j
        } else {
            i + 1
        };
        field_stands(vs, i + 1, j2);
    } else {
        assert(premount::fields(vs, i + 1).len() == 0);
    }
    let rest = premount::fields(vs, i + 1);
    assert(f == premount::field(vs[i] as int) + rest);
    if j == i {
        assert(f.subrange(0, 8) =~= premount::field(vs[i] as int));
    } else {
        assert(f.subrange(8 * (j - i), 8 * (j - i) + 8) =~= rest.subrange(
            8 * (j - i - 1),
            8 * (j - i - 1) + 8,
        ));
    }
}

/// The field `j` of the header of the member at `at` of an archive.
pub open spec fn header_field(s: Seq<u8>, at: int, j: int) -> int {
    hex_value(s.subrange(at + 6 + 8 * j, at + 14 + 8 * j))
}

/// A member starts with the magic number of the format and its fields, its name
/// follows with a NUL behind it, and its contents start at a multiple of four bytes.
pub proof fn member_tells_of_its_file(off: int, name: Seq<u8>, data: Seq<u8>, mode: u32)
    requires
        0 <= off,
        off % 4 == 0,
        name.len() < u32::MAX,
        data.len() <= u32::MAX,
    ensures
        ({
            let e = premount::entry(off, name, data, mode);
            let at = (110 + name.len() as int + 1 + 3) / 4 * 4;
            &&& e.len() % 4 == 0
            &&& at + data.len() <= e.len() < at + data.len() + 4
            &&& e[0] == 0x30 && e[1] == 0x37 && e[2] == 0x30 && e[3] == 0x37 && e[4] == 0x30 && e[5]
                == 0x31
            &&& header_field(e, 0, 1) == mode
            &&& header_field(e, 0, 4) == 1
            &&& header_field(e, 0, 6) == data.len()
            &&& header_field(e, 0, 11) == name.len() + 1
            &&& header_field(e, 0, 12) == 0
            &&& e.subrange(110, 110 + name.len() as int) == name
            &&& e[110 + name.len() as int] == 0
            &&& e.subrange(at, at + data.len()) == data
        }),
{
    reveal_strlit("070701");
    vstd::string::is_ascii_spec_bytes("070701");
    let magic = bytes::text("070701");
    assert(magic =~= seq![0x30u8, 0x37, 0x30, 0x37, 0x30, 0x31]);
    let size = (data.len() % 0x1_0000_0000) as u32;
    let vs = premount::field_values(name.len() as int, size, mode);
    let f = premount::fields(vs, 0);
    let h = premount::header(name, size, mode);
    premount::header_len(name, size, mode);
    premount::entry_len(off, name, data, mode);
    field_stands(vs, 0, 1);
    let e = premount::entry(off, name, data, mode);
    let at = (110 + name.len() as int + 1 + 3) / 4 * 4;
    assert(h.len() == at);
    assert(e.take(at) =~= h);
    assert(h.subrange(6, 110) =~= f);
    assert forall|j: int| 0 <= j < 13 implies #[trigger] header_field(e, 0, j) == vs[j] by {
        field_stands(vs, 0, j);
        field_reads_back(vs[j]);
        assert(e.subrange(0 + 6 + 8 * j, 0 + 14 + 8 * j) =~= f.subrange(8 * j, 8 * j + 8));
    }
    assert(header_field(e, 0, 1) == vs[1]);
    assert(header_field(e, 0, 4) == vs[4]);
    assert(header_field(e, 0, 6) == vs[6]);
    assert(header_field(e, 0, 11) == vs[11]);
    assert(header_field(e, 0, 12) == vs[12]);
    assert(e.subrange(110, 110 + name.len() as int) =~= name);
    assert(e[110 + name.len() as int] == h[110 + name.len() as int]);
    assert(e.subrange(at, at + data.len()) =~= data);
}

proof fn field_in_front(x: Seq<u8>, y: Seq<u8>, j: int)
    requires
        0 <= j < 13,
        x.len() >= 110,
    ensures
        header_field(x + y, 0, j) == header_field(x, 0, j),
{
    assert((x + y).subrange(0 + 6 + 8 * j, 0 + 14 + 8 * j) =~= x.subrange(
        0 + 6 + 8 * j,
        0 + 14 + 8 * j,
    ));
}

proof fn field_behind(x: Seq<u8>, y: Seq<u8>, j: int)
    requires
        0 <= j < 13,
        y.len() >= 110,
    ensures
        header_field(x + y, x.len() as int, j) == header_field(y, 0, j),
{
    assert((x + y).subrange(x.len() + 6 + 8 * j, x.len() + 14 + 8 * j) =~= y.subrange(
        0 + 6 + 8 * j,
        0 + 14 + 8 * j,
    ));
}

proof fn pieces_of_two(x: Seq<u8>, y: Seq<u8>, from: int, to: int)
    ensures
        0 <= from <= to <= x.len() ==> (x + y).subrange(from, to) == x.subrange(from, to),
        0 <= from <= to <= y.len() ==> (x + y).subrange(x.len() + from, x.len() + to) == y.subrange(
            from,
            to,
        ),
{
    if 0 <= from <= to <= x.len() {
        assert((x + y).subrange(from, to) =~= x.subrange(from, to));
    }
    if 0 <= from <= to <= y.len() {
        assert((x + y).subrange(x.len() + from, x.len() + to) =~= y.subrange(from, to));
    }
}

#[verifier::opaque]
spec fn member(off: int, name: Seq<u8>, data: Seq<u8>, mode: u32) -> Seq<u8> {
    premount::entry(off, name, data, mode)
}

#[verifier::opaque]
spec fn whole(init: Seq<u8>) -> Seq<u8> {
    premount::archive(init)
}

proof fn whole_is_members(init: Seq<u8>, x: Seq<u8>, y: Seq<u8>)
    requires
        x == member(0, bytes::text("init.choosable"), init, premount::MODE_EXECUTABLE),
        y == member(x.len() as int, bytes::text("TRAILER!!!"), Seq::empty(), 0),
    ensures
        whole(init) == x + y,
{
    reveal(member);
    reveal(whole);
}

proof fn member_facts(off: int, name: Seq<u8>, data: Seq<u8>, mode: u32)
    requires
        0 <= off,
        off % 4 == 0,
        name.len() < u32::MAX,
        data.len() <= u32::MAX,
    ensures
        ({
            let e = member(off, name, data, mode);
            let at = (110 + name.len() as int + 1 + 3) / 4 * 4;
            &&& e.len() % 4 == 0
            &&& at + data.len() <= e.len() < at + data.len() + 4
            &&& e[0] == 0x30 && e[1] == 0x37 && e[2] == 0x30 && e[3] == 0x37 && e[4] == 0x30 && e[5]
                == 0x31
            &&& header_field(e, 0, 1) == mode
            &&& header_field(e, 0, 6) == data.len()
            &&& header_field(e, 0, 11) == name.len() + 1
            &&& e.subrange(110, 110 + name.len() as int) == name
            &&& e[110 + name.len() as int] == 0
            &&& e.subrange(at, at + data.len()) == data
        }),
{
    reveal(member);
    member_tells_of_its_file(off, name, data, mode);
}

proof fn program_in_whole(init: Seq<u8>)
    requires
        init.len() <= u32::MAX,
    ensures
        ({
            let a = whole(init);
            &&& a.subrange(110, 124) == bytes::text("init.choosable")
            &&& a.subrange(124, 125) == seq![0u8]
            &&& header_field(a, 0, 1) == 0x81ED
            &&& header_field(a, 0, 6) == init.len()
            &&& header_field(a, 0, 11) == 15
            &&& a.subrange(128, 128 + init.len() as int) == init
        }),
{
    reveal_strlit("init.choosable");
    vstd::string::is_ascii_spec_bytes("init.choosable");
    let name = bytes::text("init.choosable");
    assert(name.len() == 14);
    let x = member(0, name, init, premount::MODE_EXECUTABLE);
    let y = member(x.len() as int, bytes::text("TRAILER!!!"), Seq::empty(), 0);
    member_facts(0, name, init, premount::MODE_EXECUTABLE);
    whole_is_members(init, x, y);
    field_in_front(x, y, 1);
    field_in_front(x, y, 6);
    field_in_front(x, y, 11);
    pieces_of_two(x, y, 110, 124);
    pieces_of_two(x, y, 124, 125);
    pieces_of_two(x, y, 128, 128 + init.len() as int);
    assert(x.subrange(124, 125) =~= seq![0u8]);
}

/// The archive holds the program as the executable file `init.choosable`.
pub proof fn archive_holds_the_program(init: Seq<u8>)
    requires
        init.len() <= u32::MAX,
    ensures
        ({
            let a = premount::archive(init);
            &&& a.subrange(110, 124) == bytes::text("init.choosable")
            &&& a.subrange(124, 125) == seq![0u8]
            &&& header_field(a, 0, 1) == 0x81ED
            &&& header_field(a, 0, 6) == init.len()
            &&& header_field(a, 0, 11) == 15
            &&& a.subrange(128, 128 + init.len() as int) == init
        }),
{
    program_in_whole(init);
    reveal(whole);
}

proof fn trailer_in_whole(init: Seq<u8>)
    requires
        init.len() <= u32::MAX,
    ensures
        ({
            let a = whole(init);
            let second = (128 + init.len() as int + 3) / 4 * 4;
            &&& a.len() == second + 124
            &&& a.subrange(second, second + 6) == bytes::text("070701")
            &&& a.subrange(second + 110, second + 120) == bytes::text("TRAILER!!!")
            &&& header_field(a, second, 6) == 0
            &&& header_field(a, second, 11) == 11
        }),
{
    reveal_strlit("init.choosable");
    reveal_strlit("TRAILER!!!");
    reveal_strlit("070701");
    vstd::string::is_ascii_spec_bytes("init.choosable");
    vstd::string::is_ascii_spec_bytes("TRAILER!!!");
    vstd::string::is_ascii_spec_bytes("070701");
    let name = bytes::text("init.choosable");
    let last = bytes::text("TRAILER!!!");
    let none = Seq::<u8>::empty();
    assert(name.len() == 14 && last.len() == 10);
    let x = member(0, name, init, premount::MODE_EXECUTABLE);
    member_facts(0, name, init, premount::MODE_EXECUTABLE);
    let n = x.len() as int;
    let y = member(n, last, none, 0);
    member_facts(n, last, none, 0);
    assert(n == (128 + init.len() as int + 3) / 4 * 4);
    whole_is_members(init, x, y);
    field_behind(x, y, 6);
    field_behind(x, y, 11);
    pieces_of_two(x, y, 0, 6);
    pieces_of_two(x, y, 110, 120);
    assert(y.subrange(0, 6) =~= bytes::text("070701")) by {
        assert(bytes::text("070701") =~= seq![0x30u8, 0x37, 0x30, 0x37, 0x30, 0x31]);
    }
}

/// Behind the program the trailer ends the archive.
pub proof fn trailer_ends_the_archive(init: Seq<u8>)
    requires
        init.len() <= u32::MAX,
    ensures
        ({
            let a = premount::archive(init);
            let second = (128 + init.len() as int + 3) / 4 * 4;
            &&& a.len() == second + 124
            &&& a.subrange(second, second + 6) == bytes::text("070701")
            &&& a.subrange(second + 110, second + 120) == bytes::text("TRAILER!!!")
            &&& header_field(a, second, 6) == 0
            &&& header_field(a, second, 11) == 11
        }),
{
    trailer_in_whole(init);
    reveal(whole);
}

} // verus!
