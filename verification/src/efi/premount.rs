//! The archive that brings the early userspace into a live system's initrd.

use vstd::prelude::*;
use crate::bytes;
use crate::bytes::{push_all, push_repeat, put};
use crate::digits;
use crate::digits::hex_text;
use crate::efi::boot_context::BootContext;

verus! {

/// The size of an archive header without the name.
pub const HEADER: usize = 110;

/// The mode of the init program: a regular file that anyone may execute.
pub const MODE_EXECUTABLE: u32 = 0o100755;

/// An archive in a buffer of `cpio_alloc_size` bytes, and where the image
/// starts within its partition.
pub struct PremountBundle {
    pub cpio_buf: Vec<u8>,
    pub cpio_size: usize,
    pub cpio_alloc_size: usize,
    pub iso_offset_bytes: u64,
}

/// `n` rounded up to a multiple of 4.
pub open spec fn pad4(n: int) -> int {
    (n + 3) / 4 * 4
}

/// A header field: 8 upper-case hexadecimal digits.
pub open spec fn field(v: int) -> Seq<u8> {
    digits::hex((v % 0x1_0000_0000) as nat, 8, 0x41)
}

/// The 13 header fields from `i` on.
pub open spec fn fields(vs: Seq<u32>, i: int) -> Seq<u8>
    decreases vs.len() - i,
{
    if i >= vs.len() {
        Seq::empty()
    } else {
        field(vs[i] as int) + fields(vs, i + 1)
    }
}

/// inode, mode, owner, group, link count, time, size, device numbers, length
/// of the name with its terminator, checksum.
pub open spec fn field_values(name_len: int, file_size: u32, mode: u32) -> Seq<u32> {
    seq![1u32, mode, 0, 0, 1, 0, file_size, 0, 0, 0, 0, (name_len + 1) as u32, 0]
}

/// The header of an archive member and its name, zero-padded to a multiple of
/// 4 bytes.
pub open spec fn header(name: Seq<u8>, file_size: u32, mode: u32) -> Seq<u8> {
    bytes::text("070701") + fields(field_values(name.len() as int, file_size, mode), 0) + name
        + bytes::zeros((pad4(HEADER + name.len() + 1) - HEADER - name.len()) as nat)
}

/// An archive member that starts at `off`; the next one starts at a multiple
/// of 4.
pub open spec fn entry(off: int, name: Seq<u8>, data: Seq<u8>, mode: u32) -> Seq<u8> {
    let end = off + pad4(HEADER + name.len() + 1) + data.len();
    header(name, (data.len() % 0x1_0000_0000) as u32, mode) + data + bytes::zeros(
        (pad4(end) - end) as nat,
    )
}

/// The whole archive: the init program and the trailer.
pub open spec fn archive(init: Seq<u8>) -> Seq<u8> {
    let first = entry(0, bytes::text("init.choosable"), init, MODE_EXECUTABLE);
    first + entry(first.len() as int, bytes::text("TRAILER!!!"), Seq::empty(), 0)
}

/// How many bytes are set aside for an archive with that program.
pub open spec fn archive_room(init_len: int) -> int {
    let estimate = entry_room(bytes::text("init.choosable").len() as int, init_len) + 8
        + entry_room(10, 0) + 8;
    (estimate + 2047) / 2048 * 2048
}

pub open spec fn entry_room(name_len: int, data_len: int) -> int {
    pad4(HEADER + name_len + 1) + data_len + 3
}

pub fn hex_nibble(n: u8) -> (r: u8)
    requires
        n <= 200,
    ensures
        r == digits::hex_digit(n as int, 0x41),
{
    if n < 10 {
        0x30 + n
    } else {
        0x41 + (n - 10)
    }
}

/// An upper bound on the size of an archive member.
pub fn cpio_entry_size(name_len: usize, data_len: usize) -> (r: usize)
    requires
        name_len + data_len + 200 <= usize::MAX,
    ensures
        r == entry_room(name_len as int, data_len as int),
{
    let padded_name_len: usize = (HEADER + name_len + 1 + 3) / 4 * 4 - HEADER;
    HEADER + padded_name_len + data_len + 3
}

proof fn fields_len(vs: Seq<u32>, i: int)
    requires
        0 <= i <= vs.len(),
    ensures
        fields(vs, i).len() == 8 * (vs.len() - i),
    decreases vs.len() - i,
{
    if i < vs.len() {
        hex_len8((vs[i] as int % 0x1_0000_0000) as nat);
        fields_len(vs, i + 1);
    }
}

proof fn hex_len8(v: nat)
    ensures
        digits::hex(v, 8, 0x41).len() == 8,
{
    reveal_with_fuel(digits::hex, 9);
}

proof fn magic_len()
    ensures
        bytes::text("070701").len() == 6,
{
    reveal_strlit("070701");
    vstd::string::is_ascii_spec_bytes("070701");
}

/// A header is padded to a multiple of 4 bytes.
pub proof fn header_len(name: Seq<u8>, file_size: u32, mode: u32)
    ensures
        header(name, file_size, mode).len() == pad4(HEADER + name.len() + 1),
{
    fields_len(field_values(name.len() as int, file_size, mode), 0);
    magic_len();
}

/// An archive member ends at a multiple of 4 bytes.
pub proof fn entry_len(off: int, name: Seq<u8>, data: Seq<u8>, mode: u32)
    requires
        off >= 0,
    ensures
        off + entry(off, name, data, mode).len() == pad4(
            off + pad4(HEADER + name.len() + 1) + data.len(),
        ),
        (off + entry(off, name, data, mode).len()) % 4 == 0,
{
    header_len(name, (data.len() % 0x1_0000_0000) as u32, mode);
}

/// The room set aside for an archive is enough for it.
pub proof fn archive_fits(init: Seq<u8>)
    ensures
        archive(init).len() <= archive_room(init.len() as int),
{
    reveal_strlit("init.choosable");
    reveal_strlit("TRAILER!!!");
    vstd::string::is_ascii_spec_bytes("init.choosable");
    vstd::string::is_ascii_spec_bytes("TRAILER!!!");
    let first = entry(0, bytes::text("init.choosable"), init, MODE_EXECUTABLE);
    entry_len(0, bytes::text("init.choosable"), init, MODE_EXECUTABLE);
    entry_len(first.len() as int, bytes::text("TRAILER!!!"), Seq::empty(), 0);
}

#[verifier::loop_isolation(false)]
fn header_text(name: &[u8], file_size: u32, mode: u32) -> (r: Vec<u8>)
    requires
        name@.len() < u32::MAX,
        pad4(HEADER + name@.len() + 1) <= usize::MAX,
    ensures
        r@ == header(name@, file_size, mode),
{
    assert(name.len() <= usize::MAX);
    let mut out: Vec<u8> = Vec::new();
    push_all(&mut out, "070701".as_bytes());
    let vs: [u32; 13] = [1, mode, 0, 0, 1, 0, file_size, 0, 0, 0, 0, name.len() as u32 + 1, 0];
    assert(vs@ =~= field_values(name@.len() as int, file_size, mode));
    let ghost magic = bytes::text("070701");
    assert(out@ =~= magic);
    assert(magic + fields(vs@, 0) =~= out@ + fields(vs@, 0));
    let mut i: usize = 0;
    while i < 13
        invariant
            i <= 13,
            magic + fields(vs@, 0) == out@ + fields(vs@, i as int),
        decreases 13 - i,
    {
        let ghost before = out@;
        push_all(&mut out, &hex_text(vs[i] as u64, 8, 0x41));
        assert(before + (field(vs@[i as int] as int) + fields(vs@, i + 1)) =~= out@ + fields(
            vs@,
            i + 1,
        ));
        i += 1;
    }
    assert(out@ =~= magic + fields(vs@, 0));
    push_all(&mut out, name);
    let padded: usize = name.len() / 4 * 4 + (name.len() % 4 + 114) / 4 * 4;
    push_repeat(&mut out, 0, padded - HEADER - name.len());
    assert(out@ =~= header(name@, file_size, mode));
    out
}

/// Writes a member's header at the start of `buf`; returns its length.
pub fn cpio_newc_header(buf: &mut [u8], name: &[u8], file_size: u32, mode: u32) -> (r: usize)
    requires
        name@.len() < u32::MAX,
        pad4(HEADER + name@.len() + 1) <= old(buf)@.len(),
    ensures
        r == pad4(HEADER + name@.len() + 1),
        final(buf)@ == bytes::overlay(old(buf)@, 0, header(name@, file_size, mode)),
{
    assert(buf.len() <= usize::MAX);
    let text: Vec<u8> = header_text(name, file_size, mode);
    proof {
        header_len(name@, file_size, mode);
    }
    put(buf, 0, &text);
    text.len()
}

/// Appends a member at `off`, if it fits; returns whether it does.
pub fn cpio_append_entry(
    cpio: &mut [u8],
    off: &mut usize,
    name: &[u8],
    data: &[u8],
    mode: u32,
) -> (r: bool)
    requires
        name@.len() < u32::MAX,
        *old(off) + name@.len() + data@.len() + 200 <= usize::MAX,
    ensures
        ({
            let e = entry(*old(off) as int, name@, data@, mode);
            &&& r == (*old(off) + e.len() <= old(cpio)@.len())
            &&& r ==> *final(off) == *old(off) + e.len() && final(cpio)@ == bytes::overlay(
                old(cpio)@,
                *old(off) as int,
                e,
            )
            &&& !r ==> *final(off) == *old(off) && final(cpio)@ == old(cpio)@
        }),
{
    let start: usize = *off;
    let hlen: usize = (name.len() + 114) / 4 * 4;
    let end: usize = start + hlen + data.len();
    let pad: usize = (4 - end % 4) % 4;
    proof {
        entry_len(start as int, name@, data@, mode);
    }
    if end + pad > cpio.len() {
        return false;
    }
    let mut text: Vec<u8> = header_text(name, (data.len() as u64 % 0x1_0000_0000) as u32, mode);
    push_all(&mut text, data);
    push_repeat(&mut text, 0, pad);
    assert(text@ =~= entry(start as int, name@, data@, mode));
    put(cpio, start, &text);
    *off = end + pad;
    true
}

/// Builds the archive for the given init program.
pub fn build_premount_cpio(init: &[u8], relative_sector_offset: u64) -> (r: PremountBundle)
    requires
        relative_sector_offset * 512 <= u64::MAX,
        init@.len() + 4096 <= usize::MAX,
    ensures
        r.cpio_size == archive(init@).len(),
        r.cpio_alloc_size == archive_room(init@.len() as int),
        r.cpio_buf@ == archive(init@) + bytes::zeros(
            (archive_room(init@.len() as int) - archive(init@).len()) as nat,
        ),
        r.iso_offset_bytes == relative_sector_offset * 512,
{
    let name: &[u8] = "init.choosable".as_bytes();
    let trailer: &[u8] = "TRAILER!!!".as_bytes();
    let none: [u8; 0] = [];
    proof {
        reveal_strlit("init.choosable");
        reveal_strlit("TRAILER!!!");
        vstd::string::is_ascii_spec_bytes("init.choosable");
        vstd::string::is_ascii_spec_bytes("TRAILER!!!");
        archive_fits(init@);
    }
    let estimate: usize = cpio_entry_size(name.len(), init.len()) + 8 + cpio_entry_size(10, 0) + 8;
    let alloc_size: usize = (estimate + 2047) / 2048 * 2048;
    let mut cpio: Vec<u8> = Vec::new();
    push_repeat(&mut cpio, 0, alloc_size);
    let mut off: usize = 0;
    let ghost first = entry(0, name@, init@, MODE_EXECUTABLE);
    proof {
        entry_len(0, name@, init@, MODE_EXECUTABLE);
        assert(none@ =~= Seq::empty());
    }
    cpio_append_entry(&mut cpio, &mut off, name, init, MODE_EXECUTABLE);
    cpio_append_entry(&mut cpio, &mut off, trailer, &none, 0);
    assert(cpio@ =~= archive(init@) + bytes::zeros((alloc_size - archive(init@).len()) as nat));
    PremountBundle {
        cpio_buf: cpio,
        cpio_size: off,
        cpio_alloc_size: alloc_size,
        iso_offset_bytes: relative_sector_offset * 512,
    }
}

/// Whether the payload that is selected starts within its partition.
pub open spec fn payload_in_partition(ctx: BootContext) -> bool {
    ctx.selected_slot() matches Some(i) ==> {
        let lba = ctx.payloads@[i].file_start_lba;
        ctx.partition_start_lba <= lba && (lba - ctx.partition_start_lba) * 512 <= u64::MAX
    }
}

/// Builds what a family needs early in its boot.
pub trait EarlyBootFixup {
    /// Whether the family has an initrd to add to.
    spec fn has_initrd(&self) -> bool;

    fn build_initrd(&self, ctx: &BootContext, init: &[u8]) -> (r: Option<PremountBundle>)
        requires
            ctx.wf(),
            payload_in_partition(*ctx),
            init@.len() + 4096 <= usize::MAX,
        ensures
            r is Some <==> self.has_initrd() && ctx.selected_slot() is Some,
            r matches Some(b) ==> is_bundle(b, *ctx, init@),
    ;
}

/// Whether `b` is the bundle for the payload that is selected.
pub open spec fn is_bundle(b: PremountBundle, ctx: BootContext, init: Seq<u8>) -> bool {
    &&& b.cpio_size == archive(init).len()
    &&& b.cpio_alloc_size == archive_room(init.len() as int)
    &&& b.cpio_buf@ == archive(init) + bytes::zeros(
        (archive_room(init.len() as int) - archive(init).len()) as nat,
    )
    &&& ctx.selected_slot() matches Some(i) && b.iso_offset_bytes
        == (ctx.payloads@[i].file_start_lba - ctx.partition_start_lba) * 512
}

fn build_for_selected(ctx: &BootContext, init: &[u8]) -> (r: Option<PremountBundle>)
    requires
        ctx.wf(),
        payload_in_partition(*ctx),
        init@.len() + 4096 <= usize::MAX,
    ensures
        r is Some <==> ctx.selected_slot() is Some,
        r matches Some(b) ==> is_bundle(b, *ctx, init@),
{
    match ctx.selected_payload() {
        None => None,
        Some(p) => {
            let b: PremountBundle = build_premount_cpio(
                init,
                p.file_start_lba - ctx.partition_start_lba,
            );
            Some(b)
        },
    }
}

pub struct CasperFixup;

pub struct LiveBootFixup;

pub struct DracutFixup;

pub struct AlpinePremountFixup;

pub struct ArchFixup;

pub struct AlpineFixup;

pub struct WindowsPEFixup;

impl EarlyBootFixup for CasperFixup {
    open spec fn has_initrd(&self) -> bool {
        true
    }

    fn build_initrd(&self, ctx: &BootContext, init: &[u8]) -> (r: Option<PremountBundle>) {
        build_for_selected(ctx, init)
    }
}

impl EarlyBootFixup for LiveBootFixup {
    open spec fn has_initrd(&self) -> bool {
        true
    }

    fn build_initrd(&self, ctx: &BootContext, init: &[u8]) -> (r: Option<PremountBundle>) {
        build_for_selected(ctx, init)
    }
}

impl EarlyBootFixup for DracutFixup {
    open spec fn has_initrd(&self) -> bool {
        true
    }

    fn build_initrd(&self, ctx: &BootContext, init: &[u8]) -> (r: Option<PremountBundle>) {
        build_for_selected(ctx, init)
    }
}

impl EarlyBootFixup for AlpinePremountFixup {
    open spec fn has_initrd(&self) -> bool {
        true
    }

    fn build_initrd(&self, ctx: &BootContext, init: &[u8]) -> (r: Option<PremountBundle>) {
        build_for_selected(ctx, init)
    }
}

impl EarlyBootFixup for ArchFixup {
    open spec fn has_initrd(&self) -> bool {
        true
    }

    fn build_initrd(&self, ctx: &BootContext, init: &[u8]) -> (r: Option<PremountBundle>) {
        build_for_selected(ctx, init)
    }
}

impl EarlyBootFixup for AlpineFixup {
    open spec fn has_initrd(&self) -> bool {
        true
    }

    fn build_initrd(&self, ctx: &BootContext, init: &[u8]) -> (r: Option<PremountBundle>) {
        build_for_selected(ctx, init)
    }
}

impl EarlyBootFixup for WindowsPEFixup {
    open spec fn has_initrd(&self) -> bool {
        false
    }

    fn build_initrd(&self, ctx: &BootContext, init: &[u8]) -> (r: Option<PremountBundle>) {
        None
    }
}

} // verus!
