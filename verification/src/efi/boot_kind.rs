//! What a live system expects of its boot loader, by the family it belongs to.

use vstd::prelude::*;
use crate::bytes;
use crate::bytes::{eq_ignore_ascii_case, put};
use crate::digits;
use crate::digits::{decimal_text, hex_text};
use crate::efi::locator;
use crate::efi::locator::IsoLocation;
use crate::efi::protocol::{Guid, GuidView};

verus! {

/// Which initrd builder a family needs.
#[derive(Clone, Copy, PartialEq, Eq, Structural, Debug)]
pub enum FixupType {
    /// casper-premount hooks of initramfs-tools.
    Casper,
    /// live-premount hooks of initramfs-tools.
    LiveBoot,
    /// A dracut premount hook.
    Dracut,
    /// The archiso copytoram hook.
    Arch,
    /// No initrd fixup.
    WindowsPE,
    /// A custom init.
    Alpine,
    AlpinePremount,
}

/// Which initramfs hooks to install.
#[derive(Clone, Copy, PartialEq, Eq, Structural, Debug)]
pub struct HookTargetSet {
    pub live: bool,
    pub live_premount: bool,
    pub casper_premount: bool,
    pub casper_bottom: bool,
}

/// The family that an ISO image belongs to.
#[derive(Clone, Copy, PartialEq, Eq, Structural, Debug)]
pub enum BootKind {
    /// Has a `/casper/` directory.
    Casper,
    /// Has a `/live/` directory.
    DebianLive,
    /// Has a `/LiveOS/` directory.
    FedoraLive,
    /// Has an `/arch/` directory.
    ArchIso,
    /// Has `/.alpine-release` or `/apks/`.
    Alpine,
    /// Alpine with the common premount.
    AlpinePremount,
    /// Has `/sources/boot.wim`.
    WindowsPE,
    /// Has none of these; treated like Casper.
    Unknown,
}

#[derive(Clone, Copy, PartialEq, Eq, Structural, Debug)]
pub enum BootloaderType {
    /// GRUB, with linux and initrd lines.
    Grub,
    /// No configuration; the EFI binary is started directly.
    None_,
}

#[derive(Clone, Copy, PartialEq, Eq, Structural, Debug)]
pub struct BootDescriptor {
    pub boot_kind: BootKind,
    pub bootloader: BootloaderType,
}

// ---------------------------------------------------------------------------
// Text
// ---------------------------------------------------------------------------

/// The first letter of lower-case hexadecimal digits.
pub const LOWER_A: u8 = 0x61;

/// A GUID as Linux spells partition UUIDs.
pub open spec fn partuuid(g: GuidView) -> Seq<u8> {
    let dash = seq![0x2Du8];
    digits::hex(g.d1 as nat, 8, LOWER_A) + dash + digits::hex(g.d2 as nat, 4, LOWER_A) + dash
        + digits::hex(g.d3 as nat, 4, LOWER_A) + dash + digits::hex(g.d4[0] as nat, 2, LOWER_A)
        + digits::hex(g.d4[1] as nat, 2, LOWER_A) + dash + digits::hex(
        g.d4[2] as nat,
        2,
        LOWER_A,
    ) + digits::hex(g.d4[3] as nat, 2, LOWER_A) + digits::hex(g.d4[4] as nat, 2, LOWER_A)
        + digits::hex(g.d4[5] as nat, 2, LOWER_A) + digits::hex(g.d4[6] as nat, 2, LOWER_A)
        + digits::hex(g.d4[7] as nat, 2, LOWER_A)
}

proof fn hex_len(v: nat, n: nat, ten: u8)
    ensures
        digits::hex(v, n, ten).len() == n,
    decreases n,
{
    if n > 0 {
        hex_len(v / 16, (n - 1) as nat, ten);
    }
}

/// A partition UUID has 36 characters.
pub proof fn partuuid_len(g: GuidView)
    ensures
        partuuid(g).len() == 36,
{
    hex_len(g.d1 as nat, 8, LOWER_A);
    hex_len(g.d2 as nat, 4, LOWER_A);
    hex_len(g.d3 as nat, 4, LOWER_A);
    hex_len(g.d4[0] as nat, 2, LOWER_A);
    hex_len(g.d4[1] as nat, 2, LOWER_A);
    hex_len(g.d4[2] as nat, 2, LOWER_A);
    hex_len(g.d4[3] as nat, 2, LOWER_A);
    hex_len(g.d4[4] as nat, 2, LOWER_A);
    hex_len(g.d4[5] as nat, 2, LOWER_A);
    hex_len(g.d4[6] as nat, 2, LOWER_A);
    hex_len(g.d4[7] as nat, 2, LOWER_A);
}

proof fn overlay_twice(s: Seq<u8>, a: Seq<u8>, b: Seq<u8>)
    ensures
        bytes::overlay(bytes::overlay(s, 0, a), a.len() as int, b) == bytes::overlay(s, 0, a + b),
{
    assert(bytes::overlay(bytes::overlay(s, 0, a), a.len() as int, b) =~= bytes::overlay(
        s,
        0,
        a + b,
    ));
}

/// Copies as much of `src` as fits behind `pos`; returns how much that is.
pub fn copy_at(buf: &mut [u8], pos: usize, src: &[u8]) -> (n: usize)
    requires
        pos <= old(buf)@.len(),
    ensures
        n == bytes::min_int(src@.len() as int, old(buf)@.len() - pos),
        final(buf)@ == bytes::overlay(old(buf)@, pos as int, src@.subrange(0, n as int)),
{
    let avail: usize = buf.len() - pos;
    let n: usize = if src.len() < avail {
        src.len()
    } else {
        avail
    };
    put(buf, pos, &src[0..n]);
    n
}

fn partuuid_text(guid: &Guid) -> (r: Vec<u8>)
    ensures
        r@ == partuuid(guid@),
        r@.len() == 36,
{
    let mut out: Vec<u8> = hex_text(guid.d1 as u64, 8, LOWER_A);
    out.push(0x2D);
    bytes::push_all(&mut out, &hex_text(guid.d2 as u64, 4, LOWER_A));
    out.push(0x2D);
    bytes::push_all(&mut out, &hex_text(guid.d3 as u64, 4, LOWER_A));
    out.push(0x2D);
    bytes::push_all(&mut out, &hex_text(guid.d4[0] as u64, 2, LOWER_A));
    bytes::push_all(&mut out, &hex_text(guid.d4[1] as u64, 2, LOWER_A));
    out.push(0x2D);
    bytes::push_all(&mut out, &hex_text(guid.d4[2] as u64, 2, LOWER_A));
    bytes::push_all(&mut out, &hex_text(guid.d4[3] as u64, 2, LOWER_A));
    bytes::push_all(&mut out, &hex_text(guid.d4[4] as u64, 2, LOWER_A));
    bytes::push_all(&mut out, &hex_text(guid.d4[5] as u64, 2, LOWER_A));
    bytes::push_all(&mut out, &hex_text(guid.d4[6] as u64, 2, LOWER_A));
    bytes::push_all(&mut out, &hex_text(guid.d4[7] as u64, 2, LOWER_A));
    proof {
        partuuid_len(guid@);
    }
    assert(out@ =~= partuuid(guid@));
    out
}

/// Writes as much of a partition UUID as fits behind `pos`; returns how much
/// that is.
pub fn guid_to_partuuid_bytes(guid: &Guid, buf: &mut [u8], pos: usize) -> (n: usize)
    requires
        pos <= old(buf)@.len(),
    ensures
        n == bytes::min_int(36, old(buf)@.len() - pos),
        final(buf)@ == bytes::overlay(
            old(buf)@,
            pos as int,
            partuuid(guid@).subrange(0, n as int),
        ),
{
    let text: Vec<u8> = partuuid_text(guid);
    copy_at(buf, pos, &text)
}

/// A GUID as Linux spells partition UUIDs.
pub fn guid_to_partuuid(guid: &Guid) -> (r: [u8; 36])
    ensures
        r@ == partuuid(guid@),
{
    let mut out: [u8; 36] = [0; 36];
    guid_to_partuuid_bytes(guid, &mut out, 0);
    proof {
        partuuid_len(guid@);
    }
    assert(out@ =~= partuuid(guid@));
    out
}

/// Writes as many leading decimal digits of `v` as fit behind `pos`; returns
/// how many.
pub fn write_u64_decimal(buf: &mut [u8], pos: usize, v: u64) -> (n: usize)
    requires
        pos <= old(buf)@.len(),
    ensures
        n == bytes::min_int(digits::decimal(v as nat).len() as int, old(buf)@.len() - pos),
        final(buf)@ == bytes::overlay(
            old(buf)@,
            pos as int,
            digits::decimal(v as nat).subrange(0, n as int),
        ),
{
    let text: Vec<u8> = decimal_text(v);
    copy_at(buf, pos, &text)
}

/// Whether two names are the same but for the case of ASCII letters.
pub fn name_matches(iso_name: &[u8], pattern: &[u8]) -> (r: bool)
    ensures
        r == bytes::same_ignoring_case(iso_name@, pattern@),
{
    eq_ignore_ascii_case(iso_name, pattern)
}

/// The partition UUID of a location: the GUID of a GPT partition; of an MBR
/// partition the disk signature and the partition's number, in hexadecimal.
pub open spec fn location_uuid(loc: IsoLocation) -> Seq<u8> {
    if loc.is_mbr {
        digits::hex(loc.partition_guid@.d1 as nat, 8, LOWER_A) + seq![0x2Du8] + digits::hex(
            loc.partition_number as nat,
            2,
            LOWER_A,
        )
    } else {
        partuuid(loc.partition_guid@)
    }
}

fn location_uuid_text(loc: &IsoLocation) -> (r: Vec<u8>)
    ensures
        r@ == location_uuid(*loc),
{
    if loc.is_mbr {
        let mut out: Vec<u8> = hex_text(loc.partition_guid.d1 as u64, 8, LOWER_A);
        out.push(0x2D);
        bytes::push_all(&mut out, &hex_text(loc.partition_number as u64, 2, LOWER_A));
        assert(out@ =~= location_uuid(*loc));
        out
    } else {
        partuuid_text(&loc.partition_guid)
    }
}

// ---------------------------------------------------------------------------
// Kernel parameters
// ---------------------------------------------------------------------------

/// The parameters that hand the image's location over to the early userspace.
pub open spec fn location_params(loc: IsoLocation) -> Seq<u8> {
    params_path(loc) + bytes::text(" choosable.iso_size=") + digits::decimal(loc.file_size as nat)
}

pub open spec fn params_path(loc: IsoLocation) -> Seq<u8> {
    let path = locator::relative(loc.spec_path());
    if path.len() > 0 {
        params_front(loc) + bytes::text(" choosable.iso_path=") + path
    } else {
        params_front(loc)
    }
}

pub open spec fn params_guid(loc: IsoLocation) -> Seq<u8> {
    bytes::text(" choosable.part_guid=") + location_uuid(loc)
}

pub open spec fn params_num(loc: IsoLocation) -> Seq<u8> {
    params_guid(loc) + bytes::text(" choosable.part_num=") + digits::decimal(
        loc.partition_number as nat,
    )
}

pub open spec fn params_front(loc: IsoLocation) -> Seq<u8> {
    params_num(loc) + bytes::text(" choosable.iso_offset=") + digits::decimal(
        ((loc.iso_lba - loc.part1_lba) * 512) as nat,
    )
}

/// Whether there is room for the parameters. Room is set aside for the longest
/// partition number, offset and size.
pub open spec fn params_fit(room: int, loc: IsoLocation) -> bool {
    let path = locator::relative(loc.spec_path());
    &&& params_guid(loc).len() <= room
    &&& params_guid(loc).len() + bytes::text(" choosable.part_num=").len() + 10 <= room
    &&& params_num(loc).len() + bytes::text(" choosable.iso_offset=").len() + 20 <= room
    &&& path.len() > 0 ==> params_front(loc).len() + bytes::text(" choosable.iso_path=").len()
        + path.len() <= room
    &&& params_path(loc).len() + bytes::text(" choosable.iso_size=").len() + 20 <= room
}

pub open spec fn offset_fits(loc: IsoLocation) -> bool {
    &&& loc.part1_lba <= loc.iso_lba
    &&& (loc.iso_lba - loc.part1_lba) * 512 <= u64::MAX
}

/// Writes one more piece behind what was written so far.
fn append(buf: &mut [u8], pos: usize, src: &[u8], Ghost(base): Ghost<Seq<u8>>, Ghost(done): Ghost<
    Seq<u8>,
>) -> (end: usize)
    requires
        pos == done.len(),
        pos + src@.len() <= old(buf)@.len(),
        old(buf)@ == bytes::overlay(base, 0, done),
    ensures
        end == pos + src@.len(),
        final(buf)@ == bytes::overlay(base, 0, done + src@),
{
    let n: usize = copy_at(buf, pos, src);
    assert(src@.subrange(0, n as int) =~= src@);
    proof {
        overlay_twice(base, done, src@);
    }
    assert(buf.len() <= usize::MAX);
    pos + n
}

/// Whether `after` is `base` under some beginning of `text`.
pub open spec fn begun(base: Seq<u8>, after: Seq<u8>, text: Seq<u8>) -> bool {
    exists|n: int| 0 <= n <= text.len() && after == bytes::overlay(base, 0, #[trigger] text.take(n))
}

proof fn begun_by(base: Seq<u8>, after: Seq<u8>, part: Seq<u8>, text: Seq<u8>)
    requires
        after == bytes::overlay(base, 0, part),
        part.is_prefix_of(text),
    ensures
        begun(base, after, text),
{
    assert(part =~= text.take(part.len() as int));
}

/// What was written first stays in front.
proof fn written(base: Seq<u8>, after: Seq<u8>, head: Seq<u8>, part: Seq<u8>, text: Seq<u8>)
    requires
        after == bytes::overlay(base, 0, part),
        head.is_prefix_of(part),
        part.is_prefix_of(text),
        part.len() <= base.len(),
    ensures
        begun(base, after, text),
        after.subrange(0, head.len() as int) == head,
{
    begun_by(base, after, part, text);
    assert(after.subrange(0, head.len() as int) =~= head);
}

impl BootKind {
    /// What the family wants on its kernel command line, apart from the
    /// location.
    pub open spec fn kernel_args(&self, is_popos: bool, loc: Option<IsoLocation>) -> Seq<u8> {
        match *self {
            BootKind::Casper => if is_popos {
                bytes::text(" boot=casper casper_path=pop-os maybe-ubiquity init=/init.choosable")
            } else {
                bytes::text(" boot=casper maybe-ubiquity init=/init.choosable")
            },
            BootKind::DebianLive => bytes::text(
                " boot=live live-media=removable init=/init.choosable",
            ),
            BootKind::FedoraLive => bytes::text(
                " rd.live.image root=live:CDLABEL=CHOOSABLE rd.live.dir=/LiveOS rootdelay=10 init=/init.choosable",
            ),
            BootKind::ArchIso => match loc {
                Some(l) => bytes::text(" archisodevice=/dev/disk/by-partuuid/") + location_uuid(
                    l,
                ) + bytes::text(" archisobasedir=arch copytoram init=/init.choosable"),
                None => bytes::text(
                    " archisodevice=LABEL=CHOOSABLE archisobasedir=arch copytoram init=/init.choosable",
                ),
            },
            BootKind::Alpine | BootKind::AlpinePremount => bytes::text(
                " init=/init.choosable modules=loop,iso9660",
            ),
            BootKind::WindowsPE => Seq::empty(),
            BootKind::Unknown => bytes::text(" boot=casper maybe-ubiquity init=/init.choosable"),
        }
    }

    /// The arguments for a linux line, where they fit in `room` bytes: those
    /// of the family, then the location.
    pub open spec fn extra(&self, is_popos: bool, loc: Option<IsoLocation>, room: int) -> Option<
        Seq<u8>,
    > {
        let head = self.kernel_args(is_popos, loc);
        if head.len() > room {
            None
        } else {
            match loc {
                None => Some(head),
                Some(l) => if params_fit(room - head.len(), l) {
                    Some(head + location_params(l))
                } else {
                    None
                },
            }
        }
    }

    /// Everything that may get written for a linux line.
    pub open spec fn full_extra(&self, is_popos: bool, loc: Option<IsoLocation>) -> Seq<u8> {
        let head = self.kernel_args(is_popos, loc);
        match loc {
            None => head,
            Some(l) => head + location_params(l),
        }
    }

    /// Writes the family's arguments at the start of `buf`.
    fn write_args(&self, is_popos: bool, iso_location: Option<&IsoLocation>, buf: &mut [u8]) -> (r:
        Option<usize>)
        ensures
            ({
                let head = self.kernel_args(is_popos, opt_loc(iso_location));
                match r {
                    Some(n) => n == head.len() && n <= old(buf)@.len() && final(buf)@ == bytes::overlay(
                        old(buf)@,
                        0,
                        head,
                    ),
                    None => head.len() > old(buf)@.len() && begun(old(buf)@, final(buf)@, head),
                }
            }),
    {
        let ghost base = buf@;
        let ghost head = self.kernel_args(is_popos, opt_loc(iso_location));
        assert(buf@ =~= bytes::overlay(base, 0, Seq::empty()));
        proof {
            partuuid_all();
            begun_by(base, buf@, Seq::empty(), head);
        }
        let chunk: &str = match self {
            BootKind::Casper => if is_popos {
                " boot=casper casper_path=pop-os maybe-ubiquity init=/init.choosable"
            } else {
                " boot=casper maybe-ubiquity init=/init.choosable"
            },
            BootKind::DebianLive => " boot=live live-media=removable init=/init.choosable",
            BootKind::FedoraLive => {
                " rd.live.image root=live:CDLABEL=CHOOSABLE rd.live.dir=/LiveOS rootdelay=10 init=/init.choosable"
            },
            BootKind::ArchIso => match iso_location {
                Some(loc) => {
                    let front: &[u8] = " archisodevice=/dev/disk/by-partuuid/".as_bytes();
                    let back: &[u8] = " archisobasedir=arch copytoram init=/init.choosable".as_bytes();
                    let uuid: Vec<u8> = location_uuid_text(loc);
                    if buf.len() < front.len() || buf.len() - front.len() < uuid.len() {
                        return None;
                    }
                    assert(Seq::<u8>::empty() + front@ =~= front@);
                    let pos: usize = append(buf, 0, front, Ghost(base), Ghost(Seq::empty()));
                    let pos: usize = append(buf, pos, &uuid, Ghost(base), Ghost(front@));
                    if buf.len() - pos < back.len() {
                        proof {
                            begun_by(base, buf@, front@ + uuid@, head);
                        }
                        return None;
                    }
                    let pos: usize = append(buf, pos, back, Ghost(base), Ghost(front@ + uuid@));
                    return Some(pos);
                },
                None => {
                    " archisodevice=LABEL=CHOOSABLE archisobasedir=arch copytoram init=/init.choosable"
                },
            },
            BootKind::Alpine => " init=/init.choosable modules=loop,iso9660",
            BootKind::AlpinePremount => " init=/init.choosable modules=loop,iso9660",
            BootKind::WindowsPE => {
                return Some(0);
            },
            BootKind::Unknown => " boot=casper maybe-ubiquity init=/init.choosable",
        };
        let args: &[u8] = chunk.as_bytes();
        assert(args@ == head);
        if args.len() > buf.len() {
            return None;
        }
        assert(Seq::<u8>::empty() + args@ =~= args@);
        Some(append(buf, 0, args, Ghost(base), Ghost(Seq::empty())))
    }

    /// Writes the arguments to inject into a linux line at the start of `buf`
    /// and returns them, or `None` where there is not enough room.
    pub fn linux_extra<'a>(
        &self,
        is_popos: bool,
        iso_location: Option<&IsoLocation>,
        buf: &'a mut [u8],
    ) -> (r: Option<&'a [u8]>)
        requires
            iso_location matches Some(loc) ==> loc.wf() && offset_fits(*loc),
        ensures
            ({
                let want = self.extra(is_popos, opt_loc(iso_location), old(buf)@.len() as int);
                &&& r is Some <==> want is Some
                &&& r matches Some(s) ==> Some(s@) == want
                &&& begun(
                    old(buf)@,
                    final(buf)@,
                    self.full_extra(is_popos, opt_loc(iso_location)),
                )
            }),
    {
        let ghost base = buf@;
        let ghost head = self.kernel_args(is_popos, opt_loc(iso_location));
        let ghost full = self.full_extra(is_popos, opt_loc(iso_location));
        let mut pos: usize = match self.write_args(is_popos, iso_location, buf) {
            None => {
                proof {
                    let n = choose|n: int|
                        0 <= n <= head.len() && buf@ == bytes::overlay(
                            base,
                            0,
                            #[trigger] head.take(n),
                        );
                    begun_by(base, buf@, head.take(n), full);
                }
                return None;
            },
            Some(n) => n,
        };
        if let Some(loc) = iso_location {
            match append_choosable_params_slice(buf, pos, loc, Ghost(base), Ghost(head)) {
                Some(end) => {
                    pos = end;
                    proof {
                        written(base, buf@, full, full, full);
                    }
                },
                None => {
                    return None;
                },
            }
        } else {
            proof {
                written(base, buf@, head, head, full);
            }
        }
        Some(&buf[0..pos])
    }

    /// What stands before the image's path at the end of a linux line.
    pub open spec fn spec_eol(&self) -> Seq<u8> {
        match *self {
            BootKind::Casper => bytes::text(" iso-scan/filename="),
            BootKind::DebianLive => bytes::text(" findiso="),
            _ => bytes::text(""),
        }
    }

    pub fn linux_eol_extra(&self) -> (r: &'static [u8])
        ensures
            r@ == self.spec_eol(),
    {
        match self {
            BootKind::Casper => " iso-scan/filename=".as_bytes(),
            BootKind::DebianLive => " findiso=".as_bytes(),
            _ => "".as_bytes(),
        }
    }

    /// Which hook directories the premount archive populates.
    pub fn hook_targets(&self) -> (r: HookTargetSet)
        ensures
            r.live == (self is DebianLive || self is FedoraLive),
            r.live_premount == (self is DebianLive || self is FedoraLive),
            r.casper_premount == (self is Casper || self is FedoraLive || self is ArchIso
                || self is Unknown),
            r.casper_bottom == (self is Casper || self is FedoraLive || self is Unknown),
    {
        match self {
            BootKind::Casper | BootKind::Unknown => HookTargetSet {
                live: false,
                live_premount: false,
                casper_premount: true,
                casper_bottom: true,
            },
            BootKind::DebianLive => HookTargetSet {
                live: true,
                live_premount: true,
                casper_premount: false,
                casper_bottom: false,
            },
            BootKind::FedoraLive => HookTargetSet {
                live: true,
                live_premount: true,
                casper_premount: true,
                casper_bottom: true,
            },
            BootKind::ArchIso => HookTargetSet {
                live: false,
                live_premount: false,
                casper_premount: true,
                casper_bottom: false,
            },
            _ => HookTargetSet {
                live: false,
                live_premount: false,
                casper_premount: false,
                casper_bottom: false,
            },
        }
    }

    /// Whether the premount script loads the CD-ROM driver.
    pub fn needs_sr_mod(&self) -> (r: bool)
        ensures
            r == (self is Casper || self is Unknown),
    {
        matches!(self, BootKind::Casper | BootKind::Unknown)
    }

    pub open spec fn spec_fixup(&self) -> FixupType {
        match *self {
            BootKind::Casper => FixupType::Casper,
            BootKind::DebianLive => FixupType::LiveBoot,
            BootKind::FedoraLive => FixupType::Dracut,
            BootKind::ArchIso => FixupType::Arch,
            BootKind::Alpine => FixupType::Alpine,
            BootKind::AlpinePremount => FixupType::Alpine,
            BootKind::WindowsPE => FixupType::WindowsPE,
            BootKind::Unknown => FixupType::Casper,
        }
    }

    pub fn fixup_type(&self) -> (r: FixupType)
        ensures
            r == self.spec_fixup(),
    {
        match self {
            BootKind::Casper => FixupType::Casper,
            BootKind::DebianLive => FixupType::LiveBoot,
            BootKind::FedoraLive => FixupType::Dracut,
            BootKind::ArchIso => FixupType::Arch,
            BootKind::Alpine => FixupType::Alpine,
            BootKind::AlpinePremount => FixupType::Alpine,
            BootKind::WindowsPE => FixupType::WindowsPE,
            BootKind::Unknown => FixupType::Casper,
        }
    }
}

pub open spec fn opt_loc(loc: Option<&IsoLocation>) -> Option<IsoLocation> {
    match loc {
        Some(l) => Some(*l),
        None => None,
    }
}

proof fn partuuid_all()
    ensures
        forall|g: GuidView| #[trigger] partuuid(g).len() == 36,
{
    assert forall|g: GuidView| #[trigger] partuuid(g).len() == 36 by {
        partuuid_len(g);
    }
}

/// Writes the location parameters behind `pos`. Returns where they end, or
/// `None` where there is not enough room for them.
fn append_choosable_params_slice(
    buf: &mut [u8],
    pos: usize,
    loc: &IsoLocation,
    Ghost(base): Ghost<Seq<u8>>,
    Ghost(head): Ghost<Seq<u8>>,
) -> (r: Option<usize>)
    requires
        loc.wf(),
        offset_fits(*loc),
        pos == head.len(),
        pos <= old(buf)@.len(),
        old(buf)@ == bytes::overlay(base, 0, head),
    ensures
        match r {
            Some(end) => {
                &&& params_fit(old(buf)@.len() - pos, *loc)
                &&& end == pos + location_params(*loc).len()
                &&& end <= old(buf)@.len()
                &&& final(buf)@ == bytes::overlay(base, 0, head + location_params(*loc))
            },
            None => !params_fit(old(buf)@.len() - pos, *loc),
        },
        begun(base, final(buf)@, head + location_params(*loc)),
        final(buf)@.subrange(0, pos as int) == head,
{
    let ghost full = head + location_params(*loc);
    let path: &[u8] = loc.path_without_leading_slash();
    let uuid: Vec<u8> = location_uuid_text(loc);
    let num: Vec<u8> = decimal_text(loc.partition_number as u64);
    let offset: Vec<u8> = decimal_text(loc.offset_bytes());
    let size: Vec<u8> = decimal_text(loc.file_size);
    proof {
        decimal_len_u32(loc.partition_number);
        digits::decimal_len_u64(((loc.iso_lba - loc.part1_lba) * 512) as u64);
        digits::decimal_len_u64(loc.file_size);
        written(base, buf@, head, head, full);
        params_grow(head, *loc);
    }
    let at: usize = match append_param(
        buf,
        pos,
        " choosable.part_guid=".as_bytes(),
        &uuid,
        uuid.len(),
        Ghost(base),
        Ghost(head),
    ) {
        None => {
            return None;
        },
        Some(at) => at,
    };
    assert(head + (bytes::text(" choosable.part_guid=") + uuid@) == head + params_guid(*loc));
    proof {
        written(base, buf@, head, head + params_guid(*loc), full);
    }
    let at: usize = match append_param(
        buf,
        at,
        " choosable.part_num=".as_bytes(),
        &num,
        10,
        Ghost(base),
        Ghost(head + params_guid(*loc)),
    ) {
        None => {
            return None;
        },
        Some(at) => at,
    };
    proof {
        written(base, buf@, head, head + params_num(*loc), full);
    }
    let at: usize = match append_param(
        buf,
        at,
        " choosable.iso_offset=".as_bytes(),
        &offset,
        20,
        Ghost(base),
        Ghost(head + params_num(*loc)),
    ) {
        None => {
            return None;
        },
        Some(at) => at,
    };
    proof {
        written(base, buf@, head, head + params_front(*loc), full);
    }
    let mut at: usize = at;
    if path.len() > 0 {
        at = match append_param(
            buf,
            at,
            " choosable.iso_path=".as_bytes(),
            path,
            path.len(),
            Ghost(base),
            Ghost(head + params_front(*loc)),
        ) {
            None => {
                return None;
            },
            Some(at) => at,
        };
    }
    proof {
        written(base, buf@, head, head + params_path(*loc), full);
    }
    match append_param(
        buf,
        at,
        " choosable.iso_size=".as_bytes(),
        &size,
        20,
        Ghost(base),
        Ghost(head + params_path(*loc)),
    ) {
        None => None,
        Some(at) => {
            proof {
                written(base, buf@, head, full, full);
            }
            Some(at)
        },
    }
}

/// The parameters are built up piece by piece.
proof fn params_grow(head: Seq<u8>, loc: IsoLocation)
    ensures
        head + params_guid(loc) + (bytes::text(" choosable.part_num=") + digits::decimal(
            loc.partition_number as nat,
        )) == head + params_num(loc),
        head + params_num(loc) + (bytes::text(" choosable.iso_offset=") + digits::decimal(
            ((loc.iso_lba - loc.part1_lba) * 512) as nat,
        )) == head + params_front(loc),
        locator::relative(loc.spec_path()).len() > 0 ==> head + params_front(loc) + (bytes::text(
            " choosable.iso_path=",
        ) + locator::relative(loc.spec_path())) == head + params_path(loc),
        head + params_path(loc) + (bytes::text(" choosable.iso_size=") + digits::decimal(
            loc.file_size as nat,
        )) == head + location_params(loc),
        (head + params_guid(loc)).is_prefix_of(head + location_params(loc)),
        (head + params_num(loc)).is_prefix_of(head + location_params(loc)),
        (head + params_front(loc)).is_prefix_of(head + location_params(loc)),
        (head + params_path(loc)).is_prefix_of(head + location_params(loc)),
{
    let path = locator::relative(loc.spec_path());
    join(
        head,
        params_guid(loc),
        bytes::text(" choosable.part_num="),
        digits::decimal(loc.partition_number as nat),
    );
    join(
        head,
        params_num(loc),
        bytes::text(" choosable.iso_offset="),
        digits::decimal(((loc.iso_lba - loc.part1_lba) * 512) as nat),
    );
    join(head, params_front(loc), bytes::text(" choosable.iso_path="), path);
    join(
        head,
        params_path(loc),
        bytes::text(" choosable.iso_size="),
        digits::decimal(loc.file_size as nat),
    );
    prefix_of_prefix(
        head + params_front(loc),
        head + params_path(loc),
        head + location_params(loc),
    );
    prefix_of_prefix(head + params_num(loc), head + params_front(loc), head + location_params(loc));
    prefix_of_prefix(head + params_guid(loc), head + params_num(loc), head + location_params(loc));
}

proof fn join(head: Seq<u8>, a: Seq<u8>, key: Seq<u8>, value: Seq<u8>)
    ensures
        head + a + (key + value) == head + (a + key + value),
        (head + a).is_prefix_of(head + (a + key + value)),
{
    assert(head + a + (key + value) =~= head + (a + key + value));
    assert((head + (a + key + value)).subrange(0, (head + a).len() as int) =~= head + a);
}

proof fn prefix_of_prefix(a: Seq<u8>, b: Seq<u8>, c: Seq<u8>)
    requires
        a.is_prefix_of(b),
        b.is_prefix_of(c),
    ensures
        a.is_prefix_of(c),
{
    assert(c.subrange(0, a.len() as int) =~= b.subrange(0, a.len() as int));
}

/// Writes a parameter behind what was written so far, if there is room for its
/// name and `reserve` more bytes.
fn append_param(
    buf: &mut [u8],
    pos: usize,
    key: &[u8],
    value: &[u8],
    reserve: usize,
    Ghost(base): Ghost<Seq<u8>>,
    Ghost(done): Ghost<Seq<u8>>,
) -> (r: Option<usize>)
    requires
        pos == done.len(),
        pos <= old(buf)@.len(),
        value@.len() <= reserve,
        old(buf)@ == bytes::overlay(base, 0, done),
    ensures
        r is Some <==> pos + key@.len() + reserve <= old(buf)@.len(),
        match r {
            None => final(buf)@ == old(buf)@,
            Some(end) => {
                &&& end == pos + key@.len() + value@.len()
                &&& end <= old(buf)@.len()
                &&& final(buf)@ == bytes::overlay(base, 0, done + (key@ + value@))
            },
        },
{
    let room: usize = buf.len() - pos;
    if room < key.len() || room - key.len() < reserve {
        return None;
    }
    let at: usize = append(buf, pos, key, Ghost(base), Ghost(done));
    let at: usize = append(buf, at, value, Ghost(base), Ghost(done + key@));
    assert(done + key@ + value@ =~= done + (key@ + value@));
    Some(at)
}

/// A 32-bit number has at most 10 decimal digits.
proof fn decimal_len_u32(v: u32)
    ensures
        digits::decimal(v as nat).len() <= 10,
{
    reveal_with_fuel(digits::decimal, 11);
}

} // verus!
