//! What the UEFI boot stage finds on the disk and tells the kernel of it.

use vstd::prelude::*;
use crate::bpb;
use crate::bytes;
use crate::digits;
use crate::efi::boot_kind;
use crate::efi::boot_context::BootContext;
use crate::efi::boot_kind::{BootKind, FixupType};
use crate::efi::boot_stage;
use crate::efi::boot_stage::{BootError, PartitionStepView, StageResult, StageStep};
use crate::efi::fs::{FsType, PayloadEntry};
use crate::efi::iso_laws;
use crate::efi::locator;
use crate::efi::locator::{
    BootPayloadLocator, EfiPayloadLocator, FileBackedIsoLocator, IsoLocation, IsoLocator,
    VhdPayloadLocator, WimPayloadLocator,
};
use crate::efi::medium_laws;
use crate::efi::premount;
use crate::efi::premount::{
    AlpineFixup, AlpinePremountFixup, ArchFixup, CasperFixup, DracutFixup, EarlyBootFixup,
    LiveBootFixup, PremountBundle, WindowsPEFixup,
};
use crate::efi::protocol::{Guid, GuidView};
use crate::efi::strategy;
use crate::gpt_search;
use crate::gpt_search::{SearchView, Target};
use crate::scan::dir::VolumeKind;

verus! {

// ---------------------------------------------------------------------------
// Partition
// ---------------------------------------------------------------------------

/// Whether entry `i` of an MBR is that of a partition: it has sectors, and does not
/// stand for a GPT.
pub open spec fn is_partition(mbr: Seq<u8>, i: int) -> bool {
    iso_laws::number4(mbr, 446 + 16 * i + 12) > 0 && mbr[446 + 16 * i + 4] != 0xEE
}

/// The first entry of an MBR that is that of a partition is taken.
pub proof fn first_partition_is_taken(mbr: Seq<u8>, j: int, i: int)
    requires
        0 <= j <= i <= 4,
        forall|k: int| j <= k < i ==> !#[trigger] is_partition(mbr, k),
        i < 4 ==> is_partition(mbr, i),
    ensures
        i < 4 ==> boot_stage::first_partition(mbr, j) == iso_laws::number4(mbr, 446 + 16 * i + 8),
        i < 4 ==> boot_stage::first_number(mbr, j) == i + 1,
        i == 4 ==> boot_stage::first_partition(mbr, j) == 0,
    decreases i - j,
{
    if j < i {
        assert(!is_partition(mbr, j));
        first_partition_is_taken(mbr, j + 1, i);
    }
}

/// The partition that an MBR names is read next, and the partition is known by the
/// signature of the disk and its number.
pub proof fn mbr_partition_is_known_by_its_number(mbr: Seq<u8>, i: int)
    requires
        0 <= i < 4,
        forall|k: int| 0 <= k < i ==> !#[trigger] is_partition(mbr, k),
        is_partition(mbr, i),
        iso_laws::number4(mbr, 446 + 16 * i + 8) > 0,
    ensures
        ({
            let o = boot_stage::partition_next(PartitionStepView::Mbr, Some(mbr));
            let lba = iso_laws::number4(mbr, 446 + 16 * i + 8);
            &&& o.action == StageStep::ReadSector(lba as u64)
            &&& o.step == PartitionStepView::Vbr(lba as u64)
            &&& o.identity matches Some(id)
            &&& id.is_mbr
            &&& id.number == i + 1
            &&& id.guid.d1 == iso_laws::number4(mbr, 440)
            &&& id.guid.d4[4] == mbr[444]
        }),
{
    first_partition_is_taken(mbr, 0, i);
}

/// An MBR without a partition leads to the GPT where an entry stands for one, and
/// else there is none.
pub proof fn placeholder_leads_to_the_gpt(mbr: Seq<u8>)
    requires
        !is_partition(mbr, 0) && !is_partition(mbr, 1) && !is_partition(mbr, 2) && !is_partition(
            mbr,
            3,
        ),
    ensures
        ({
            let o = boot_stage::partition_next(PartitionStepView::Mbr, Some(mbr));
            let stands = |i: int|
                mbr[446 + 16 * i + 4] == 0xEE && iso_laws::number4(mbr, 446 + 16 * i + 12) > 0;
            let leads = stands(0) || stands(1) || stands(2) || stands(3);
            &&& leads ==> o.action == StageStep::ReadSector(1) && o.step is Gpt
            &&& !leads ==> o.action == StageStep::Fatal(BootError::NoPartition)
            &&& o.identity is None
        }),
        boot_stage::partition_next(PartitionStepView::Mbr, None).action == StageStep::Fatal(
            BootError::MbrUnreadable,
        ),
{
    assert forall|k: int| 0 <= k < 4 implies !#[trigger] is_partition(mbr, k) by {
        assert(k == 0 || k == 1 || k == 2 || k == 3);
    }
    first_partition_is_taken(mbr, 0, 4);
    reveal_with_fuel(boot_stage::placeholder_first, 6);
}

/// The data partition of a GPT is read next, and known by its own identifier and its
/// place in the table.
pub proof fn gpt_partition_is_known_by_its_guid(search: SearchView, sector: Option<Seq<u8>>)
    requires
        gpt_search::search_next(Target::BasicData, search, sector) matches SearchView::Found {
            at,
            sector: s,
            ..
        } && 0 <= at && at + 128 <= s.len(),
    ensures
        ({
            let o = boot_stage::partition_next(PartitionStepView::Gpt(search), sector);
            gpt_search::search_next(Target::BasicData, search, sector) matches SearchView::Found {
                index,
                at,
                sector: s,
            } && {
                let lba = iso_laws::number4(s, at + 32) + 0x1_0000_0000 * iso_laws::number4(
                    s,
                    at + 36,
                );
                &&& lba > 0 ==> o.action == StageStep::ReadSector(lba as u64) && o.step
                    == PartitionStepView::Vbr(lba as u64)
                &&& lba == 0 ==> o.action == StageStep::Fatal(BootError::NoPartition)
                &&& o.identity matches Some(id)
                &&& !id.is_mbr
                &&& index < u32::MAX ==> id.number == index + 1
                &&& id.guid.d1 == iso_laws::number4(s, at + 16)
                &&& id.guid.d2 == s[at + 20] + 256 * s[at + 21]
                &&& id.guid.d3 == s[at + 22] + 256 * s[at + 23]
                &&& id.guid.d4 == s.subrange(at + 24, at + 32)
            }
        }),
{
}

/// The file system is told by the boot record of the partition.
pub proof fn boot_record_tells_the_file_system(lba: u64, vbr: Seq<u8>)
    ensures
        ({
            let o = boot_stage::partition_next(PartitionStepView::Vbr(lba), Some(vbr));
            let oem = vbr.subrange(3, 11);
            let kind = vbr.subrange(82, 90);
            &&& o.fs == Some(FsType::Exfat) <==> oem == bytes::text("EXFAT   ")
            &&& o.fs == Some(FsType::Ntfs) <==> oem == bytes::text("NTFS    ")
            &&& o.fs == Some(FsType::Fat32) <==> kind == bytes::text("FAT32   ") && oem
                != bytes::text("EXFAT   ") && oem != bytes::text("NTFS    ")
            &&& o.fs is Some ==> o.action == StageStep::Finished(StageResult::Continue)
            &&& o.fs is None ==> o.action == StageStep::Fatal(BootError::UnknownFilesystem)
            &&& o.identity is None
        }),
        boot_stage::partition_next(PartitionStepView::Vbr(lba), None).action == StageStep::Fatal(
            BootError::PartitionUnreadable,
        ),
{
    crate::kernel::laws::volumes_are_told_by_their_names(vbr);
}

/// A volume is read with the layout that its boot record gives.
pub proof fn volume_has_the_layout_of_its_record(fs: FsType, part: u64, vbr: Seq<u8>)
    ensures
        match boot_stage::spec_mount(fs, part, vbr) {
            Ok(ctx) => {
                let v = ctx.spec_volume();
                &&& ctx.fs == fs
                &&& ctx.part1_lba == part
                &&& fs == FsType::Exfat ==> v.kind == VolumeKind::Exfat && (
                bpb::spec_exfat_layout(vbr, part, 16) matches Some(l) && {
                    &&& v.geometry.spc == l.spc
                    &&& v.geometry.fat_start == l.fat_start
                    &&& v.geometry.heap_start == l.heap_start
                    &&& v.root_cluster == l.root_cluster
                })
                &&& fs == FsType::Fat32 ==> v.kind == VolumeKind::Fat32 && (
                bpb::spec_fat32_layout(vbr, part) matches Some(l) && {
                    &&& v.geometry.spc == l.spc
                    &&& v.geometry.fat_start == l.fat_start
                    &&& v.geometry.heap_start == l.heap_start
                    &&& v.root_cluster == l.root_cluster
                })
                &&& fs == FsType::Ntfs ==> v.kind == VolumeKind::Ntfs && (bpb::spec_ntfs_layout(
                    vbr,
                    part,
                    bpb::signed_byte(vbr, 64),
                ) matches Ok(l) && {
                    &&& v.ntfs.part1_lba == part
                    &&& v.ntfs.mft_start_lba == l.mft_start_lba
                    &&& v.ntfs.sectors_per_cluster == l.spc
                    &&& v.ntfs.mft_record_size == l.mft_record_size
                })
            },
            Err(BootError::InvalidClusterShift) => fs == FsType::Exfat && vbr[109] > 16,
            Err(BootError::InvalidSectorsPerCluster) => fs != FsType::Exfat && vbr[13] == 0,
            Err(BootError::InvalidMftRecordSize) => fs == FsType::Ntfs && vbr[13] > 0
                && bpb::spec_ntfs_layout(vbr, part, bpb::signed_byte(vbr, 64)) == Err::<
                bpb::NtfsLayout,
                bpb::NtfsFault,
            >(bpb::NtfsFault::RecordSize),
            Err(_) => false,
        },
{
}

/// An image lies where the entry of its payload says, and its path is the name of
/// the payload.
pub proof fn image_lies_where_its_payload_says(
    loc: IsoLocation,
    entry: PayloadEntry,
    guid: Guid,
    number: u32,
    part: u64,
    is_mbr: bool,
)
    requires
        entry.name_len <= 256,
        locator::is_location(loc, entry, guid, number, part, is_mbr),
    ensures
        loc.iso_lba == entry.file_start_lba,
        loc.file_size == entry.file_size,
        loc.part1_lba == part,
        loc.partition_guid == guid,
        loc.partition_number == number,
        loc.is_mbr == is_mbr,
        loc.file_path_len == entry.name_len,
        loc.spec_path() == entry.name@.take(entry.name_len as int),
        loc.spec_path().len() == entry.name_len,
{
    assert(entry.name@.subrange(0, entry.name_len as int) =~= entry.name@.take(
        entry.name_len as int,
    ));
}

/// Each family gets its own fixup; a family that is not known is treated like Casper.
/// All but Windows have an initrd to add to.
pub proof fn families_have_their_fixups(
    a: CasperFixup,
    b: LiveBootFixup,
    c: DracutFixup,
    d: ArchFixup,
    e: AlpineFixup,
    f: AlpinePremountFixup,
    g: WindowsPEFixup,
)
    ensures
        BootKind::Casper.spec_fixup() == FixupType::Casper,
        BootKind::Unknown.spec_fixup() == FixupType::Casper,
        BootKind::DebianLive.spec_fixup() == FixupType::LiveBoot,
        BootKind::FedoraLive.spec_fixup() == FixupType::Dracut,
        BootKind::ArchIso.spec_fixup() == FixupType::Arch,
        BootKind::Alpine.spec_fixup() == FixupType::Alpine,
        BootKind::AlpinePremount.spec_fixup() == FixupType::Alpine,
        BootKind::WindowsPE.spec_fixup() == FixupType::WindowsPE,
        a.has_initrd() && b.has_initrd() && c.has_initrd() && d.has_initrd() && e.has_initrd()
            && f.has_initrd(),
        !g.has_initrd(),
{
}

/// The bundle for an image tells how far behind the start of its partition it lies.
pub proof fn bundle_tells_where_the_image_lies(b: PremountBundle, ctx: BootContext, init: Seq<u8>, i: int)
    requires
        premount::is_bundle(b, ctx, init),
        ctx.selected_slot() == Some(i),
    ensures
        b.iso_offset_bytes + ctx.partition_start_lba * 512 == ctx.payloads@[i].file_start_lba * 512,
        b.cpio_buf@.take(b.cpio_size as int) == premount::archive(init),
        b.cpio_size == premount::archive(init).len(),
{
    assert(b.cpio_buf@.take(b.cpio_size as int) =~= premount::archive(init));
}

/// The payload that is selected is the one of that number, as long as there is one.
pub proof fn selection_is_a_payload(ctx: BootContext, i: usize)
    ensures
        ctx.selected_index == Some(i) && i < ctx.payload_count ==> ctx.selected_slot() == Some(
            i as int,
        ),
        ctx.selected_index == Some(i) && i >= ctx.payload_count ==> ctx.selected_slot() is None,
        ctx.selected_index is None ==> ctx.selected_slot() is None,
{
}

/// A locator gives the location it was made with, and says what kind of payload it is
/// for.
pub proof fn locators_tell_their_payload(
    iso: FileBackedIsoLocator,
    wim: WimPayloadLocator,
    efi: EfiPayloadLocator,
    vhd: VhdPayloadLocator,
)
    ensures
        iso.spec_location() == iso.location,
        iso.spec_payload_location() == iso.location,
        wim.spec_payload_location() == wim.location,
        efi.spec_payload_location() == efi.location,
        vhd.spec_payload_location() == vhd.location,
        iso.spec_payload_type() == "ISO"@,
        wim.spec_payload_type() == "WIM"@,
        efi.spec_payload_type() == "EFI"@,
        vhd.is_vhdx ==> vhd.spec_payload_type() == "VHDX"@,
        !vhd.is_vhdx ==> vhd.spec_payload_type() == "VHD"@,
{
}

// ---------------------------------------------------------------------------
// Arguments
// ---------------------------------------------------------------------------

proof fn hex_group(v: nat, n: nat)
    requires
        v < medium_laws::pow16(n),
    ensures
        medium_laws::hex_value(digits::hex(v, n, 0x61)) == v,
        digits::hex(v, n, 0x61).len() == n,
{
    medium_laws::hex_reads_back(v, n, 0x61);
}

/// An identifier is written in groups of 8, 4, 4, 4 and 12 digits with dashes between
/// them: its first three numbers, then the other bytes in their order.
pub proof fn identifier_is_written_in_groups(g: GuidView)
    requires
        g.d4.len() == 8,
    ensures
        ({
            let t = boot_kind::partuuid(g);
            let value = |from: int, to: int| medium_laws::hex_value(t.subrange(from, to));
            &&& t.len() == 36
            &&& t[8] == 0x2D && t[13] == 0x2D && t[18] == 0x2D && t[23] == 0x2D
            &&& value(0, 8) == g.d1
            &&& value(9, 13) == g.d2
            &&& value(14, 18) == g.d3
            &&& value(19, 21) == g.d4[0]
            &&& value(21, 23) == g.d4[1]
            &&& forall|i: int| 2 <= i < 8 ==> value(20 + 2 * i, 22 + 2 * i) == #[trigger] g.d4[i]
        }),
{
    reveal_with_fuel(medium_laws::pow16, 9);
    hex_group(g.d1 as nat, 8);
    hex_group(g.d2 as nat, 4);
    hex_group(g.d3 as nat, 4);
    let h = |i: int| digits::hex(g.d4[i] as nat, 2, 0x61);
    hex_group(g.d4[0] as nat, 2);
    hex_group(g.d4[1] as nat, 2);
    hex_group(g.d4[2] as nat, 2);
    hex_group(g.d4[3] as nat, 2);
    hex_group(g.d4[4] as nat, 2);
    hex_group(g.d4[5] as nat, 2);
    hex_group(g.d4[6] as nat, 2);
    hex_group(g.d4[7] as nat, 2);
    let t = boot_kind::partuuid(g);
    assert(t.subrange(0, 8) =~= digits::hex(g.d1 as nat, 8, 0x61));
    assert(t.subrange(9, 13) =~= digits::hex(g.d2 as nat, 4, 0x61));
    assert(t.subrange(14, 18) =~= digits::hex(g.d3 as nat, 4, 0x61));
    assert(t.subrange(19, 21) =~= h(0));
    assert(t.subrange(21, 23) =~= h(1));
    assert(t.subrange(24, 26) =~= h(2));
    assert(t.subrange(26, 28) =~= h(3));
    assert(t.subrange(28, 30) =~= h(4));
    assert(t.subrange(30, 32) =~= h(5));
    assert(t.subrange(32, 34) =~= h(6));
    assert(t.subrange(34, 36) =~= h(7));
    assert forall|i: int| 2 <= i < 8 implies medium_laws::hex_value(
        t.subrange(20 + 2 * i, 22 + 2 * i),
    ) == #[trigger] g.d4[i] by {
        assert(i == 2 || i == 3 || i == 4 || i == 5 || i == 6 || i == 7);
    }
}

/// On a disk with an MBR a partition is named by the signature of the disk and its
/// number, with a dash between them.
pub proof fn mbr_partition_is_named_by_signature_and_number(loc: IsoLocation)
    requires
        loc.is_mbr,
        loc.partition_number < 256,
    ensures
        ({
            let t = boot_kind::location_uuid(loc);
            &&& t.len() == 11
            &&& medium_laws::hex_value(t.subrange(0, 8)) == loc.partition_guid@.d1
            &&& t[8] == 0x2D
            &&& medium_laws::hex_value(t.subrange(9, 11)) == loc.partition_number
        }),
{
    reveal_with_fuel(medium_laws::pow16, 9);
    hex_group(loc.partition_guid@.d1 as nat, 8);
    hex_group(loc.partition_number as nat, 2);
    let t = boot_kind::location_uuid(loc);
    assert(t.subrange(0, 8) =~= digits::hex(loc.partition_guid@.d1 as nat, 8, 0x61));
    assert(t.subrange(9, 11) =~= digits::hex(loc.partition_number as nat, 2, 0x61));
}

/// What a family of live systems is started with.
pub open spec fn family_arguments(kind: BootKind, is_popos: bool, loc: Option<IsoLocation>) -> Seq<u8> {
    match kind {
        BootKind::Casper if is_popos => bytes::text(
            " boot=casper casper_path=pop-os maybe-ubiquity init=/init.choosable",
        ),
        BootKind::Casper | BootKind::Unknown => bytes::text(
            " boot=casper maybe-ubiquity init=/init.choosable",
        ),
        BootKind::DebianLive => bytes::text(" boot=live live-media=removable init=/init.choosable"),
        BootKind::FedoraLive => bytes::text(
            " rd.live.image root=live:CDLABEL=CHOOSABLE rd.live.dir=/LiveOS rootdelay=10 init=/init.choosable",
        ),
        BootKind::ArchIso => match loc {
            Some(l) => bytes::text(" archisodevice=/dev/disk/by-partuuid/")
                + boot_kind::location_uuid(l) + bytes::text(
                " archisobasedir=arch copytoram init=/init.choosable",
            ),
            None => bytes::text(
                " archisodevice=LABEL=CHOOSABLE archisobasedir=arch copytoram init=/init.choosable",
            ),
        },
        BootKind::Alpine | BootKind::AlpinePremount => bytes::text(
            " init=/init.choosable modules=loop,iso9660",
        ),
        BootKind::WindowsPE => Seq::empty(),
    }
}

/// A kernel is told what its family needs, and behind that which partition the image
/// is on, where on it, under which path, and how long it is. A path is told without
/// the slash that it may start with.
pub proof fn kernel_is_told_where_the_image_is(
    kind: BootKind,
    iso_name: Seq<u8>,
    loc: IsoLocation,
    target: Seq<u8>,
    path: Seq<u8>,
)
    requires
        loc.wf(),
        boot_kind::offset_fits(loc),
        loc.spec_path() == path || loc.spec_path() == seq![0x2Fu8] + path,
        path.len() > 0 && path[0] != 0x2F,
        strategy::patch_for(kind, iso_name, Some(loc), target) is Some,
    ensures
        (strategy::patch_for(kind, iso_name, Some(loc), target)->0).extra == family_arguments(
            kind,
            strategy::is_popos(kind, iso_name),
            Some(loc),
        ) + (bytes::text(" choosable.part_guid=") + boot_kind::location_uuid(loc) + bytes::text(
            " choosable.part_num=",
        ) + digits::decimal(loc.partition_number as nat) + bytes::text(" choosable.iso_offset=")
            + digits::decimal((loc.iso_lba * 512 - loc.part1_lba * 512) as nat) + bytes::text(
            " choosable.iso_path=",
        ) + path + bytes::text(" choosable.iso_size=") + digits::decimal(loc.file_size as nat)),
{
    if loc.spec_path() == seq![0x2Fu8] + path {
        assert(loc.spec_path().skip(1) =~= path);
    }
    assert((loc.iso_lba - loc.part1_lba) * 512 == loc.iso_lba * 512 - loc.part1_lba * 512);
}

/// A kernel is told no location where none is known.
pub proof fn kernel_without_location_is_told_its_family(
    kind: BootKind,
    iso_name: Seq<u8>,
    target: Seq<u8>,
)
    requires
        strategy::patch_for(kind, iso_name, None, target) is Some,
    ensures
        (strategy::patch_for(kind, iso_name, None, target)->0).extra == family_arguments(
            kind,
            strategy::is_popos(kind, iso_name),
            None,
        ),
{
}

proof fn argument_lengths()
    ensures
        bytes::text(" boot=casper casper_path=pop-os maybe-ubiquity init=/init.choosable").len() <= 100,
        bytes::text(" boot=casper maybe-ubiquity init=/init.choosable").len() <= 100,
        bytes::text(" boot=live live-media=removable init=/init.choosable").len() <= 100,
        bytes::text(
            " rd.live.image root=live:CDLABEL=CHOOSABLE rd.live.dir=/LiveOS rootdelay=10 init=/init.choosable",
        ).len() <= 100,
        bytes::text(" archisodevice=/dev/disk/by-partuuid/").len() <= 50,
        bytes::text(" archisobasedir=arch copytoram init=/init.choosable").len() <= 60,
        bytes::text(
            " archisodevice=LABEL=CHOOSABLE archisobasedir=arch copytoram init=/init.choosable",
        ).len() <= 100,
        bytes::text(" init=/init.choosable modules=loop,iso9660").len() <= 100,
{
    reveal_strlit(" boot=casper casper_path=pop-os maybe-ubiquity init=/init.choosable");
    reveal_strlit(" boot=casper maybe-ubiquity init=/init.choosable");
    reveal_strlit(" boot=live live-media=removable init=/init.choosable");
    reveal_strlit(
        " rd.live.image root=live:CDLABEL=CHOOSABLE rd.live.dir=/LiveOS rootdelay=10 init=/init.choosable",
    );
    reveal_strlit(" archisodevice=/dev/disk/by-partuuid/");
    reveal_strlit(" archisobasedir=arch copytoram init=/init.choosable");
    reveal_strlit(
        " archisodevice=LABEL=CHOOSABLE archisobasedir=arch copytoram init=/init.choosable",
    );
    reveal_strlit(" init=/init.choosable modules=loop,iso9660");
    vstd::string::is_ascii_spec_bytes(
        " boot=casper casper_path=pop-os maybe-ubiquity init=/init.choosable",
    );
    vstd::string::is_ascii_spec_bytes(" boot=casper maybe-ubiquity init=/init.choosable");
    vstd::string::is_ascii_spec_bytes(" boot=live live-media=removable init=/init.choosable");
    vstd::string::is_ascii_spec_bytes(
        " rd.live.image root=live:CDLABEL=CHOOSABLE rd.live.dir=/LiveOS rootdelay=10 init=/init.choosable",
    );
    vstd::string::is_ascii_spec_bytes(" archisodevice=/dev/disk/by-partuuid/");
    vstd::string::is_ascii_spec_bytes(" archisobasedir=arch copytoram init=/init.choosable");
    vstd::string::is_ascii_spec_bytes(
        " archisodevice=LABEL=CHOOSABLE archisobasedir=arch copytoram init=/init.choosable",
    );
    vstd::string::is_ascii_spec_bytes(" init=/init.choosable modules=loop,iso9660");
}

proof fn param_lengths()
    ensures
        bytes::text(" choosable.part_guid=").len() <= 30,
        bytes::text(" choosable.part_num=").len() <= 30,
        bytes::text(" choosable.iso_offset=").len() <= 30,
        bytes::text(" choosable.iso_path=").len() <= 30,
        bytes::text(" choosable.iso_size=").len() <= 30,
{
    reveal_strlit(" choosable.part_guid=");
    reveal_strlit(" choosable.part_num=");
    reveal_strlit(" choosable.iso_offset=");
    reveal_strlit(" choosable.iso_path=");
    reveal_strlit(" choosable.iso_size=");
    vstd::string::is_ascii_spec_bytes(" choosable.part_guid=");
    vstd::string::is_ascii_spec_bytes(" choosable.part_num=");
    vstd::string::is_ascii_spec_bytes(" choosable.iso_offset=");
    vstd::string::is_ascii_spec_bytes(" choosable.iso_path=");
    vstd::string::is_ascii_spec_bytes(" choosable.iso_size=");
}

proof fn uuid_length(loc: IsoLocation)
    ensures
        boot_kind::location_uuid(loc).len() <= 36,
{
    boot_kind::partuuid_len(loc.partition_guid@);
    if loc.is_mbr {
        hex_len(loc.partition_guid@.d1 as nat, 8);
        hex_len(loc.partition_number as nat, 2);
    }
}

proof fn hex_len(v: nat, n: nat)
    ensures
        digits::hex(v, n, 0x61).len() == n,
    decreases n,
{
    if n > 0 {
        hex_len(v / 16, (n - 1) as nat);
    }
}

proof fn head_length(kind: BootKind, is_popos: bool, loc: Option<IsoLocation>)
    ensures
        kind.kernel_args(is_popos, loc).len() <= 146,
{
    argument_lengths();
    if let Some(l) = loc {
        uuid_length(l);
    }
}

proof fn location_fits(loc: IsoLocation)
    requires
        loc.wf(),
        boot_kind::offset_fits(loc),
    ensures
        boot_kind::params_fit(878, loc),
{
    param_lengths();
    uuid_length(loc);
    digits::decimal_len_u64(loc.partition_number as u64);
    digits::decimal_len_u64(((loc.iso_lba - loc.part1_lba) * 512) as u64);
    digits::decimal_len_u64(loc.file_size);
    assert(locator::relative(loc.spec_path()).len() <= 256);
    assert(boot_kind::params_guid(loc).len() <= 66);
    assert(boot_kind::params_num(loc).len() <= 116);
    assert(boot_kind::params_front(loc).len() <= 166);
    assert(boot_kind::params_path(loc).len() <= 452);
}

proof fn more_room_fits(a: int, b: int, loc: IsoLocation)
    requires
        boot_kind::params_fit(a, loc),
        a <= b,
    ensures
        boot_kind::params_fit(b, loc),
{
}

/// There is room for the arguments of every image: a configuration is patched whatever
/// the family and wherever the image lies.
pub proof fn arguments_always_fit(
    kind: BootKind,
    iso_name: Seq<u8>,
    loc: Option<IsoLocation>,
    target: Seq<u8>,
)
    requires
        loc matches Some(l) ==> l.wf() && boot_kind::offset_fits(l),
    ensures
        strategy::patch_for(kind, iso_name, loc, target) is Some,
{
    let popos = strategy::is_popos(kind, iso_name);
    head_length(kind, popos, loc);
    if let Some(l) = loc {
        location_fits(l);
        more_room_fits(878, 1024 - kind.kernel_args(popos, loc).len(), l);
    }
}

/// An image of the Casper family is one of Pop!_OS when `pop` stands anywhere in its
/// name, in either case. One of another family never is.
pub proof fn name_tells_pop_os(kind: BootKind, front: Seq<u8>, p: u8, o: u8, q: u8, rest: Seq<u8>)
    requires
        p == 0x70 || p == 0x50,
        o == 0x6F || o == 0x4F,
        q == 0x70 || q == 0x50,
    ensures
        strategy::is_popos(kind, front + seq![p, o, q] + rest) == (kind == BootKind::Casper),
{
    let name = front + seq![p, o, q] + rest;
    reveal_strlit("pop");
    vstd::string::is_ascii_spec_bytes("pop");
    let t = bytes::text("pop");
    assert(t =~= seq![0x70u8, 0x6F, 0x70]);
    assert(0x70u8 | 0x20 == 0x70u8 && 0x50u8 | 0x20 == 0x70u8 && 0x6Fu8 | 0x20 == 0x6Fu8 && 0x4Fu8
        | 0x20 == 0x6Fu8) by (bit_vector);
    let i = front.len() as int;
    assert(name[i] == p && name[i + 1] == o && name[i + 2] == q);
    assert forall|k: int| 0 <= k < t.len() implies (name[i + k] | 0x20) == #[trigger] t[k] by {
        assert(k == 0 || k == 1 || k == 2);
    }
    assert(strategy::lower_at(name, i, t));
}

/// A name in which no byte is a `p` in either case is not that of a Pop!_OS image.
pub proof fn other_names_are_not_pop_os(kind: BootKind, name: Seq<u8>)
    requires
        forall|i: int| 0 <= i < name.len() ==> #[trigger] name[i] != 0x70 && name[i] != 0x50,
    ensures
        !strategy::is_popos(kind, name),
{
    reveal_strlit("pop");
    reveal_strlit("pop-os");
    reveal_strlit("popos");
    vstd::string::is_ascii_spec_bytes("pop");
    vstd::string::is_ascii_spec_bytes("pop-os");
    vstd::string::is_ascii_spec_bytes("popos");
    no_p(name, bytes::text("pop"));
    no_p(name, bytes::text("pop-os"));
    no_p(name, bytes::text("popos"));
}

proof fn no_p(name: Seq<u8>, t: Seq<u8>)
    requires
        forall|i: int| 0 <= i < name.len() ==> #[trigger] name[i] != 0x70 && name[i] != 0x50,
        t.len() > 0,
        t[0] == 0x70,
    ensures
        !strategy::contains_lower(name, t),
{
    if strategy::contains_lower(name, t) {
        let i = choose|i: int| strategy::lower_at(name, i, t);
        assert((name[i + 0] | 0x20) == t[0]);
        let b = name[i + 0];
        assert(b | 0x20 == 0x70u8 ==> b == 0x70u8 || b == 0x50u8) by (bit_vector);
    }
}

} // verus!
