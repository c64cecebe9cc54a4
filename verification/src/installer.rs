//! What an installation writes to a disk.

use vstd::prelude::*;
use crate::bytes;
use crate::bytes::{put, slice_vec};
use crate::constants::{
    BOOT_CODE_SIZE, CHOOSABLE_PART1_START_SECTOR, CHOOSABLE_PART_SIZE_MB, CHOOSABLE_SECTOR_NUM,
    GPT_ATTR_VTOYEFI, GPT_PART1_NAME, MBR_SIGNATURE_55, MBR_SIGNATURE_AA, PART_ACTIVE,
    PART_TYPE_DATA, PART_TYPE_EFI_SYSTEM, SECTOR_SIZE, SIZE_1TB,
};
use crate::disk::Detected;
use crate::disk_io;
use crate::disk_io::{push_write, DiskWrite, WriteView};
use crate::disk_layout;
use crate::disk_layout::{
    write_table, GptEntryView, GptHeader, GptInfo, GptPartitionEntry, GptView, Guid, HeaderView,
    Mbr, MbrView, PartitionTableEntry,
};
use crate::error;
use crate::error::{ChoosableError, ErrorView, Result};
use crate::install_flow;
use crate::install_flow::{Job, Operation, Outcome, Phase};
use crate::text;
use crate::text::{join3, str_eq};

verus! {

/// The filesystem of partition 1.
#[derive(Clone, Copy, PartialEq, Eq, Structural, Debug)]
pub enum FilesystemType {
    ExFat,
    Ntfs,
    Fat32,
}

pub open spec fn fs_name(t: FilesystemType) -> &'static str {
    match t {
        FilesystemType::ExFat => "exfat",
        FilesystemType::Ntfs => "ntfs",
        FilesystemType::Fat32 => "fat32",
    }
}

/// The filesystem of a name, in whichever case.
pub open spec fn fs_named(s: Seq<char>) -> std::result::Result<FilesystemType, ErrorView> {
    let name = text::lower(s);
    if name == "exfat"@ {
        Ok(FilesystemType::ExFat)
    } else if name == "ntfs"@ {
        Ok(FilesystemType::Ntfs)
    } else if name == "fat32"@ {
        Ok(FilesystemType::Fat32)
    } else {
        Err(
            ErrorView::Generic(
                "Unsupported filesystem: "@ + s + ". Supported: exfat, ntfs, fat32"@,
            ),
        )
    }
}

impl FilesystemType {
    pub fn from_str(s: &str) -> (r: Result<FilesystemType>)
        ensures
            error::outcome(r) == fs_named(s@),
    {
        let name: String = s.to_lowercase();
        assert(name@ == text::lower(s@));
        if str_eq(&name, "exfat") {
            Ok(FilesystemType::ExFat)
        } else if str_eq(&name, "ntfs") {
            Ok(FilesystemType::Ntfs)
        } else if str_eq(&name, "fat32") {
            Ok(FilesystemType::Fat32)
        } else {
            Err(
                ChoosableError::Generic(
                    join3("Unsupported filesystem: ", s, ". Supported: exfat, ntfs, fat32"),
                ),
            )
        }
    }

    pub fn as_str(&self) -> (r: &'static str)
        ensures
            r == fs_name(*self),
    {
        match self {
            FilesystemType::ExFat => "exfat",
            FilesystemType::Ntfs => "ntfs",
            FilesystemType::Fat32 => "fat32",
        }
    }
}

/// A filesystem is found by its name.
pub proof fn fs_name_round_trip(t: FilesystemType)
    ensures
        fs_named(fs_name(t)@) == Ok::<FilesystemType, ErrorView>(t),
{
    reveal_strlit("exfat");
    reveal_strlit("ntfs");
    reveal_strlit("fat32");
    let s = fs_name(t)@;
    assert(text::ascii_only(s));
    assert(text::lower(s) =~= s);
    assert("ntfs"@.len() != "exfat"@.len());
    assert("fat32"@[0] != "exfat"@[0]);
}

// ---------------------------------------------------------------------------
// Checksums
// ---------------------------------------------------------------------------

/// A remainder `c` with `n` more bits shifted in, by the reflected polynomial
/// of CRC-32.
pub open spec fn crc_bits(c: u32, n: nat) -> u32
    decreases n,
{
    if n == 0 {
        c
    } else if c % 2 == 1 {
        crc_bits((c / 2) ^ 0xEDB8_8320, (n - 1) as nat)
    } else {
        crc_bits(c / 2, (n - 1) as nat)
    }
}

/// The remainder after some bytes; it starts as all ones.
pub open spec fn crc_remainder(data: Seq<u8>) -> u32
    decreases data.len(),
{
    if data.len() == 0 {
        0xFFFF_FFFF
    } else {
        crc_bits(crc_remainder(data.drop_last()) ^ (data.last() as u32), 8)
    }
}

/// The CRC-32 of bytes, as IEEE 802.3 has it.
#[verifier::opaque]
pub open spec fn crc32(data: Seq<u8>) -> u32 {
    !crc_remainder(data)
}

/// `crc32fast::hash`: the CRC-32 of the bytes.
#[verifier::external_body]
pub fn crc32_checksum(data: &[u8]) -> (r: u32)
    ensures
        r == crc32(data@),
{
    crc32fast::hash(data)
}

/// The checksum of a header: over as many bytes as it says it has, with the
/// place of the checksum itself blank.
pub open spec fn header_crc(h: HeaderView, n: int) -> u32 {
    crc32(disk_layout::header_bytes(HeaderView { header_crc32: 0, ..h }).take(n))
}

/// Whether the checksums of a header and its table are right.
pub open spec fn checksums_right(h: HeaderView, partitions: Seq<GptEntryView>) -> bool {
    &&& h.header_crc32 == header_crc(h, h.header_size as int)
    &&& h.part_table_crc32 == crc32(disk_layout::table_bytes(partitions))
}

/// A GPT with its checksums.
pub open spec fn finalized(g: GptView) -> GptView {
    let h = HeaderView {
        part_table_crc32: crc32(disk_layout::table_bytes(g.partitions)),
        ..g.header
    };
    GptView {
        header: HeaderView { header_crc32: header_crc(h, h.header_size as int), ..h },
        ..g
    }
}

/// The header for the end of the disk: it and the first header have changed
/// places, and its table lies before it.
pub open spec fn backup_header(h: HeaderView) -> HeaderView {
    let b = HeaderView {
        efi_start_lba: h.efi_backup_lba,
        efi_backup_lba: h.efi_start_lba,
        part_table_start_lba: (h.efi_backup_lba - 32) as u64,
        ..h
    };
    HeaderView { header_crc32: header_crc(b, 92), ..b }
}

proof fn header_bytes_len(h: HeaderView)
    requires
        disk_layout::header_wf(h),
    ensures
        disk_layout::header_bytes(h).len() == 512,
{
    disk_layout::header_round_trip(h);
}

/// Computes the checksums of a GPT's table and header.
pub fn finalize_gpt_crcs(gpt: &mut GptInfo)
    requires
        old(gpt)@.header.header_size <= 512,
    ensures
        final(gpt)@ == finalized(old(gpt)@),
        final(gpt).protective_mbr == old(gpt).protective_mbr,
        final(gpt).partitions == old(gpt).partitions,
{
    let ghost before = gpt@;
    let table: Vec<u8> = write_table(&gpt.partitions);
    gpt.header.part_table_crc32 = crc32_checksum(&table);
    let ghost h = gpt.header@;
    gpt.header.header_crc32 = 0;
    let whole: Vec<u8> = gpt.header.padded();
    proof {
        header_bytes_len(gpt.header@);
    }
    let counted: Vec<u8> = slice_vec(&whole, 0, gpt.header.header_size as usize);
    assert(counted@ =~= whole@.take(h.header_size as int));
    gpt.header.header_crc32 = crc32_checksum(&counted);
    assert(gpt@ =~= finalized(before));
}

/// The header for the end of the disk.
pub fn make_backup_gpt_header(primary: &GptInfo) -> (r: GptHeader)
    requires
        primary@.header.efi_backup_lba >= 32,
    ensures
        r@ == backup_header(primary@.header),
{
    let mut backup: GptHeader = primary.header;
    let efi_start: u64 = backup.efi_start_lba;
    let efi_backup: u64 = backup.efi_backup_lba;
    backup.efi_start_lba = efi_backup;
    backup.efi_backup_lba = efi_start;
    backup.part_table_start_lba = efi_backup - 32;
    let ghost b = backup@;
    backup.header_crc32 = 0;
    let front: Vec<u8> = backup.write();
    assert(front@ =~= disk_layout::header_bytes(HeaderView { header_crc32: 0, ..b }).take(92)) by {
        disk_layout::header_round_trip(backup@);
    }
    backup.header_crc32 = crc32_checksum(&front);
    backup
}

/// Every header that is made for a GPT has the right checksums: the first one,
/// and where headers are of the usual size, the one for the end of the disk.
pub proof fn headers_have_right_checksums(g: GptView)
    ensures
        checksums_right(finalized(g).header, g.partitions),
        g.header.header_size == 92 ==> checksums_right(
            backup_header(finalized(g).header),
            g.partitions,
        ),
{
    let f = finalized(g).header;
    let h = HeaderView {
        part_table_crc32: crc32(disk_layout::table_bytes(g.partitions)),
        ..g.header
    };
    assert(HeaderView { header_crc32: 0, ..f } =~= HeaderView { header_crc32: 0, ..h });
    let b = HeaderView {
        efi_start_lba: f.efi_backup_lba,
        efi_backup_lba: f.efi_start_lba,
        part_table_start_lba: (f.efi_backup_lba - 32) as u64,
        ..f
    };
    assert(HeaderView { header_crc32: 0, ..backup_header(f) } =~= HeaderView {
        header_crc32: 0,
        ..b
    });
}

// ---------------------------------------------------------------------------
// Alignment and addresses
// ---------------------------------------------------------------------------

/// The next sector at a multiple of 4 KiB.
pub open spec fn aligned_up(sector: int) -> int {
    (sector + 7) / 8 * 8
}

/// The last sector before at a multiple of 4 KiB.
pub open spec fn aligned_down(sector: int) -> int {
    sector / 8 * 8
}

/// Aligns a sector to 4 KiB, upwards.
pub fn align_to_4k(sector: u64) -> (r: u64)
    requires
        sector <= u64::MAX - 7,
    ensures
        r == aligned_up(sector as int),
        r % 8 == 0,
        sector <= r < sector + 8,
{
    let m: u64 = sector % 8;
    if m > 0 {
        sector + (8 - m)
    } else {
        sector
    }
}

/// Cylinder, head and sector of an address.
pub struct Chs {
    pub cylinder: u32,
    pub head: u32,
    pub sector: u32,
}

/// The first address beyond 1024 cylinders of 255 heads and 63 sectors.
pub const CHS_LIMIT: u32 = 16450560;

/// Cylinder, head and sector of an address; beyond what they can tell, the
/// last.
pub open spec fn chs_of(lba: int) -> (int, int, int) {
    if lba >= CHS_LIMIT {
        (1023, 254, 63)
    } else {
        (lba / 255 / 63, lba / 63 % 255, lba % 63 + 1)
    }
}

/// Sector and cylinder as an entry stores them.
pub open spec fn packed_chs(c: (int, int, int)) -> u16 {
    (c.0 % 256 * 256 + c.0 / 256 % 4 * 64 + c.2 % 64) as u16
}

fn chs(lba: u32) -> (r: Chs)
    ensures
        (r.cylinder as int, r.head as int, r.sector as int) == chs_of(lba as int),
        r.head < 255,
        r.sector <= 63,
{
    if lba >= CHS_LIMIT {
        Chs { cylinder: 1023, head: 254, sector: 63 }
    } else {
        Chs { cylinder: lba / 255 / 63, head: lba / 63 % 255, sector: lba % 63 + 1 }
    }
}

fn pack(c: &Chs) -> (r: u16)
    ensures
        r == packed_chs((c.cylinder as int, c.head as int, c.sector as int)),
{
    (c.cylinder % 256 * 256 + c.cylinder / 256 % 4 * 64 + c.sector % 64) as u16
}

/// An entry with the place of a partition.
pub open spec fn entry_placed(e: PartitionTableEntry, start: u32, count: u32) -> PartitionTableEntry {
    let first = chs_of(start as int);
    let last = chs_of(
        if count > 0 {
            start + count - 1
        } else {
            start as int
        },
    );
    PartitionTableEntry {
        start_lba: start,
        sector_count: count,
        start_head: first.1 as u8,
        start_sector_cylinder: packed_chs(first),
        end_head: last.1 as u8,
        end_sector_cylinder: packed_chs(last),
        ..e
    }
}

/// Fills in the place of a partition.
pub fn fill_mbr_chs_entry(entry: &mut PartitionTableEntry, start_sector: u32, sector_count: u32)
    requires
        start_sector + sector_count <= 0x1_0000_0000,
    ensures
        *final(entry) == entry_placed(*old(entry), start_sector, sector_count),
{
    entry.start_lba = start_sector;
    entry.sector_count = sector_count;
    let first: Chs = chs(start_sector);
    entry.start_head = first.head as u8;
    entry.start_sector_cylinder = pack(&first);
    let end_lba: u32 = if sector_count > 0 {
        start_sector + (sector_count - 1)
    } else {
        start_sector
    };
    let last: Chs = chs(end_lba);
    entry.end_head = last.head as u8;
    entry.end_sector_cylinder = pack(&last);
}

// ---------------------------------------------------------------------------
// Whether a disk will do
// ---------------------------------------------------------------------------

/// The least size of a disk, in sectors.
pub const REQUIRED_SECTORS: u64 = 69632;

/// What is to be installed, and how.
#[derive(Clone, Copy, PartialEq, Eq, Structural, Debug)]
pub struct InstallOptions {
    pub use_gpt: bool,
    pub secure_boot: bool,
    pub reserve_space_mb: u64,
    pub force: bool,
    pub yes: bool,
}

/// Whether a disk has the sectors for an installation with the space that is
/// to stay free.
pub open spec fn has_room(total: int, reserve_mb: int) -> bool {
    &&& total >= REQUIRED_SECTORS
    &&& reserve_mb > 0 ==> total > (reserve_mb + CHOOSABLE_PART_SIZE_MB) * 2048
}

/// What speaks against a disk, apart from what is on it.
pub open spec fn preflight(
    path: Seq<char>,
    whole: bool,
    size: std::result::Result<u64, ErrorView>,
    four_k: bool,
    o: InstallOptions,
) -> std::result::Result<u64, ErrorView> {
    if !whole {
        Err(ErrorView::IsPartition(path))
    } else {
        match size {
            Err(e) => Err(e),
            Ok(n) => if four_k {
                Err(ErrorView::FourKNativeSector)
            } else if !o.use_gpt && n > 2 * SIZE_1TB {
                Err(ErrorView::MbrOverflow)
            } else if n < REQUIRED_SECTORS * SECTOR_SIZE {
                Err(
                    ErrorView::DiskTooSmall {
                        required: (REQUIRED_SECTORS * SECTOR_SIZE) as u64,
                        available: n,
                    },
                )
            } else if !has_room((n / SECTOR_SIZE) as int, o.reserve_space_mb as int) {
                Err(
                    ErrorView::Generic(
                        "Cannot reserve "@ + text::numeral(o.reserve_space_mb as nat)
                            + " MiB on disk"@,
                    ),
                )
            } else {
                Ok(n)
            },
        }
    }
}

/// Whether a disk will do, apart from what is on it: its size if so.
pub fn install_preflight(
    disk_path: &str,
    whole: bool,
    size: Result<u64>,
    four_k: bool,
    o: &InstallOptions,
) -> (r: Result<u64>)
    ensures
        error::outcome(r) == preflight(disk_path@, whole, error::outcome(size), four_k, *o),
{
    if !whole {
        return Err(ChoosableError::IsPartition(disk_path.to_owned()));
    }
    let size_bytes: u64 = match size {
        Err(e) => {
            return Err(e);
        },
        Ok(n) => n,
    };
    if four_k {
        return Err(ChoosableError::FourKNativeSector);
    }
    if !o.use_gpt && size_bytes > 2 * SIZE_1TB {
        return Err(ChoosableError::MbrOverflow);
    }
    if size_bytes < REQUIRED_SECTORS * SECTOR_SIZE {
        return Err(
            ChoosableError::DiskTooSmall {
                required: REQUIRED_SECTORS * SECTOR_SIZE,
                available: size_bytes,
            },
        );
    }
    if o.reserve_space_mb > 0 {
        let reserve_sectors: u128 = (o.reserve_space_mb as u128 + CHOOSABLE_PART_SIZE_MB as u128)
            * 2048;
        if (size_bytes / SECTOR_SIZE) as u128 <= reserve_sectors {
            let num: String = text::number_text(o.reserve_space_mb);
            return Err(
                ChoosableError::Generic(join3("Cannot reserve ", &num, " MiB on disk")),
            );
        }
    }
    Ok(size_bytes)
}

/// What is said of a disk that Choosable is on already: its version, where it
/// tells one.
pub open spec fn already_installed(
    found: bool,
    version: Option<Seq<char>>,
    force: bool,
) -> std::result::Result<(), ErrorView> {
    if found && !force {
        Err(
            ErrorView::AlreadyInstalled(
                match version {
                    Some(v) => v,
                    None => "?"@,
                },
            ),
        )
    } else {
        Ok(())
    }
}

pub open spec fn opt_text(s: Option<String>) -> Option<Seq<char>> {
    match s {
        Some(s) => Some(s@),
        None => None,
    }
}

/// Whether an installation may go on on a disk that Choosable may be on
/// already.
pub fn check_not_installed(found: bool, version: Option<String>, force: bool) -> (r: Result<()>)
    ensures
        error::outcome(r) == already_installed(found, opt_text(version), force),
{
    if found && !force {
        let v: String = match version {
            Some(v) => v,
            None => "?".to_owned(),
        };
        return Err(ChoosableError::AlreadyInstalled(v));
    }
    Ok(())
}

/// Refuses a partition where a whole disk is wanted.
pub fn check_whole_disk(disk_path: &str, whole: bool) -> (r: Result<()>)
    ensures
        error::outcome(r) == (if whole {
            Ok(())
        } else {
            Err(ErrorView::IsPartition(disk_path@))
        }),
{
    if whole {
        Ok(())
    } else {
        Err(ChoosableError::IsPartition(disk_path.to_owned()))
    }
}

/// Refuses a disk that Choosable is not on.
pub fn check_installed(found: Option<Detected>) -> (r: Result<Detected>)
    ensures
        match found {
            Some(d) => r == Ok::<Detected, ChoosableError>(d),
            None => r matches Err(e) && e@ is NotChoosableDisk,
        },
{
    match found {
        Some(d) => Ok(d),
        None => Err(ChoosableError::NotChoosableDisk),
    }
}

/// Refuses a disk without a first partition.
pub fn check_partition1(present: bool) -> (r: Result<()>)
    ensures
        error::outcome(r) == (if present {
            Ok(())
        } else {
            Err(ErrorView::Generic("Partition 1 not found on disk"@))
        }),
{
    if present {
        Ok(())
    } else {
        Err(ChoosableError::Generic("Partition 1 not found on disk".to_owned()))
    }
}

/// What comes of looking for Choosable on a disk: an installation may find it
/// only where it is forced, one that keeps the data has nothing to do where it
/// finds it, and an update has to find it.
pub open spec fn detection_outcome(
    op: Operation,
    found: Option<Detected>,
    version: Option<Seq<char>>,
    force: bool,
) -> std::result::Result<Outcome, ErrorView> {
    match op {
        Operation::Install => match already_installed(found is Some, version, force) {
            Ok(()) => Ok(Outcome::Worked),
            Err(e) => Err(e),
        },
        Operation::NonDestructive => Ok(
            if found is Some {
                Outcome::AlreadyThere
            } else {
                Outcome::Worked
            },
        ),
        Operation::Update => if found is Some {
            Ok(Outcome::Worked)
        } else {
            Err(ErrorView::NotChoosableDisk)
        },
    }
}

pub fn judge_detection(
    op: Operation,
    found: Option<Detected>,
    version: Option<String>,
    force: bool,
) -> (r: Result<Outcome>)
    ensures
        error::outcome(r) == detection_outcome(op, found, opt_text(version), force),
{
    match op {
        Operation::Install => match check_not_installed(found.is_some(), version, force) {
            Ok(()) => Ok(Outcome::Worked),
            Err(e) => Err(e),
        },
        Operation::NonDestructive => Ok(
            if found.is_some() {
                Outcome::AlreadyThere
            } else {
                Outcome::Worked
            },
        ),
        Operation::Update => match check_installed(found) {
            Ok(_) => Ok(Outcome::Worked),
            Err(e) => Err(e),
        },
    }
}

/// An update of a disk without Choosable is refused as such, and comes to an
/// end there: before anything is written, whatever else happens.
pub proof fn update_of_other_disk_is_refused(
    job: Job,
    version: Option<Seq<char>>,
    force: bool,
    o: Outcome,
)
    requires
        job.op == Operation::Update,
    ensures
        detection_outcome(job.op, None, version, force) == Err::<Outcome, ErrorView>(
            ErrorView::NotChoosableDisk,
        ),
        install_flow::phase_after(job, Phase::Survey) == Phase::Detect,
        install_flow::next_phase(job, Phase::Detect, Outcome::Failed) == Phase::Failed,
        install_flow::next_phase(job, Phase::Failed, o) == Phase::Failed,
{
}

/// Whether an answer is a yes.
pub open spec fn is_yes(answer: Seq<char>) -> bool {
    text::lower(text::trimmed(answer)) == "y"@
}

pub fn confirmed(answer: &str) -> (r: bool)
    ensures
        r == is_yes(answer@),
{
    let a: String = text::trim(answer).to_lowercase();
    str_eq(&a, "y")
}

// ---------------------------------------------------------------------------
// Boot images
// ---------------------------------------------------------------------------

/// The boot images.
pub struct BootImages<'a> {
    /// The code of the boot sector.
    pub boot: &'a [u8],
    /// What it loads.
    pub core: &'a [u8],
}

/// As much of some bytes as `max` allows.
pub open spec fn capped(s: Seq<u8>, max: int) -> Seq<u8> {
    s.take(bytes::min_int(s.len() as int, max))
}

pub fn cap(s: &[u8], max: usize) -> (r: Vec<u8>)
    ensures
        r@ == capped(s@, max as int),
{
    let n: usize = if s.len() < max {
        s.len()
    } else {
        max
    };
    let v: Vec<u8> = slice_vec(s, 0, n);
    assert(v@ =~= capped(s@, max as int));
    v
}

/// The sectors behind the MBR that belong to the core image, with an MBR.
pub const MBR_CORE_BYTES: usize = 1048064;

/// The sectors behind the GPT that belong to the core image, with a GPT.
pub const GPT_CORE_BYTES: usize = 1031168;

/// Where the core image starts with a GPT.
pub const GPT_CORE_OFFSET: u64 = 17408;

/// The writes of the boot code and the core image, apart from the partition
/// table.
pub open spec fn boot_image_writes(is_gpt: bool, boot: Seq<u8>, core: Seq<u8>) -> Seq<WriteView> {
    seq![disk_io::write_at(0, capped(boot, BOOT_CODE_SIZE as int))] + core_writes(is_gpt, core)
}

/// The writes of the core image. With a GPT, the boot code and the image are
/// told where it starts.
pub open spec fn core_writes(is_gpt: bool, core: Seq<u8>) -> Seq<WriteView> {
    if is_gpt {
        seq![
            disk_io::write_at(92, seq![0x22u8]),
            disk_io::write_at(GPT_CORE_OFFSET as int, capped(core, GPT_CORE_BYTES as int)),
            disk_io::write_at(17908, seq![0x23u8]),
        ]
    } else {
        seq![disk_io::write_at(512, capped(core, MBR_CORE_BYTES as int))]
    }
}

fn one_byte(b: u8) -> (r: Vec<u8>)
    ensures
        r@ == seq![b],
{
    let mut v: Vec<u8> = Vec::new();
    v.push(b);
    v
}

pub fn push_core(out: &mut Vec<DiskWrite>, is_gpt: bool, images: &BootImages)
    ensures
        disk_io::views(final(out)@) == disk_io::views(old(out)@) + core_writes(is_gpt, images.core@),
{
    let ghost before = disk_io::views(out@);
    if is_gpt {
        push_write(out, 92, one_byte(0x22));
        push_write(out, GPT_CORE_OFFSET, cap(images.core, GPT_CORE_BYTES));
        push_write(out, 17908, one_byte(0x23));
    } else {
        push_write(out, 512, cap(images.core, MBR_CORE_BYTES));
    }
    assert(disk_io::views(out@) =~= before + core_writes(is_gpt, images.core@));
}

/// The writes of the boot code and the core image.
pub fn write_boot_images(is_gpt: bool, images: &BootImages) -> (r: Vec<DiskWrite>)
    ensures
        disk_io::views(r@) == boot_image_writes(is_gpt, images.boot@, images.core@),
{
    let mut out: Vec<DiskWrite> = Vec::new();
    push_write(&mut out, 0, cap(images.boot, BOOT_CODE_SIZE));
    assert(disk_io::views(out@) =~= seq![
        disk_io::write_at(0, capped(images.boot@, BOOT_CODE_SIZE as int)),
    ]);
    push_core(&mut out, is_gpt, images);
    out
}

/// The writes of a new GUID for the disk.
pub open spec fn guid_writes(guid: Seq<u8>) -> Seq<WriteView> {
    seq![disk_io::write_at(384, guid), disk_io::write_at(440, guid.subrange(12, 16))]
}

pub fn push_guid(out: &mut Vec<DiskWrite>, guid: &Guid)
    ensures
        disk_io::views(final(out)@) == disk_io::views(old(out)@) + guid_writes(guid@),
{
    let ghost before = disk_io::views(out@);
    push_write(out, 384, slice_vec(guid, 0, 16));
    push_write(out, 440, slice_vec(guid, 12, 16));
    assert(guid@.subrange(0, 16) =~= guid@);
    assert(disk_io::views(out@) =~= before + guid_writes(guid@));
}

// ---------------------------------------------------------------------------
// A new MBR
// ---------------------------------------------------------------------------

/// Where partition 2 starts on a disk with a new MBR.
pub open spec fn mbr_part2_start(total: int, reserve_mb: int) -> int {
    aligned_down(total - 65536 - reserve_mb * 2048)
}

/// The data partition of a new MBR.
pub open spec fn mbr_data_entry(part2_start: int) -> PartitionTableEntry {
    PartitionTableEntry {
        active: PART_ACTIVE,
        fs_flag: PART_TYPE_DATA,
        ..entry_placed(
            disk_layout::empty_entry(),
            CHOOSABLE_PART1_START_SECTOR as u32,
            (part2_start - 2048) as u32,
        )
    }
}

/// The EFI partition of a new MBR.
pub open spec fn mbr_efi_entry(part2_start: int) -> PartitionTableEntry {
    PartitionTableEntry {
        fs_flag: PART_TYPE_EFI_SYSTEM,
        ..entry_placed(disk_layout::empty_entry(), part2_start as u32, 65536)
    }
}

/// The boot code with the disk's GUID in it.
pub open spec fn marked_code(boot: Seq<u8>, guid: Seq<u8>) -> Seq<u8> {
    let code = bytes::overlay(bytes::zeros(446), 0, capped(boot, BOOT_CODE_SIZE as int));
    bytes::overlay(bytes::overlay(code, 384, guid), 440, guid.subrange(12, 16))
}

/// The first sector of a disk with a new MBR: the boot code with the disk's
/// GUID in it, and two partitions.
pub open spec fn new_mbr_sector(boot: Seq<u8>, guid: Seq<u8>, part2_start: int) -> Seq<u8> {
    disk_layout::mbr_bytes(
        MbrView {
            boot_code: marked_code(boot, guid),
            partitions: seq![
                mbr_data_entry(part2_start),
                mbr_efi_entry(part2_start),
                disk_layout::empty_entry(),
                disk_layout::empty_entry(),
            ],
            signature_55: MBR_SIGNATURE_55,
            signature_aa: MBR_SIGNATURE_AA,
        },
    )
}

/// The writes of a new MBR with its boot images.
pub open spec fn new_mbr_writes(
    total: int,
    reserve_mb: int,
    guid: Seq<u8>,
    boot: Seq<u8>,
    core: Seq<u8>,
) -> Seq<WriteView> {
    seq![
        disk_io::write_at(0, new_mbr_sector(boot, guid, mbr_part2_start(total, reserve_mb))),
        disk_io::write_at(512, capped(core, MBR_CORE_BYTES as int)),
    ]
}

/// Writes, and where partition 2 starts, in bytes.
pub struct LayoutPlan {
    pub writes: Vec<DiskWrite>,
    pub part2_start: u64,
}

/// Partition 2 of a disk with room lies behind the start of partition 1, and
/// on the disk.
pub proof fn mbr_part2_bounds(total: int, reserve_mb: int)
    requires
        has_room(total, reserve_mb),
        reserve_mb >= 0,
    ensures
        2048 <= mbr_part2_start(total, reserve_mb),
        mbr_part2_start(total, reserve_mb) + 65536 + reserve_mb * 2048 <= total,
        mbr_part2_start(total, reserve_mb) % 8 == 0,
{
    let x = total - 65536 - reserve_mb * 2048;
    assert(x / 8 * 8 <= x < x / 8 * 8 + 8);
}

/// The writes of a new MBR with its boot images, and where partition 2 starts.
pub fn write_mbr_f(
    disk_size_bytes: u64,
    reserve_space_mb: u64,
    guid: &Guid,
    images: &BootImages,
) -> (r: LayoutPlan)
    requires
        has_room((disk_size_bytes / SECTOR_SIZE) as int, reserve_space_mb as int),
        disk_size_bytes <= 2 * SIZE_1TB,
    ensures
        disk_io::views(r.writes@) == new_mbr_writes(
            (disk_size_bytes / SECTOR_SIZE) as int,
            reserve_space_mb as int,
            guid@,
            images.boot@,
            images.core@,
        ),
        r.part2_start == mbr_part2_start(
            (disk_size_bytes / SECTOR_SIZE) as int,
            reserve_space_mb as int,
        ) * SECTOR_SIZE,
{
    let total_sectors: u64 = disk_size_bytes / SECTOR_SIZE;
    proof {
        mbr_part2_bounds(total_sectors as int, reserve_space_mb as int);
    }
    let free: u64 = total_sectors - CHOOSABLE_SECTOR_NUM - reserve_space_mb * 2048;
    let part2_start: u64 = free - free % 8;
    let part1_sectors: u64 = part2_start - CHOOSABLE_PART1_START_SECTOR;
    let ghost p2 = part2_start as int;
    assert(p2 == mbr_part2_start(total_sectors as int, reserve_space_mb as int));
    let mut mbr: Mbr = Mbr::new_empty();
    let boot: Vec<u8> = cap(images.boot, BOOT_CODE_SIZE);
    put(&mut mbr.boot_code, 0, &boot);
    put(&mut mbr.boot_code, 384, guid);
    let tail: Vec<u8> = slice_vec(guid, 12, 16);
    put(&mut mbr.boot_code, 440, &tail);
    let mut part0: PartitionTableEntry = PartitionTableEntry::empty();
    fill_mbr_chs_entry(
        &mut part0,
        CHOOSABLE_PART1_START_SECTOR as u32,
        part1_sectors as u32,
    );
    part0.active = PART_ACTIVE;
    part0.fs_flag = PART_TYPE_DATA;
    let mut part1: PartitionTableEntry = PartitionTableEntry::empty();
    fill_mbr_chs_entry(&mut part1, part2_start as u32, 65536);
    part1.fs_flag = PART_TYPE_EFI_SYSTEM;
    mbr.partitions[0] = part0;
    mbr.partitions[1] = part1;
    assert(mbr@.partitions =~= seq![
        mbr_data_entry(p2),
        mbr_efi_entry(p2),
        disk_layout::empty_entry(),
        disk_layout::empty_entry(),
    ]);
    let mut writes: Vec<DiskWrite> = Vec::new();
    push_write(&mut writes, 0, mbr.write());
    push_write(&mut writes, 512, cap(images.core, MBR_CORE_BYTES));
    assert(disk_io::views(writes@) =~= new_mbr_writes(
        total_sectors as int,
        reserve_space_mb as int,
        guid@,
        images.boot@,
        images.core@,
    ));
    LayoutPlan { writes, part2_start: part2_start * SECTOR_SIZE }
}

// ---------------------------------------------------------------------------
// A new GPT
// ---------------------------------------------------------------------------

/// Where partition 2 starts on a disk with a new GPT.
pub open spec fn gpt_part2_start(total: int, reserve_mb: int) -> int {
    aligned_down(total - 34 - 65536 - reserve_mb * 2048)
}

/// The GPT of a new installation, with its checksums.
pub open spec fn installed_gpt(
    total: int,
    reserve_mb: int,
    disk_guid: Seq<u8>,
    guid1: Seq<u8>,
    guid2: Seq<u8>,
) -> GptView {
    let p2 = gpt_part2_start(total, reserve_mb);
    finalized(
        GptView {
            partitions: disk_layout::two_entries(
                disk_layout::data_entry(guid1, p2 - 1),
                disk_layout::efi_entry(guid2, p2, GPT_PART1_NAME@),
            ),
            ..disk_layout::new_gpt(total, disk_guid, guid1, guid2, GPT_PART1_NAME@)
        },
    )
}

/// The writes of a new GPT with its boot images. The boot code goes in twice,
/// since the protective MBR goes over it. The GUID goes in last, since the boot
/// code goes over it.
pub open spec fn new_gpt_writes(g: GptView, disk_guid: Seq<u8>, boot: Seq<u8>, core: Seq<u8>) -> Seq<
    WriteView,
> {
    boot_image_writes(true, boot, core) + disk_layout::gpt_writes(g) + seq![
        disk_io::write_at(0, capped(boot, BOOT_CODE_SIZE as int)),
    ] + guid_writes(disk_guid)
}

pub proof fn gpt_part2_bounds(total: int, reserve_mb: int)
    requires
        has_room(total, reserve_mb),
        reserve_mb >= 0,
    ensures
        2008 <= gpt_part2_start(total, reserve_mb),
        gpt_part2_start(total, reserve_mb) + 65536 + 34 + reserve_mb * 2048 <= total,
        gpt_part2_start(total, reserve_mb) % 8 == 0,
{
    let x = total - 34 - 65536 - reserve_mb * 2048;
    assert(x / 8 * 8 <= x < x / 8 * 8 + 8);
}

/// The GUIDs of a new GPT: of the disk and of both partitions.
#[derive(Clone, Copy)]
pub struct GptGuids {
    pub disk: Guid,
    pub part1: Guid,
    pub part2: Guid,
}

pub fn append_writes(out: &mut Vec<DiskWrite>, more: Vec<DiskWrite>)
    ensures
        disk_io::views(final(out)@) == disk_io::views(old(out)@) + disk_io::views(more@),
{
    let ghost before = out@;
    let ghost added = more@;
    let mut rest: Vec<DiskWrite> = more;
    out.append(&mut rest);
    assert(disk_io::views(out@) =~= disk_io::views(before) + disk_io::views(added));
}

/// The writes of a new GPT with its boot images, and where partition 2 starts.
pub fn write_gpt_f(
    disk_size_bytes: u64,
    reserve_space_mb: u64,
    guids: &GptGuids,
    images: &BootImages,
) -> (r: LayoutPlan)
    requires
        has_room((disk_size_bytes / SECTOR_SIZE) as int, reserve_space_mb as int),
    ensures
        disk_io::views(r.writes@) == new_gpt_writes(
            installed_gpt(
                (disk_size_bytes / SECTOR_SIZE) as int,
                reserve_space_mb as int,
                guids.disk@,
                guids.part1@,
                guids.part2@,
            ),
            guids.disk@,
            images.boot@,
            images.core@,
        ),
        r.part2_start == gpt_part2_start(
            (disk_size_bytes / SECTOR_SIZE) as int,
            reserve_space_mb as int,
        ) * SECTOR_SIZE,
{
    let total_sectors: u64 = disk_size_bytes / SECTOR_SIZE;
    let ghost total = total_sectors as int;
    proof {
        gpt_part2_bounds(total, reserve_space_mb as int);
    }
    let part2_end: u64 = total_sectors - 34;
    let free: u64 = part2_end - CHOOSABLE_SECTOR_NUM - reserve_space_mb * 2048;
    let part2_start: u64 = free - free % 8;
    let mut gpt: GptInfo = GptInfo::new_choosable(
        disk_size_bytes,
        guids.disk,
        guids.part1,
        guids.part2,
    );
    let ghost fresh = gpt@;
    let mut first: GptPartitionEntry = gpt.partitions[0];
    assert(fresh.partitions[0] == first@);
    first.start_lba = CHOOSABLE_PART1_START_SECTOR;
    first.end_lba = part2_start - 1;
    first.attributes = 0;
    let mut second: GptPartitionEntry = gpt.partitions[1];
    assert(fresh.partitions[1] == second@);
    second.start_lba = part2_start;
    second.end_lba = part2_start + (CHOOSABLE_SECTOR_NUM - 1);
    second.attributes = GPT_ATTR_VTOYEFI;
    assert(first@ =~= disk_layout::data_entry(guids.part1@, part2_start - 1));
    assert(second@ =~= disk_layout::efi_entry(
        guids.part2@,
        part2_start as int,
        GPT_PART1_NAME@,
    ));
    let ghost old_entries = gpt.partitions@;
    gpt.partitions[0] = first;
    gpt.partitions[1] = second;
    assert forall|i: int| 2 <= i < 128 implies #[trigger] gpt.partitions@[i]@
        == disk_layout::empty_gpt_entry() by {
        assert(gpt.partitions@[i] == old_entries[i]);
        assert(fresh.partitions[i] == old_entries[i]@);
    }
    assert(gpt@.partitions =~= disk_layout::two_entries(first@, second@));
    finalize_gpt_crcs(&mut gpt);
    let ghost g = gpt@;
    let mut writes: Vec<DiskWrite> = write_boot_images(true, images);
    append_writes(&mut writes, gpt.write_to_disk());
    push_write(&mut writes, 0, cap(images.boot, BOOT_CODE_SIZE));
    push_guid(&mut writes, &guids.disk);
    assert(disk_io::views(writes@) =~= new_gpt_writes(g, guids.disk@, images.boot@, images.core@));
    LayoutPlan { writes, part2_start: part2_start * SECTOR_SIZE }
}

// ---------------------------------------------------------------------------
// The whole installation
// ---------------------------------------------------------------------------

/// The front of a disk that is blanked before anything is put on it.
pub const CLEAN_BYTES: usize = 32768;

/// The writes of an installation, before its partitions are formatted.
pub open spec fn install_writes(
    total: int,
    o: InstallOptions,
    disk_guid: Seq<u8>,
    guid1: Seq<u8>,
    guid2: Seq<u8>,
    boot: Seq<u8>,
    core: Seq<u8>,
) -> Seq<WriteView> {
    let clean = seq![disk_io::write_at(0, bytes::zeros(CLEAN_BYTES as nat))];
    if o.use_gpt {
        clean + new_gpt_writes(
            installed_gpt(total, o.reserve_space_mb as int, disk_guid, guid1, guid2),
            disk_guid,
            boot,
            core,
        )
    } else {
        clean + new_mbr_writes(total, o.reserve_space_mb as int, disk_guid, boot, core)
    }
}

/// Where partition 2 of an installation starts, in sectors.
pub open spec fn part2_start(total: int, o: InstallOptions) -> int {
    if o.use_gpt {
        gpt_part2_start(total, o.reserve_space_mb as int)
    } else {
        mbr_part2_start(total, o.reserve_space_mb as int)
    }
}

/// The writes of an installation, and where partition 2 starts.
pub fn write_install(disk_size_bytes: u64, o: &InstallOptions, guids: &GptGuids, images: &BootImages) -> (r:
    LayoutPlan)
    requires
        has_room((disk_size_bytes / SECTOR_SIZE) as int, o.reserve_space_mb as int),
        !o.use_gpt ==> disk_size_bytes <= 2 * SIZE_1TB,
    ensures
        disk_io::views(r.writes@) == install_writes(
            (disk_size_bytes / SECTOR_SIZE) as int,
            *o,
            guids.disk@,
            guids.part1@,
            guids.part2@,
            images.boot@,
            images.core@,
        ),
        r.part2_start == part2_start((disk_size_bytes / SECTOR_SIZE) as int, *o) * SECTOR_SIZE,
{
    let mut zero: Vec<u8> = Vec::new();
    bytes::push_repeat(&mut zero, 0, CLEAN_BYTES);
    assert(zero@ =~= bytes::zeros(CLEAN_BYTES as nat));
    let mut writes: Vec<DiskWrite> = Vec::new();
    push_write(&mut writes, 0, zero);
    assert(disk_io::views(writes@) =~= seq![
        disk_io::write_at(0, bytes::zeros(CLEAN_BYTES as nat)),
    ]);
    let plan: LayoutPlan = if o.use_gpt {
        write_gpt_f(disk_size_bytes, o.reserve_space_mb, guids, images)
    } else {
        write_mbr_f(disk_size_bytes, o.reserve_space_mb, &guids.disk, images)
    };
    let start: u64 = plan.part2_start;
    append_writes(&mut writes, plan.writes);
    LayoutPlan { writes, part2_start: start }
}

} // verus!
