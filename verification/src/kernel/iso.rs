//! Starting the boot image that a disk image's El Torito catalog names.

use vstd::prelude::*;
use crate::bytes;
use crate::bytes::{bytes_eq, le16, le32, WORD};
use crate::kernel::fs::DirEntry;
use crate::kernel::vga;
use crate::kernel::vga::{show, vga_clear, Notice};
use crate::scan::chain;

verus! {

/// The boot record is in the disk image's sector of this number.
pub const BOOT_RECORD_LBA_OFFSET: u64 = 17;

/// Where the cookie goes that tells of a started image, and what it is.
pub const BOOT_COOKIE_ADDR: u32 = 0x7B00;

pub const BOOT_COOKIE_MAGIC: u32 = 0x544F_4F42;

/// Where the boot image goes.
pub const BIOS_BOOT_ADDR: u32 = 0x7C00;

/// The types of a catalog entry that can be started.
pub const BIOS_ENTRY: u8 = 0x88;

pub const UEFI_ENTRY: u8 = 0x90;

/// Why a disk image cannot be started.
#[derive(Clone, Copy, PartialEq, Eq, Structural, Debug)]
pub enum ElToritoError {
    BootRecordRead,
    NoSignature,
    CatalogRead,
    NoBootableEntry,
}

/// The boot image: its sector within the disk image, and how many sectors of
/// the disk it takes.
#[derive(Clone, Copy, PartialEq, Eq, Structural, Debug)]
pub struct BootImage {
    pub image_lba: u32,
    pub sector_count: u16,
}

/// The disk sector at which sector `block` of the disk image at `iso_lba`
/// starts: four sectors of the disk make one of the disk image.
pub open spec fn block_lba(iso_lba: u64, block: int) -> u64 {
    chain::wrap64(iso_lba + block * 4)
}

/// The first catalog entry from `i` on that can be started; one without a
/// sector count takes four sectors.
pub open spec fn bootable(catalog: Seq<u8>, i: int) -> Option<BootImage>
    decreases 16 - i,
{
    if i >= 16 {
        None
    } else if catalog[i * 32] == BIOS_ENTRY || catalog[i * 32] == UEFI_ENTRY {
        let count = bytes::spec_le16(catalog, i * 32 + 6);
        Some(
            BootImage {
                image_lba: bytes::spec_le32(catalog, i * 32 + 8),
                sector_count: if count == 0 {
                    4
                } else {
                    count
                },
            },
        )
    } else {
        bootable(catalog, i + 1)
    }
}

/// How far the start of a disk image has got: the sector that is to be read,
/// the boot image that is to be read, the jump into it, or why there is none.
#[derive(Clone, Copy, PartialEq, Eq, Structural, Debug)]
pub enum IsoBoot {
    BootRecord { iso_lba: u64 },
    Catalog { iso_lba: u64, lba: u64 },
    Image { lba: u64, sector_count: u16 },
    Chainload,
    NotBootable(ElToritoError),
    ImageUnreadable,
}

pub open spec fn first_step(iso_lba: u64) -> IsoBoot {
    IsoBoot::BootRecord { iso_lba }
}

/// The sector that is wanted next.
pub open spec fn el_torito_wanted(state: IsoBoot) -> Option<u64> {
    match state {
        IsoBoot::BootRecord { iso_lba } => Some(
            block_lba(iso_lba, BOOT_RECORD_LBA_OFFSET as int),
        ),
        IsoBoot::Catalog { lba, .. } => Some(lba),
        _ => None,
    }
}

/// The state after the sector that was wanted is at hand, or `None` where it
/// cannot be read.
pub open spec fn el_torito_next(state: IsoBoot, sector: Option<Seq<u8>>) -> IsoBoot {
    match (state, sector) {
        (IsoBoot::BootRecord { .. }, None) => IsoBoot::NotBootable(ElToritoError::BootRecordRead),
        (IsoBoot::BootRecord { iso_lba }, Some(s)) => if s.subrange(1, 6) != bytes::text("CD001") {
            IsoBoot::NotBootable(ElToritoError::NoSignature)
        } else {
            IsoBoot::Catalog { iso_lba, lba: block_lba(iso_lba, bytes::spec_le32(s, 0x47) as int) }
        },
        (IsoBoot::Catalog { .. }, None) => IsoBoot::NotBootable(ElToritoError::CatalogRead),
        (IsoBoot::Catalog { iso_lba, .. }, Some(s)) => match bootable(s, 0) {
            None => IsoBoot::NotBootable(ElToritoError::NoBootableEntry),
            Some(b) => IsoBoot::Image {
                lba: block_lba(iso_lba, b.image_lba as int),
                sector_count: b.sector_count,
            },
        },
        _ => state,
    }
}

fn block_at(iso_lba: u64, block: u32) -> (r: u64)
    ensures
        r == block_lba(iso_lba, block as int),
{
    ((iso_lba as u128 + block as u128 * 4) % WORD) as u64
}

#[verifier::loop_isolation(false)]
fn find_bootable(catalog: &[u8]) -> (r: Option<BootImage>)
    requires
        catalog@.len() == 512,
    ensures
        r == bootable(catalog@, 0),
{
    let mut i: usize = 0;
    while i < 16
        invariant
            i <= 16,
            bootable(catalog@, 0) == bootable(catalog@, i as int),
        decreases 16 - i,
    {
        let off: usize = i * 32;
        if catalog[off] == BIOS_ENTRY || catalog[off] == UEFI_ENTRY {
            let count: u16 = le16(catalog, off + 6);
            return Some(
                BootImage {
                    image_lba: le32(catalog, off + 8),
                    sector_count: if count == 0 {
                        4
                    } else {
                        count
                    },
                },
            );
        }
        i += 1;
    }
    None
}

pub open spec fn error_text(e: ElToritoError) -> &'static str {
    match e {
        ElToritoError::BootRecordRead => "Failed to read Boot Record (sector 17).",
        ElToritoError::NoSignature => "Invalid Boot Record (no CD001 signature).",
        ElToritoError::CatalogRead => "Failed to read Boot Catalog.",
        ElToritoError::NoBootableEntry => "No bootable entry (type 0x88/0x90) in catalog.",
    }
}

/// The screen once a state was reached.
pub open spec fn reported(screen: Seq<u8>, state: IsoBoot) -> Seq<u8> {
    match state {
        IsoBoot::BootRecord { .. } => vga::shown(
            vga::blank(0x0E),
            Notice { row: 2, col: 5, text: "Loading ISO boot sector...", attr: 0x0F },
        ),
        IsoBoot::Catalog { .. } => screen,
        IsoBoot::Image { .. } => vga::shown(
            screen,
            Notice { row: 7, col: 5, text: "Loading boot image...", attr: 0x07 },
        ),
        IsoBoot::Chainload => vga::shown(
            screen,
            Notice { row: 10, col: 5, text: "Chainloading...", attr: 0x0F },
        ),
        IsoBoot::NotBootable(e) => vga::shown(
            vga::shown(screen, Notice { row: 4, col: 2, text: error_text(e), attr: 0x0C }),
            Notice {
                row: 7,
                col: 2,
                text: "ISO boot failed. Press any key to halt...",
                attr: 0x07,
            },
        ),
        IsoBoot::ImageUnreadable => vga::shown(
            vga::shown(
                screen,
                Notice { row: 10, col: 2, text: "Failed to read boot image sectors.", attr: 0x0C },
            ),
            Notice {
                row: 10,
                col: 2,
                text: "ISO boot failed. Press any key to halt...",
                attr: 0x07,
            },
        ),
    }
}

fn error_message(e: ElToritoError) -> (r: &'static str)
    ensures
        r == error_text(e),
{
    match e {
        ElToritoError::BootRecordRead => "Failed to read Boot Record (sector 17).",
        ElToritoError::NoSignature => "Invalid Boot Record (no CD001 signature).",
        ElToritoError::CatalogRead => "Failed to read Boot Catalog.",
        ElToritoError::NoBootableEntry => "No bootable entry (type 0x88/0x90) in catalog.",
    }
}

impl IsoBoot {
    /// Starts a disk image.
    pub fn boot_iso(file: &DirEntry) -> (r: IsoBoot)
        ensures
            r == first_step(file.file_start_lba),
    {
        IsoBoot::BootRecord { iso_lba: file.file_start_lba }
    }

    /// The sector that is wanted next.
    pub fn wanted(&self) -> (r: Option<u64>)
        ensures
            r == el_torito_wanted(*self),
    {
        match *self {
            IsoBoot::BootRecord { iso_lba } => Some(
                block_at(iso_lba, BOOT_RECORD_LBA_OFFSET as u32),
            ),
            IsoBoot::Catalog { lba, .. } => Some(lba),
            _ => None,
        }
    }

    /// Takes in the sector that was wanted, or `None` where it cannot be read.
    pub fn parse_el_torito(&self, sector: Option<&[u8; 512]>) -> (r: IsoBoot)
        ensures
            r == el_torito_next(*self, chain::opt_view(sector)),
    {
        match *self {
            IsoBoot::BootRecord { iso_lba } => match sector {
                None => IsoBoot::NotBootable(ElToritoError::BootRecordRead),
                Some(sector) => {
                    let s: &[u8] = sector;
                    if !bytes_eq(&s[1..6], "CD001".as_bytes()) {
                        return IsoBoot::NotBootable(ElToritoError::NoSignature);
                    }
                    IsoBoot::Catalog { iso_lba, lba: block_at(iso_lba, le32(s, 0x47)) }
                },
            },
            IsoBoot::Catalog { iso_lba, .. } => match sector {
                None => IsoBoot::NotBootable(ElToritoError::CatalogRead),
                Some(sector) => match find_bootable(sector) {
                    None => IsoBoot::NotBootable(ElToritoError::NoBootableEntry),
                    Some(b) => IsoBoot::Image {
                        lba: block_at(iso_lba, b.image_lba),
                        sector_count: b.sector_count,
                    },
                },
            },
            other => other,
        }
    }

    /// Takes in whether the boot image could be read.
    pub fn load_boot_image(&self, loaded: bool) -> (r: IsoBoot)
        ensures
            r == (match *self {
                IsoBoot::Image { .. } => if loaded {
                    IsoBoot::Chainload
                } else {
                    IsoBoot::ImageUnreadable
                },
                other => other,
            }),
    {
        match *self {
            IsoBoot::Image { .. } => if loaded {
                IsoBoot::Chainload
            } else {
                IsoBoot::ImageUnreadable
            },
            other => other,
        }
    }

    /// Tells on the screen that the state was reached.
    pub fn report(&self, screen: &mut [u8; 4000])
        ensures
            final(screen)@ == reported(old(screen)@, *self),
    {
        match *self {
            IsoBoot::BootRecord { .. } => {
                vga_clear(screen, 0x0E);
                show(
                    screen,
                    &Notice { row: 2, col: 5, text: "Loading ISO boot sector...", attr: 0x0F },
                );
            },
            IsoBoot::Catalog { .. } => {},
            IsoBoot::Image { .. } => {
                show(
                    screen,
                    &Notice { row: 7, col: 5, text: "Loading boot image...", attr: 0x07 },
                );
            },
            IsoBoot::Chainload => {
                show(screen, &Notice { row: 10, col: 5, text: "Chainloading...", attr: 0x0F });
            },
            IsoBoot::NotBootable(e) => {
                show(screen, &Notice { row: 4, col: 2, text: error_message(e), attr: 0x0C });
                show(
                    screen,
                    &Notice {
                        row: 7,
                        col: 2,
                        text: "ISO boot failed. Press any key to halt...",
                        attr: 0x07,
                    },
                );
            },
            IsoBoot::ImageUnreadable => {
                show(
                    screen,
                    &Notice {
                        row: 10,
                        col: 2,
                        text: "Failed to read boot image sectors.",
                        attr: 0x0C,
                    },
                );
                show(
                    screen,
                    &Notice {
                        row: 10,
                        col: 2,
                        text: "ISO boot failed. Press any key to halt...",
                        attr: 0x07,
                    },
                );
            },
        }
    }
}

proof fn bootable_is_an_entry(catalog: Seq<u8>, i: int)
    requires
        0 <= i,
    ensures
        bootable(catalog, i) matches Some(b) ==> b.sector_count > 0 && exists|k: int|
            i <= k < 16 && (#[trigger] catalog[k * 32] == BIOS_ENTRY || catalog[k * 32]
                == UEFI_ENTRY) && b.image_lba == bytes::spec_le32(catalog, k * 32 + 8),
    decreases 16 - i,
{
    if i < 16 {
        if catalog[i * 32] == BIOS_ENTRY || catalog[i * 32] == UEFI_ENTRY {
        } else {
            bootable_is_an_entry(catalog, i + 1);
        }
    }
}

/// A disk image comes to have a boot image to read only from a catalog that
/// names one: both sectors were read, the record bears the signature, and the
/// image is the one of a bootable entry, with at least one sector.
pub proof fn image_comes_from_catalog(
    iso_lba: u64,
    record: Option<Seq<u8>>,
    catalog: Option<Seq<u8>>,
)
    ensures
        ({
            let second = el_torito_next(first_step(iso_lba), record);
            el_torito_next(second, catalog) matches IsoBoot::Image { lba, sector_count } ==> {
                &&& record is Some
                &&& catalog is Some
                &&& record->0.subrange(1, 6) == bytes::text("CD001")
                &&& sector_count > 0
                &&& exists|k: int|
                    0 <= k < 16 && (#[trigger] catalog->0[k * 32] == BIOS_ENTRY || catalog->0[k
                        * 32] == UEFI_ENTRY) && lba == block_lba(
                        iso_lba,
                        bytes::spec_le32(catalog->0, k * 32 + 8) as int,
                    )
            }
        }),
{
    if catalog is Some {
        bootable_is_an_entry(catalog->0, 0);
    }
}

/// Whether entry `k` of a catalog can be started.
pub open spec fn startable(catalog: Seq<u8>, k: int) -> bool {
    catalog[k * 32] == 0x88 || catalog[k * 32] == 0x90
}

proof fn first_startable(catalog: Seq<u8>, i: int, k: int)
    requires
        0 <= i <= k <= 16,
        forall|j: int| i <= j < k ==> !#[trigger] startable(catalog, j),
    ensures
        bootable(catalog, i) == bootable(catalog, k),
    decreases k - i,
{
    if i < k {
        assert(!startable(catalog, i));
        first_startable(catalog, i + 1, k);
    }
}

/// The boot image that is read is the one of the first entry of the catalog that
/// can be started. It starts in the sector of the disk image that the entry's
/// bytes 8 to 11 give, and it takes as many sectors of the disk as the same
/// entry's bytes 6 and 7 give, or four where these are zero.
pub proof fn image_is_read_as_its_entry_says(iso_lba: u64, lba: u64, catalog: Seq<u8>, k: int)
    requires
        0 <= k < 16,
        startable(catalog, k),
        forall|j: int| 0 <= j < k ==> !#[trigger] startable(catalog, j),
    ensures
        el_torito_next(IsoBoot::Catalog { iso_lba, lba }, Some(catalog)) matches IsoBoot::Image {
            lba: image,
            sector_count,
        } && {
            let count = catalog[k * 32 + 6] + 256 * catalog[k * 32 + 7];
            let start = catalog[k * 32 + 8] + 256 * catalog[k * 32 + 9] + 65536 * catalog[k * 32
                + 10] + 16777216 * catalog[k * 32 + 11];
            &&& image == (iso_lba + 4 * start) % 0x1_0000_0000_0000_0000
            &&& count != 0 ==> sector_count == count
            &&& count == 0 ==> sector_count == 4
        },
{
    first_startable(catalog, 0, k);
    let b = bootable(catalog, k)->0;
    let count = bytes::spec_le16(catalog, k * 32 + 6);
    assert(b.sector_count == (if count == 0 {
        4
    } else {
        count
    }));
}

/// A disk image is given up for want of an entry only where no entry of its
/// catalog can be started.
pub proof fn catalog_without_entry_is_refused(iso_lba: u64, lba: u64, catalog: Seq<u8>)
    ensures
        (forall|j: int| 0 <= j < 16 ==> !#[trigger] startable(catalog, j)) <==> el_torito_next(
            IsoBoot::Catalog { iso_lba, lba },
            Some(catalog),
        ) == IsoBoot::NotBootable(ElToritoError::NoBootableEntry),
{
    if forall|j: int| 0 <= j < 16 ==> !#[trigger] startable(catalog, j) {
        first_startable(catalog, 0, 16);
    } else {
        bootable_is_found(catalog, 0);
    }
}

proof fn bootable_is_found(catalog: Seq<u8>, i: int)
    requires
        0 <= i,
        exists|j: int| i <= j < 16 && #[trigger] startable(catalog, j),
    ensures
        bootable(catalog, i) is Some,
    decreases 16 - i,
{
    if i < 16 && !startable(catalog, i) {
        bootable_is_found(catalog, i + 1);
    }
}

/// The boot record is read from sector 17 of the disk image. Where its bytes 1 to
/// 5 read `CD001`, the catalog is read from the sector of the disk image that its
/// bytes 71 to 74 give; where they do not, or a sector cannot be read, the disk
/// image is refused for that reason.
pub proof fn catalog_is_where_the_record_says(iso_lba: u64, lba: u64, record: Seq<u8>)
    ensures
        ({
            let place = record[71] + 256 * record[72] + 65536 * record[73] + 16777216 * record[74];
            let next = el_torito_next(first_step(iso_lba), Some(record));
            &&& el_torito_wanted(first_step(iso_lba)) == Some(
                ((iso_lba + 68) % 0x1_0000_0000_0000_0000) as u64,
            )
            &&& el_torito_next(first_step(iso_lba), None) == IsoBoot::NotBootable(
                ElToritoError::BootRecordRead,
            )
            &&& record.subrange(1, 6) == seq![0x43u8, 0x44, 0x30, 0x30, 0x31] ==> {
                &&& next is Catalog
                &&& el_torito_wanted(next) == Some(
                    ((iso_lba + 4 * place) % 0x1_0000_0000_0000_0000) as u64,
                )
                &&& next->Catalog_iso_lba == iso_lba
            }
            &&& record.subrange(1, 6) != seq![0x43u8, 0x44, 0x30, 0x30, 0x31] ==> next
                == IsoBoot::NotBootable(ElToritoError::NoSignature)
            &&& el_torito_next(IsoBoot::Catalog { iso_lba, lba }, None) == IsoBoot::NotBootable(
                ElToritoError::CatalogRead,
            )
        }),
{
    reveal_strlit("CD001");
    vstd::string::is_ascii_spec_bytes("CD001");
    assert(bytes::text("CD001") =~= seq![0x43u8, 0x44, 0x30, 0x30, 0x31]);
}

} // verus!
