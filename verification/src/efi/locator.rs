//! Where a boot payload lives.

use vstd::prelude::*;
use crate::bytes;
use crate::efi::fs::{PayloadEntry, PayloadType};
use crate::efi::protocol::Guid;

verus! {

/// Physical location of a payload file on a block device.
#[derive(Clone, Copy)]
pub struct IsoLocation {
    /// GPT partition GUID, or the MBR disk signature in its place.
    pub partition_guid: Guid,
    /// Partition number, from 1; 0 where it is not known.
    pub partition_number: u32,
    /// Whether the disk is partitioned by an MBR.
    pub is_mbr: bool,
    /// Path within the partition.
    pub file_path: [u8; 256],
    pub file_path_len: usize,
    pub file_size: u64,
    /// First sector of the partition.
    pub part1_lba: u64,
    /// First sector of the file.
    pub iso_lba: u64,
}

/// The part of a path behind its last slash.
pub open spec fn last_component(path: Seq<u8>) -> Seq<u8>
    decreases path.len(),
{
    if path.len() == 0 || path.last() == 0x2F {
        Seq::empty()
    } else {
        last_component(path.drop_last()).push(path.last())
    }
}

/// A path without the slash it may start with.
pub open spec fn relative(path: Seq<u8>) -> Seq<u8> {
    if path.len() > 0 && path[0] == 0x2F {
        path.skip(1)
    } else {
        path
    }
}

impl IsoLocation {
    pub open spec fn wf(&self) -> bool {
        self.file_path_len <= 256
    }

    pub open spec fn spec_path(&self) -> Seq<u8> {
        self.file_path@.subrange(0, self.file_path_len as int)
    }

    pub fn path(&self) -> (r: &[u8])
        requires
            self.wf(),
        ensures
            r@ == self.spec_path(),
    {
        let p: &[u8] = &self.file_path;
        &p[0..self.file_path_len]
    }

    /// Where the file starts within its partition, in bytes.
    pub fn offset_bytes(&self) -> (r: u64)
        requires
            self.part1_lba <= self.iso_lba,
            (self.iso_lba - self.part1_lba) * 512 <= u64::MAX,
        ensures
            r == (self.iso_lba - self.part1_lba) * 512,
    {
        (self.iso_lba - self.part1_lba) * 512
    }

    #[verifier::loop_isolation(false)]
    pub fn file_name(&self) -> (r: &[u8])
        requires
            self.wf(),
        ensures
            r@ == last_component(self.spec_path()),
    {
        let path: &[u8] = self.path();
        let n: usize = path.len();
        let mut i: usize = n;
        assert(path@.subrange(0, n as int) =~= path@);
        assert(last_component(path@) =~= last_component(path@) + path@.subrange(n as int, n as int));
        while i > 0 && path[i - 1] != 0x2F
            invariant
                i <= n,
                last_component(path@) == last_component(path@.subrange(0, i as int))
                    + path@.subrange(i as int, n as int),
            decreases i,
        {
            let ghost head = path@.subrange(0, i as int);
            assert(head.drop_last() =~= path@.subrange(0, i - 1));
            assert(last_component(head) + path@.subrange(i as int, n as int) =~= last_component(
                head.drop_last(),
            ) + path@.subrange(i - 1, n as int));
            i -= 1;
        }
        assert(last_component(path@.subrange(0, i as int)) =~= Seq::empty());
        assert(last_component(path@) =~= path@.subrange(i as int, n as int));
        &path[i..n]
    }

    pub fn path_without_leading_slash(&self) -> (r: &[u8])
        requires
            self.wf(),
        ensures
            r@ == relative(self.spec_path()),
    {
        let p: &[u8] = self.path();
        if p.len() > 0 && p[0] == 0x2F {
            &p[1..p.len()]
        } else {
            p
        }
    }

    pub fn from_payload_entry(
        entry: &PayloadEntry,
        partition_guid: Guid,
        partition_number: u32,
        part1_lba: u64,
        is_mbr: bool,
    ) -> (r: IsoLocation)
        ensures
            r.wf(),
            is_location(r, *entry, partition_guid, partition_number, part1_lba, is_mbr),
    {
        let n: usize = if entry.name_len < 256 {
            entry.name_len
        } else {
            256
        };
        let mut file_path: [u8; 256] = [0; 256];
        let name: &[u8] = &entry.name;
        bytes::put(&mut file_path, 0, &name[0..n]);
        assert(file_path@.subrange(0, n as int) =~= name@.subrange(0, n as int));
        assert(file_path@.subrange(n as int, 256) =~= bytes::zeros((256 - n) as nat));
        IsoLocation {
            partition_guid,
            partition_number,
            is_mbr,
            file_path,
            file_path_len: n,
            file_size: entry.file_size,
            part1_lba,
            iso_lba: entry.file_start_lba,
        }
    }
}

/// Whether `loc` is the location of `entry` on the given partition.
pub open spec fn is_location(
    loc: IsoLocation,
    entry: PayloadEntry,
    partition_guid: Guid,
    partition_number: u32,
    part1_lba: u64,
    is_mbr: bool,
) -> bool {
    let n = bytes::min_int(entry.name_len as int, 256);
    &&& loc.partition_guid == partition_guid
    &&& loc.partition_number == partition_number
    &&& loc.is_mbr == is_mbr
    &&& loc.file_path_len == n
    &&& loc.spec_path() == entry.name@.subrange(0, n)
    &&& loc.file_path@.subrange(n, 256) == bytes::zeros((256 - n) as nat)
    &&& loc.file_size == entry.file_size
    &&& loc.part1_lba == part1_lba
    &&& loc.iso_lba == entry.file_start_lba
}

/// Resolves the location of an ISO image.
pub trait IsoLocator {
    spec fn spec_location(&self) -> IsoLocation;

    fn locate(&self) -> (r: IsoLocation)
        ensures
            r == self.spec_location(),
    ;
}

/// Resolves the location of a payload and says what kind it is of.
pub trait BootPayloadLocator {
    type Location;

    spec fn spec_payload_location(&self) -> Self::Location;

    spec fn spec_payload_type(&self) -> Seq<char>;

    fn locate(&self) -> (r: Self::Location)
        ensures
            r == self.spec_payload_location(),
    ;

    fn payload_type(&self) -> (r: &'static str)
        ensures
            r@ == self.spec_payload_type(),
    ;
}

pub struct FileBackedIsoLocator {
    pub location: IsoLocation,
}

pub struct WimPayloadLocator {
    pub location: IsoLocation,
}

pub struct EfiPayloadLocator {
    pub location: IsoLocation,
}

pub struct VhdPayloadLocator {
    pub location: IsoLocation,
    pub is_vhdx: bool,
}

impl FileBackedIsoLocator {
    pub fn from_payload_entry(
        entry: &PayloadEntry,
        partition_guid: Guid,
        partition_number: u32,
        part1_lba: u64,
        is_mbr: bool,
    ) -> (r: Self)
        ensures
            r.location.wf(),
            is_location(r.location, *entry, partition_guid, partition_number, part1_lba, is_mbr),
    {
        FileBackedIsoLocator {
            location: IsoLocation::from_payload_entry(
                entry,
                partition_guid,
                partition_number,
                part1_lba,
                is_mbr,
            ),
        }
    }
}

impl WimPayloadLocator {
    pub fn from_payload_entry(
        entry: &PayloadEntry,
        partition_guid: Guid,
        partition_number: u32,
        part1_lba: u64,
        is_mbr: bool,
    ) -> (r: Self)
        ensures
            r.location.wf(),
            is_location(r.location, *entry, partition_guid, partition_number, part1_lba, is_mbr),
    {
        WimPayloadLocator {
            location: IsoLocation::from_payload_entry(
                entry,
                partition_guid,
                partition_number,
                part1_lba,
                is_mbr,
            ),
        }
    }
}

impl EfiPayloadLocator {
    pub fn from_payload_entry(
        entry: &PayloadEntry,
        partition_guid: Guid,
        partition_number: u32,
        part1_lba: u64,
        is_mbr: bool,
    ) -> (r: Self)
        ensures
            r.location.wf(),
            is_location(r.location, *entry, partition_guid, partition_number, part1_lba, is_mbr),
    {
        EfiPayloadLocator {
            location: IsoLocation::from_payload_entry(
                entry,
                partition_guid,
                partition_number,
                part1_lba,
                is_mbr,
            ),
        }
    }
}

impl VhdPayloadLocator {
    pub fn from_payload_entry(
        entry: &PayloadEntry,
        partition_guid: Guid,
        partition_number: u32,
        part1_lba: u64,
        is_mbr: bool,
    ) -> (r: Self)
        ensures
            r.location.wf(),
            is_location(r.location, *entry, partition_guid, partition_number, part1_lba, is_mbr),
            r.is_vhdx == (entry.payload_type == PayloadType::Vhdx),
    {
        let is_vhdx: bool = matches!(entry.payload_type, PayloadType::Vhdx);
        VhdPayloadLocator {
            location: IsoLocation::from_payload_entry(
                entry,
                partition_guid,
                partition_number,
                part1_lba,
                is_mbr,
            ),
            is_vhdx,
        }
    }
}

impl IsoLocator for FileBackedIsoLocator {
    open spec fn spec_location(&self) -> IsoLocation {
        self.location
    }

    fn locate(&self) -> (r: IsoLocation) {
        self.location
    }
}

impl BootPayloadLocator for FileBackedIsoLocator {
    type Location = IsoLocation;

    open spec fn spec_payload_location(&self) -> IsoLocation {
        self.location
    }

    open spec fn spec_payload_type(&self) -> Seq<char> {
        "ISO"@
    }

    fn locate(&self) -> (r: IsoLocation) {
        self.location
    }

    fn payload_type(&self) -> (r: &'static str) {
        "ISO"
    }
}

impl BootPayloadLocator for WimPayloadLocator {
    type Location = IsoLocation;

    open spec fn spec_payload_location(&self) -> IsoLocation {
        self.location
    }

    open spec fn spec_payload_type(&self) -> Seq<char> {
        "WIM"@
    }

    fn locate(&self) -> (r: IsoLocation) {
        self.location
    }

    fn payload_type(&self) -> (r: &'static str) {
        "WIM"
    }
}

impl BootPayloadLocator for EfiPayloadLocator {
    type Location = IsoLocation;

    open spec fn spec_payload_location(&self) -> IsoLocation {
        self.location
    }

    open spec fn spec_payload_type(&self) -> Seq<char> {
        "EFI"@
    }

    fn locate(&self) -> (r: IsoLocation) {
        self.location
    }

    fn payload_type(&self) -> (r: &'static str) {
        "EFI"
    }
}

impl BootPayloadLocator for VhdPayloadLocator {
    type Location = IsoLocation;

    open spec fn spec_payload_location(&self) -> IsoLocation {
        self.location
    }

    open spec fn spec_payload_type(&self) -> Seq<char> {
        if self.is_vhdx {
            "VHDX"@
        } else {
            "VHD"@
        }
    }

    fn locate(&self) -> (r: IsoLocation) {
        self.location
    }

    fn payload_type(&self) -> (r: &'static str) {
        if self.is_vhdx {
            "VHDX"
        } else {
            "VHD"
        }
    }
}

} // verus!
