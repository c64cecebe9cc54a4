//! MBR and GPT as they are stored on a disk.

use vstd::prelude::*;
use crate::bytes;
use crate::bytes::{
    bytes_eq, le16, le32, le64, push_all, push_le16, push_le32, push_le64, put, WORD,
};
use crate::constants::{
    CHOOSABLE_EFI_PART_SIZE, CHOOSABLE_PART1_START_SECTOR, GPT_ATTR_VTOYEFI, GPT_PART1_NAME,
    GPT_PART2_NAME, GPT_SIGNATURE, GPT_TYPE_BASIC_DATA, GPT_TYPE_EFI_SYSTEM, MBR_SIGNATURE_55,
    MBR_SIGNATURE_AA, PART_TYPE_GPT_PROTECTIVE, SECTOR_SIZE,
};
use crate::disk_io;
use crate::disk_io::{push_write, DiskWrite, WriteView};
use crate::error::{ChoosableError, ErrorView, Result};
use crate::scan::chain;

verus! {

// ---------------------------------------------------------------------------
// MBR
// ---------------------------------------------------------------------------

/// An entry of the MBR's partition table.
#[derive(Clone, Copy, PartialEq, Eq, Structural, Debug)]
pub struct PartitionTableEntry {
    pub active: u8,
    pub start_head: u8,
    /// Sector in bits 0 to 5, cylinder in the others.
    pub start_sector_cylinder: u16,
    pub fs_flag: u8,
    pub end_head: u8,
    pub end_sector_cylinder: u16,
    pub start_lba: u32,
    pub sector_count: u32,
}

pub open spec fn empty_entry() -> PartitionTableEntry {
    PartitionTableEntry {
        active: 0,
        start_head: 0,
        start_sector_cylinder: 0,
        fs_flag: 0,
        end_head: 0,
        end_sector_cylinder: 0,
        start_lba: 0,
        sector_count: 0,
    }
}

/// An entry as stored.
pub open spec fn entry_bytes(e: PartitionTableEntry) -> Seq<u8> {
    seq![e.active, e.start_head] + bytes::le_bytes16(e.start_sector_cylinder) + seq![
        e.fs_flag,
        e.end_head,
    ] + bytes::le_bytes16(e.end_sector_cylinder) + bytes::le_bytes32(e.start_lba)
        + bytes::le_bytes32(e.sector_count)
}

/// The entry that is stored at byte `at`.
pub open spec fn entry_at(s: Seq<u8>, at: int) -> PartitionTableEntry {
    PartitionTableEntry {
        active: s[at],
        start_head: s[at + 1],
        start_sector_cylinder: bytes::spec_le16(s, at + 2),
        fs_flag: s[at + 4],
        end_head: s[at + 5],
        end_sector_cylinder: bytes::spec_le16(s, at + 6),
        start_lba: bytes::spec_le32(s, at + 8),
        sector_count: bytes::spec_le32(s, at + 12),
    }
}

impl PartitionTableEntry {
    pub fn empty() -> (r: Self)
        ensures
            r == empty_entry(),
    {
        PartitionTableEntry {
            active: 0,
            start_head: 0,
            start_sector_cylinder: 0,
            fs_flag: 0,
            end_head: 0,
            end_sector_cylinder: 0,
            start_lba: 0,
            sector_count: 0,
        }
    }

    fn read(s: &[u8], at: usize) -> (r: Self)
        requires
            at + 16 <= s@.len(),
        ensures
            r == entry_at(s@, at as int),
    {
        PartitionTableEntry {
            active: s[at],
            start_head: s[at + 1],
            start_sector_cylinder: le16(s, at + 2),
            fs_flag: s[at + 4],
            end_head: s[at + 5],
            end_sector_cylinder: le16(s, at + 6),
            start_lba: le32(s, at + 8),
            sector_count: le32(s, at + 12),
        }
    }

    fn write(&self, out: &mut Vec<u8>)
        ensures
            final(out)@ == old(out)@ + entry_bytes(*self),
    {
        let ghost before = out@;
        out.push(self.active);
        out.push(self.start_head);
        push_le16(out, self.start_sector_cylinder);
        out.push(self.fs_flag);
        out.push(self.end_head);
        push_le16(out, self.end_sector_cylinder);
        push_le32(out, self.start_lba);
        push_le32(out, self.sector_count);
        assert(out@ =~= before + entry_bytes(*self));
    }
}

/// A Master Boot Record.
#[derive(Clone, Copy, Debug)]
pub struct Mbr {
    pub boot_code: [u8; 446],
    pub partitions: [PartitionTableEntry; 4],
    pub signature_55: u8,
    pub signature_aa: u8,
}

#[verifier::ext_equal]
pub struct MbrView {
    pub boot_code: Seq<u8>,
    pub partitions: Seq<PartitionTableEntry>,
    pub signature_55: u8,
    pub signature_aa: u8,
}

impl View for Mbr {
    type V = MbrView;

    open spec fn view(&self) -> MbrView {
        MbrView {
            boot_code: self.boot_code@,
            partitions: self.partitions@,
            signature_55: self.signature_55,
            signature_aa: self.signature_aa,
        }
    }
}

pub open spec fn mbr_wf(m: MbrView) -> bool {
    m.boot_code.len() == 446 && m.partitions.len() == 4
}

/// The four entries as stored.
pub open spec fn entries_bytes(p: Seq<PartitionTableEntry>) -> Seq<u8> {
    entry_bytes(p[0]) + entry_bytes(p[1]) + entry_bytes(p[2]) + entry_bytes(p[3])
}

/// A Master Boot Record as stored.
#[verifier::opaque]
pub open spec fn mbr_bytes(m: MbrView) -> Seq<u8> {
    m.boot_code + entries_bytes(m.partitions) + seq![m.signature_55, m.signature_aa]
}

/// The Master Boot Record that is stored in a sector.
#[verifier::opaque]
pub open spec fn mbr_of(s: Seq<u8>) -> MbrView {
    MbrView {
        boot_code: s.subrange(0, 446),
        partitions: seq![entry_at(s, 446), entry_at(s, 462), entry_at(s, 478), entry_at(s, 494)],
        signature_55: s[510],
        signature_aa: s[511],
    }
}

pub open spec fn has_signature(s: Seq<u8>) -> bool {
    s[510] == MBR_SIGNATURE_55 && s[511] == MBR_SIGNATURE_AA
}

pub open spec fn empty_mbr() -> MbrView {
    MbrView {
        boot_code: bytes::zeros(446),
        partitions: seq![empty_entry(), empty_entry(), empty_entry(), empty_entry()],
        signature_55: MBR_SIGNATURE_55,
        signature_aa: MBR_SIGNATURE_AA,
    }
}

pub open spec fn is_protective(m: MbrView) -> bool {
    m.partitions[0].fs_flag == PART_TYPE_GPT_PROTECTIVE
}

/// What comes of reading a sector as a Master Boot Record.
pub open spec fn mbr_read(s: Seq<u8>) -> std::result::Result<MbrView, ErrorView> {
    if has_signature(s) {
        Ok(mbr_of(s))
    } else {
        Err(ErrorView::InvalidMbrSignature(s[510], s[511]))
    }
}

pub open spec fn mbr_result(r: Result<Mbr>) -> std::result::Result<MbrView, ErrorView> {
    match r {
        Ok(m) => Ok(m@),
        Err(e) => Err(e@),
    }
}

impl Mbr {
    /// The record that is stored in a sector.
    pub fn read(buf: &[u8; 512]) -> (r: Result<Mbr>)
        ensures
            mbr_result(r) == mbr_read(buf@),
    {
        let s: &[u8] = buf;
        if s[510] != MBR_SIGNATURE_55 || s[511] != MBR_SIGNATURE_AA {
            return Err(ChoosableError::InvalidMbrSignature(s[510], s[511]));
        }
        let mut boot_code: [u8; 446] = [0; 446];
        put(&mut boot_code, 0, &s[0..446]);
        let partitions: [PartitionTableEntry; 4] = [
            PartitionTableEntry::read(s, 446),
            PartitionTableEntry::read(s, 462),
            PartitionTableEntry::read(s, 478),
            PartitionTableEntry::read(s, 494),
        ];
        let m: Mbr = Mbr { boot_code, partitions, signature_55: s[510], signature_aa: s[511] };
        reveal(mbr_of);
        assert(m@ =~= mbr_of(s@));
        Ok(m)
    }

    /// The sector that stores the record.
    pub fn write(&self) -> (r: Vec<u8>)
        ensures
            r@ == mbr_bytes(self@),
    {
        let mut out: Vec<u8> = Vec::new();
        push_all(&mut out, &self.boot_code);
        self.partitions[0].write(&mut out);
        self.partitions[1].write(&mut out);
        self.partitions[2].write(&mut out);
        self.partitions[3].write(&mut out);
        out.push(self.signature_55);
        out.push(self.signature_aa);
        reveal(mbr_bytes);
        assert(out@ =~= mbr_bytes(self@));
        out
    }

    /// Whether the record only stands in for a GPT.
    pub fn is_gpt_protective(&self) -> (r: bool)
        ensures
            r == is_protective(self@),
    {
        self.partitions[0].fs_flag == PART_TYPE_GPT_PROTECTIVE
    }

    /// 1 for a GPT, else 0.
    pub fn partition_style(&self) -> (r: u32)
        ensures
            r == (if is_protective(self@) {
                1u32
            } else {
                0u32
            }),
    {
        if self.is_gpt_protective() {
            1
        } else {
            0
        }
    }

    pub fn part1_start_lba(&self) -> (r: u32)
        ensures
            r == self@.partitions[0].start_lba,
    {
        self.partitions[0].start_lba
    }

    pub fn part1_sector_count(&self) -> (r: u32)
        ensures
            r == self@.partitions[0].sector_count,
    {
        self.partitions[0].sector_count
    }

    pub fn part2_start_lba(&self) -> (r: u32)
        ensures
            r == self@.partitions[1].start_lba,
    {
        self.partitions[1].start_lba
    }

    pub fn part2_sector_count(&self) -> (r: u32)
        ensures
            r == self@.partitions[1].sector_count,
    {
        self.partitions[1].sector_count
    }

    pub fn part1_active(&self) -> (r: u8)
        ensures
            r == self@.partitions[0].active,
    {
        self.partitions[0].active
    }

    pub fn part2_active(&self) -> (r: u8)
        ensures
            r == self@.partitions[1].active,
    {
        self.partitions[1].active
    }

    /// A record with nothing but its signature.
    pub fn new_empty() -> (r: Self)
        ensures
            r@ == empty_mbr(),
    {
        let e: PartitionTableEntry = PartitionTableEntry::empty();
        let m: Mbr = Mbr {
            boot_code: [0; 446],
            partitions: [e, e, e, e],
            signature_55: MBR_SIGNATURE_55,
            signature_aa: MBR_SIGNATURE_AA,
        };
        assert(m@ =~= empty_mbr());
        m
    }
}

/// An entry is read back as it was stored.
pub proof fn entry_round_trip(s: Seq<u8>, at: int, e: PartitionTableEntry)
    requires
        0 <= at,
        at + 16 <= s.len(),
        s.subrange(at, at + 16) == entry_bytes(e),
    ensures
        entry_at(s, at) == e,
{
    let b = entry_bytes(e);
    bytes::le16_round_trip(e.start_sector_cylinder);
    bytes::le16_round_trip(e.end_sector_cylinder);
    bytes::le32_round_trip(e.start_lba);
    bytes::le32_round_trip(e.sector_count);
    assert(forall|k: int| 0 <= k < 16 ==> s[at + k] == #[trigger] s.subrange(at, at + 16)[k]);
    assert(s[at] == b[0] && s[at + 1] == b[1] && s[at + 4] == b[4] && s[at + 5] == b[5]);
    assert(b.subrange(2, 4) =~= bytes::le_bytes16(e.start_sector_cylinder));
    assert(b.subrange(6, 8) =~= bytes::le_bytes16(e.end_sector_cylinder));
    assert(b.subrange(8, 12) =~= bytes::le_bytes32(e.start_lba));
    assert(b.subrange(12, 16) =~= bytes::le_bytes32(e.sector_count));
}

/// What stands in an entry's place is what is stored of the entry that is read
/// there.
pub proof fn stored_entry_round_trip(s: Seq<u8>, at: int)
    requires
        0 <= at,
        at + 16 <= s.len(),
    ensures
        entry_bytes(entry_at(s, at)) == s.subrange(at, at + 16),
{
    let e = entry_at(s, at);
    bytes::le16_stored(s, at + 2);
    bytes::le16_stored(s, at + 6);
    bytes::le32_stored(s, at + 8);
    bytes::le32_stored(s, at + 12);
    let t = s.subrange(at, at + 16);
    assert(t.subrange(2, 4) =~= s.subrange(at + 2, at + 4));
    assert(t.subrange(6, 8) =~= s.subrange(at + 6, at + 8));
    assert(t.subrange(8, 12) =~= s.subrange(at + 8, at + 12));
    assert(t.subrange(12, 16) =~= s.subrange(at + 12, at + 16));
    sixteen(
        t,
        bytes::le_bytes16(e.start_sector_cylinder),
        bytes::le_bytes16(e.end_sector_cylinder),
        bytes::le_bytes32(e.start_lba),
        bytes::le_bytes32(e.sector_count),
    );
    assert(t[0] == s[at] && t[1] == s[at + 1] && t[4] == s[at + 4] && t[5] == s[at + 5]);
}

/// Sixteen bytes put together from their parts.
proof fn sixteen(t: Seq<u8>, a: Seq<u8>, b: Seq<u8>, c: Seq<u8>, d: Seq<u8>)
    requires
        t.len() == 16,
        a == t.subrange(2, 4),
        b == t.subrange(6, 8),
        c == t.subrange(8, 12),
        d == t.subrange(12, 16),
    ensures
        seq![t[0], t[1]] + a + seq![t[4], t[5]] + b + c + d == t,
{
    assert(seq![t[0], t[1]] + a + seq![t[4], t[5]] + b + c + d =~= t);
}

/// Where the parts of a sector stand that is put together from a start, four entries and an end.
proof fn sector_parts(
    start: Seq<u8>,
    e0: Seq<u8>,
    e1: Seq<u8>,
    e2: Seq<u8>,
    e3: Seq<u8>,
    end: Seq<u8>,
)
    requires
        start.len() == 446,
        e0.len() == 16,
        e1.len() == 16,
        e2.len() == 16,
        e3.len() == 16,
        end.len() == 2,
    ensures
        ({
            let s = start + (e0 + e1 + e2 + e3) + end;
            &&& s.len() == 512
            &&& s.subrange(0, 446) == start
            &&& s.subrange(446, 462) == e0
            &&& s.subrange(462, 478) == e1
            &&& s.subrange(478, 494) == e2
            &&& s.subrange(494, 510) == e3
            &&& s[510] == end[0]
            &&& s[511] == end[1]
        }),
{
    let s = start + (e0 + e1 + e2 + e3) + end;
    assert(s.subrange(0, 446) =~= start);
    assert(s.subrange(446, 462) =~= e0);
    assert(s.subrange(462, 478) =~= e1);
    assert(s.subrange(478, 494) =~= e2);
    assert(s.subrange(494, 510) =~= e3);
}

/// A sector that is read as a Master Boot Record is stored again byte for byte.
pub proof fn sector_round_trip(s: Seq<u8>)
    requires
        s.len() == 512,
    ensures
        mbr_wf(mbr_of(s)),
        mbr_bytes(mbr_of(s)) == s,
{
    let m = mbr_of(s);
    assert(mbr_wf(m) && m.boot_code == s.subrange(0, 446) && m.partitions == seq![
        entry_at(s, 446),
        entry_at(s, 462),
        entry_at(s, 478),
        entry_at(s, 494),
    ] && m.signature_55 == s[510] && m.signature_aa == s[511]) by {
        reveal(mbr_of);
    }
    stored_entry_round_trip(s, 446);
    stored_entry_round_trip(s, 462);
    stored_entry_round_trip(s, 478);
    stored_entry_round_trip(s, 494);
    sector_joined(s);
    assert(mbr_bytes(m) == s.subrange(0, 446) + (s.subrange(446, 462) + s.subrange(462, 478)
        + s.subrange(478, 494) + s.subrange(494, 510)) + seq![s[510], s[511]]) by {
        reveal(mbr_bytes);
        let p = m.partitions;
        assert(p[0] == entry_at(s, 446) && p[1] == entry_at(s, 462) && p[2] == entry_at(s, 478)
            && p[3] == entry_at(s, 494));
    }
}

proof fn sector_joined(s: Seq<u8>)
    requires
        s.len() == 512,
    ensures
        s.subrange(0, 446) + (s.subrange(446, 462) + s.subrange(462, 478) + s.subrange(478, 494)
            + s.subrange(494, 510)) + seq![s[510], s[511]] == s,
{
    assert(s.subrange(0, 446) + (s.subrange(446, 462) + s.subrange(462, 478) + s.subrange(478, 494)
        + s.subrange(494, 510)) + seq![s[510], s[511]] =~= s);
}

/// A Master Boot Record is read back as it was stored.
pub proof fn mbr_round_trip(m: MbrView)
    requires
        mbr_wf(m),
    ensures
        mbr_bytes(m).len() == 512,
        mbr_of(mbr_bytes(m)) == m,
        mbr_bytes(m)[510] == m.signature_55,
        mbr_bytes(m)[511] == m.signature_aa,
{
    reveal(mbr_of);
    let s = mbr_bytes(m);
    let p = m.partitions;
    assert({
        &&& s.len() == 512
        &&& s.subrange(0, 446) == m.boot_code
        &&& s.subrange(446, 462) == entry_bytes(p[0])
        &&& s.subrange(462, 478) == entry_bytes(p[1])
        &&& s.subrange(478, 494) == entry_bytes(p[2])
        &&& s.subrange(494, 510) == entry_bytes(p[3])
        &&& s[510] == m.signature_55
        &&& s[511] == m.signature_aa
    }) by {
        reveal(mbr_bytes);
        sector_parts(
            m.boot_code,
            entry_bytes(p[0]),
            entry_bytes(p[1]),
            entry_bytes(p[2]),
            entry_bytes(p[3]),
            seq![m.signature_55, m.signature_aa],
        );
    }
    assert(entry_at(s, 446) == p[0]) by {
        entry_round_trip(s, 446, p[0]);
    }
    assert(entry_at(s, 462) == p[1]) by {
        entry_round_trip(s, 462, p[1]);
    }
    assert(entry_at(s, 478) == p[2]) by {
        entry_round_trip(s, 478, p[2]);
    }
    assert(entry_at(s, 494) == p[3]) by {
        entry_round_trip(s, 494, p[3]);
    }
    assert(mbr_of(s).partitions =~= p);
    assert(mbr_of(s) =~= m);
}

// ---------------------------------------------------------------------------
// GPT
// ---------------------------------------------------------------------------

pub type Guid = [u8; 16];

/// The bytes of a GPT header that are stored.
pub const GPT_HEADER_SIZE: u32 = 92;

/// The entries of a partition table.
pub const GPT_ENTRIES: usize = 128;

/// The bytes of a partition table.
pub const GPT_TABLE_BYTES: usize = 16384;

/// A GPT header. Beyond the bytes that are stored it is padded to a sector.
#[derive(Clone, Copy, Debug)]
pub struct GptHeader {
    pub signature: [u8; 8],
    pub revision: [u8; 4],
    pub header_size: u32,
    pub header_crc32: u32,
    pub reserved1: [u8; 4],
    pub efi_start_lba: u64,
    pub efi_backup_lba: u64,
    pub part_area_start_lba: u64,
    pub part_area_end_lba: u64,
    pub disk_guid: Guid,
    pub part_table_start_lba: u64,
    pub part_table_num_entries: u32,
    pub part_table_entry_size: u32,
    pub part_table_crc32: u32,
    pub reserved2: [u8; 420],
}

#[verifier::ext_equal]
pub struct HeaderView {
    pub signature: Seq<u8>,
    pub revision: Seq<u8>,
    pub header_size: u32,
    pub header_crc32: u32,
    pub reserved1: Seq<u8>,
    pub efi_start_lba: u64,
    pub efi_backup_lba: u64,
    pub part_area_start_lba: u64,
    pub part_area_end_lba: u64,
    pub disk_guid: Seq<u8>,
    pub part_table_start_lba: u64,
    pub part_table_num_entries: u32,
    pub part_table_entry_size: u32,
    pub part_table_crc32: u32,
    pub reserved2: Seq<u8>,
}

impl View for GptHeader {
    type V = HeaderView;

    open spec fn view(&self) -> HeaderView {
        HeaderView {
            signature: self.signature@,
            revision: self.revision@,
            header_size: self.header_size,
            header_crc32: self.header_crc32,
            reserved1: self.reserved1@,
            efi_start_lba: self.efi_start_lba,
            efi_backup_lba: self.efi_backup_lba,
            part_area_start_lba: self.part_area_start_lba,
            part_area_end_lba: self.part_area_end_lba,
            disk_guid: self.disk_guid@,
            part_table_start_lba: self.part_table_start_lba,
            part_table_num_entries: self.part_table_num_entries,
            part_table_entry_size: self.part_table_entry_size,
            part_table_crc32: self.part_table_crc32,
            reserved2: self.reserved2@,
        }
    }
}

pub open spec fn header_wf(h: HeaderView) -> bool {
    &&& h.signature.len() == 8
    &&& h.revision.len() == 4
    &&& h.reserved1.len() == 4
    &&& h.disk_guid.len() == 16
    &&& h.reserved2.len() == 420
}

/// The stored bytes of a header.
#[verifier::opaque]
pub open spec fn header_front(h: HeaderView) -> Seq<u8> {
    header_lbas(h) + bytes::le_bytes64(h.part_table_start_lba) + bytes::le_bytes32(
        h.part_table_num_entries,
    ) + bytes::le_bytes32(h.part_table_entry_size) + bytes::le_bytes32(h.part_table_crc32)
}

/// The stored bytes of a header up to where the partition table is.
pub open spec fn header_lbas(h: HeaderView) -> Seq<u8> {
    h.signature + h.revision + bytes::le_bytes32(h.header_size) + bytes::le_bytes32(
        h.header_crc32,
    ) + h.reserved1 + bytes::le_bytes64(h.efi_start_lba) + bytes::le_bytes64(h.efi_backup_lba)
        + bytes::le_bytes64(h.part_area_start_lba) + bytes::le_bytes64(h.part_area_end_lba)
        + h.disk_guid
}

/// A header padded to a sector.
pub open spec fn header_bytes(h: HeaderView) -> Seq<u8> {
    header_front(h) + h.reserved2
}

/// The header whose bytes these are.
#[verifier::opaque]
pub open spec fn header_of(s: Seq<u8>) -> HeaderView {
    HeaderView {
        signature: s.subrange(0, 8),
        revision: s.subrange(8, 12),
        header_size: bytes::spec_le32(s, 12),
        header_crc32: bytes::spec_le32(s, 16),
        reserved1: s.subrange(20, 24),
        efi_start_lba: bytes::spec_le64(s, 24),
        efi_backup_lba: bytes::spec_le64(s, 32),
        part_area_start_lba: bytes::spec_le64(s, 40),
        part_area_end_lba: bytes::spec_le64(s, 48),
        disk_guid: s.subrange(56, 72),
        part_table_start_lba: bytes::spec_le64(s, 72),
        part_table_num_entries: bytes::spec_le32(s, 80),
        part_table_entry_size: bytes::spec_le32(s, 84),
        part_table_crc32: bytes::spec_le32(s, 88),
        reserved2: bytes::zeros(420),
    }
}

/// What comes of reading bytes as a GPT header.
pub open spec fn header_read(s: Seq<u8>) -> std::result::Result<HeaderView, ErrorView> {
    if s.subrange(0, 8) == GPT_SIGNATURE@ {
        Ok(header_of(s))
    } else {
        Err(ErrorView::InvalidGptSignature)
    }
}

pub open spec fn header_result(r: Result<GptHeader>) -> std::result::Result<
    HeaderView,
    ErrorView,
> {
    match r {
        Ok(h) => Ok(h@),
        Err(e) => Err(e@),
    }
}

/// The header of a new GPT on a disk of `total` sectors.
pub open spec fn new_header(total: int, disk_guid: Seq<u8>) -> HeaderView {
    HeaderView {
        signature: GPT_SIGNATURE@,
        revision: seq![0u8, 0, 1, 0],
        header_size: GPT_HEADER_SIZE,
        header_crc32: 0,
        reserved1: bytes::zeros(4),
        efi_start_lba: 1,
        efi_backup_lba: (total - 1) as u64,
        part_area_start_lba: CHOOSABLE_PART1_START_SECTOR,
        part_area_end_lba: (total - 34) as u64,
        disk_guid,
        part_table_start_lba: 2,
        part_table_num_entries: 128,
        part_table_entry_size: 128,
        part_table_crc32: 0,
        reserved2: bytes::zeros(420),
    }
}

impl GptHeader {
    /// The header whose bytes these are.
    pub fn read(buf: &[u8; 92]) -> (r: Result<GptHeader>)
        ensures
            header_result(r) == header_read(buf@),
    {
        let s: &[u8] = buf;
        if !bytes_eq(&s[0..8], GPT_SIGNATURE) {
            return Err(ChoosableError::InvalidGptSignature);
        }
        let mut signature: [u8; 8] = [0; 8];
        put(&mut signature, 0, &s[0..8]);
        let mut revision: [u8; 4] = [0; 4];
        put(&mut revision, 0, &s[8..12]);
        let mut reserved1: [u8; 4] = [0; 4];
        put(&mut reserved1, 0, &s[20..24]);
        let mut disk_guid: [u8; 16] = [0; 16];
        put(&mut disk_guid, 0, &s[56..72]);
        let h: GptHeader = GptHeader {
            signature,
            revision,
            header_size: le32(s, 12),
            header_crc32: le32(s, 16),
            reserved1,
            efi_start_lba: le64(s, 24),
            efi_backup_lba: le64(s, 32),
            part_area_start_lba: le64(s, 40),
            part_area_end_lba: le64(s, 48),
            disk_guid,
            part_table_start_lba: le64(s, 72),
            part_table_num_entries: le32(s, 80),
            part_table_entry_size: le32(s, 84),
            part_table_crc32: le32(s, 88),
            reserved2: [0; 420],
        };
        reveal(header_of);
        assert(h@ =~= header_of(s@));
        Ok(h)
    }

    /// The stored bytes of the header.
    pub fn write(&self) -> (r: Vec<u8>)
        ensures
            r@ == header_front(self@),
    {
        let mut out: Vec<u8> = Vec::new();
        push_all(&mut out, &self.signature);
        push_all(&mut out, &self.revision);
        push_le32(&mut out, self.header_size);
        push_le32(&mut out, self.header_crc32);
        push_all(&mut out, &self.reserved1);
        push_le64(&mut out, self.efi_start_lba);
        push_le64(&mut out, self.efi_backup_lba);
        push_le64(&mut out, self.part_area_start_lba);
        push_le64(&mut out, self.part_area_end_lba);
        push_all(&mut out, &self.disk_guid);
        assert(out@ =~= header_lbas(self@));
        push_le64(&mut out, self.part_table_start_lba);
        push_le32(&mut out, self.part_table_num_entries);
        push_le32(&mut out, self.part_table_entry_size);
        push_le32(&mut out, self.part_table_crc32);
        reveal(header_front);
        out
    }

    /// The header padded to a sector.
    pub fn padded(&self) -> (r: Vec<u8>)
        ensures
            r@ == header_bytes(self@),
    {
        let mut out: Vec<u8> = self.write();
        push_all(&mut out, &self.reserved2);
        out
    }

    /// The header of a new GPT, without its checksums.
    pub fn new(disk_size_bytes: u64, disk_guid: Guid) -> (r: Self)
        requires
            disk_size_bytes >= 34 * SECTOR_SIZE,
        ensures
            r@ == new_header((disk_size_bytes / SECTOR_SIZE) as int, disk_guid@),
    {
        let total_sectors: u64 = disk_size_bytes / SECTOR_SIZE;
        let h: GptHeader = GptHeader {
            signature: *GPT_SIGNATURE,
            revision: [0, 0, 1, 0],
            header_size: GPT_HEADER_SIZE,
            header_crc32: 0,
            reserved1: [0; 4],
            efi_start_lba: 1,
            efi_backup_lba: total_sectors - 1,
            part_area_start_lba: CHOOSABLE_PART1_START_SECTOR,
            part_area_end_lba: total_sectors - 34,
            disk_guid,
            part_table_start_lba: 2,
            part_table_num_entries: 128,
            part_table_entry_size: 128,
            part_table_crc32: 0,
            reserved2: [0; 420],
        };
        assert(h@ =~= new_header(total_sectors as int, disk_guid@));
        h
    }
}

proof fn le32_at(s: Seq<u8>, at: int, v: u32)
    requires
        0 <= at,
        at + 4 <= s.len(),
        s.subrange(at, at + 4) == bytes::le_bytes32(v),
    ensures
        bytes::spec_le32(s, at) == v,
{
    bytes::le32_round_trip(v);
    let b = s.subrange(at, at + 4);
    assert(s[at] == b[0] && s[at + 1] == b[1] && s[at + 2] == b[2] && s[at + 3] == b[3]);
}

proof fn le64_at(s: Seq<u8>, at: int, v: u64)
    requires
        0 <= at,
        at + 8 <= s.len(),
        s.subrange(at, at + 8) == bytes::le_bytes64(v),
    ensures
        bytes::spec_le64(s, at) == v,
{
    let b = bytes::le_bytes64(v);
    let low = (v % 0x1_0000_0000) as u32;
    let high = (v / 0x1_0000_0000) as u32;
    assert(s.subrange(at, at + 4) =~= s.subrange(at, at + 8).subrange(0, 4));
    assert(s.subrange(at + 4, at + 8) =~= s.subrange(at, at + 8).subrange(4, 8));
    assert(b.subrange(0, 4) =~= bytes::le_bytes32(low));
    assert(b.subrange(4, 8) =~= bytes::le_bytes32(high));
    le32_at(s, at, low);
    le32_at(s, at + 4, high);
}

/// A GPT header is read back as it was stored, but for its padding.
pub proof fn header_round_trip(h: HeaderView)
    requires
        header_wf(h),
    ensures
        header_front(h).len() == 92,
        header_of(header_front(h)) == (HeaderView { reserved2: bytes::zeros(420), ..h }),
        header_front(h).subrange(0, 8) == h.signature,
{
    reveal(header_front);
    reveal(header_of);
    let s = header_front(h);
    assert(s.subrange(0, 8) =~= h.signature);
    assert(s.subrange(8, 12) =~= h.revision);
    assert(s.subrange(12, 16) =~= bytes::le_bytes32(h.header_size));
    assert(s.subrange(16, 20) =~= bytes::le_bytes32(h.header_crc32));
    assert(s.subrange(20, 24) =~= h.reserved1);
    assert(s.subrange(24, 32) =~= bytes::le_bytes64(h.efi_start_lba));
    assert(s.subrange(32, 40) =~= bytes::le_bytes64(h.efi_backup_lba));
    assert(s.subrange(40, 48) =~= bytes::le_bytes64(h.part_area_start_lba));
    assert(s.subrange(48, 56) =~= bytes::le_bytes64(h.part_area_end_lba));
    assert(s.subrange(56, 72) =~= h.disk_guid);
    assert(s.subrange(72, 80) =~= bytes::le_bytes64(h.part_table_start_lba));
    assert(s.subrange(80, 84) =~= bytes::le_bytes32(h.part_table_num_entries));
    assert(s.subrange(84, 88) =~= bytes::le_bytes32(h.part_table_entry_size));
    assert(s.subrange(88, 92) =~= bytes::le_bytes32(h.part_table_crc32));
    le32_at(s, 12, h.header_size);
    le32_at(s, 16, h.header_crc32);
    le64_at(s, 24, h.efi_start_lba);
    le64_at(s, 32, h.efi_backup_lba);
    le64_at(s, 40, h.part_area_start_lba);
    le64_at(s, 48, h.part_area_end_lba);
    le64_at(s, 72, h.part_table_start_lba);
    le32_at(s, 80, h.part_table_num_entries);
    le32_at(s, 84, h.part_table_entry_size);
    le32_at(s, 88, h.part_table_crc32);
}

// ---------------------------------------------------------------------------
// Partition table
// ---------------------------------------------------------------------------

/// An entry of a GPT's partition table.
#[derive(Clone, Copy, Debug)]
pub struct GptPartitionEntry {
    pub part_type_guid: Guid,
    pub unique_part_guid: Guid,
    pub start_lba: u64,
    pub end_lba: u64,
    pub attributes: u64,
    pub name: [u16; 36],
}

#[verifier::ext_equal]
pub struct GptEntryView {
    pub part_type_guid: Seq<u8>,
    pub unique_part_guid: Seq<u8>,
    pub start_lba: u64,
    pub end_lba: u64,
    pub attributes: u64,
    pub name: Seq<u16>,
}

impl View for GptPartitionEntry {
    type V = GptEntryView;

    open spec fn view(&self) -> GptEntryView {
        GptEntryView {
            part_type_guid: self.part_type_guid@,
            unique_part_guid: self.unique_part_guid@,
            start_lba: self.start_lba,
            end_lba: self.end_lba,
            attributes: self.attributes,
            name: self.name@,
        }
    }
}

pub open spec fn gpt_entry_wf(e: GptEntryView) -> bool {
    &&& e.part_type_guid.len() == 16
    &&& e.unique_part_guid.len() == 16
    &&& e.name.len() == 36
}

pub open spec fn no_name() -> Seq<u16> {
    Seq::new(36, |i: int| 0u16)
}

pub open spec fn empty_gpt_entry() -> GptEntryView {
    GptEntryView {
        part_type_guid: bytes::zeros(16),
        unique_part_guid: bytes::zeros(16),
        start_lba: 0,
        end_lba: 0,
        attributes: 0,
        name: no_name(),
    }
}

/// A name as stored.
pub open spec fn name_bytes(n: Seq<u16>) -> Seq<u8> {
    Seq::new(
        2 * n.len(),
        |i: int|
            if i % 2 == 0 {
                (n[i / 2] % 256) as u8
            } else {
                (n[i / 2] / 256) as u8
            },
    )
}

/// An entry as stored.
#[verifier::opaque]
pub open spec fn gpt_entry_bytes(e: GptEntryView) -> Seq<u8> {
    e.part_type_guid + e.unique_part_guid + bytes::le_bytes64(e.start_lba) + bytes::le_bytes64(
        e.end_lba,
    ) + bytes::le_bytes64(e.attributes) + name_bytes(e.name)
}

/// The entry that is stored at byte `at`.
pub open spec fn gpt_entry_at(s: Seq<u8>, at: int) -> GptEntryView {
    GptEntryView {
        part_type_guid: s.subrange(at, at + 16),
        unique_part_guid: s.subrange(at + 16, at + 32),
        start_lba: bytes::spec_le64(s, at + 32),
        end_lba: bytes::spec_le64(s, at + 40),
        attributes: bytes::spec_le64(s, at + 48),
        name: Seq::new(36, |i: int| bytes::spec_le16(s, at + 56 + 2 * i)),
    }
}

pub open spec fn table_wf(t: Seq<GptEntryView>) -> bool {
    forall|i: int| 0 <= i < t.len() ==> gpt_entry_wf(#[trigger] t[i])
}

/// A partition table as stored.
#[verifier::opaque]
pub open spec fn table_bytes(t: Seq<GptEntryView>) -> Seq<u8> {
    Seq::new(128 * t.len(), |i: int| gpt_entry_bytes(t[i / 128])[i % 128])
}

/// The partition table that is stored in these bytes.
pub open spec fn table_of(s: Seq<u8>) -> Seq<GptEntryView> {
    Seq::new(GPT_ENTRIES as nat, |i: int| gpt_entry_at(s, 128 * i))
}

pub open spec fn entry_views(p: Seq<GptPartitionEntry>) -> Seq<GptEntryView> {
    Seq::new(p.len(), |i: int| p[i]@)
}

/// An entry takes 128 bytes.
pub proof fn gpt_entry_len(e: GptEntryView)
    requires
        gpt_entry_wf(e),
    ensures
        gpt_entry_bytes(e).len() == 128,
{
    reveal(gpt_entry_bytes);
}

impl GptPartitionEntry {
    pub fn empty() -> (r: Self)
        ensures
            r@ == empty_gpt_entry(),
    {
        let e: GptPartitionEntry = GptPartitionEntry {
            part_type_guid: [0; 16],
            unique_part_guid: [0; 16],
            start_lba: 0,
            end_lba: 0,
            attributes: 0,
            name: [0; 36],
        };
        assert(e@ =~= empty_gpt_entry());
        e
    }

    #[verifier::loop_isolation(false)]
    fn read(s: &[u8], at: usize) -> (r: Self)
        requires
            at + 128 <= s@.len(),
        ensures
            r@ == gpt_entry_at(s@, at as int),
    {
        assert(s.len() <= usize::MAX);
        let mut part_type_guid: [u8; 16] = [0; 16];
        put(&mut part_type_guid, 0, &s[at..at + 16]);
        let mut unique_part_guid: [u8; 16] = [0; 16];
        put(&mut unique_part_guid, 0, &s[at + 16..at + 32]);
        let mut name: [u16; 36] = [0; 36];
        let mut i: usize = 0;
        while i < 36
            invariant
                i <= 36,
                forall|k: int|
                    0 <= k < i ==> #[trigger] name@[k] == bytes::spec_le16(s@, at + 56 + 2 * k),
            decreases 36 - i,
        {
            name[i] = le16(s, at + 56 + 2 * i);
            i += 1;
        }
        let e: GptPartitionEntry = GptPartitionEntry {
            part_type_guid,
            unique_part_guid,
            start_lba: le64(s, at + 32),
            end_lba: le64(s, at + 40),
            attributes: le64(s, at + 48),
            name,
        };
        assert(e@ =~= gpt_entry_at(s@, at as int));
        e
    }

    #[verifier::loop_isolation(false)]
    fn write(&self, out: &mut Vec<u8>)
        ensures
            final(out)@ == old(out)@ + gpt_entry_bytes(self@),
    {
        let ghost before = out@;
        push_all(out, &self.part_type_guid);
        push_all(out, &self.unique_part_guid);
        push_le64(out, self.start_lba);
        push_le64(out, self.end_lba);
        push_le64(out, self.attributes);
        let ghost front = out@;
        let mut i: usize = 0;
        assert(out@ =~= front + name_bytes(self.name@.take(0)));
        while i < 36
            invariant
                i <= 36,
                out@ == front + name_bytes(self.name@.take(i as int)),
            decreases 36 - i,
        {
            push_le16(out, self.name[i]);
            assert(front + name_bytes(self.name@.take(i + 1)) =~= front + name_bytes(
                self.name@.take(i as int),
            ) + bytes::le_bytes16(self.name@[i as int]));
            i += 1;
        }
        assert(self.name@.take(36) =~= self.name@);
        reveal(gpt_entry_bytes);
        assert(out@ =~= before + gpt_entry_bytes(self@));
    }
}

proof fn gpt_entry_shift(s: Seq<u8>, at: int)
    requires
        0 <= at,
        at + 128 <= s.len(),
    ensures
        gpt_entry_at(s, at) == gpt_entry_at(s.subrange(at, at + 128), 0),
{
    let t = s.subrange(at, at + 128);
    assert(forall|k: int| 0 <= k < 128 ==> s[at + k] == #[trigger] t[k]);
    assert(s.subrange(at, at + 16) =~= t.subrange(0, 16));
    assert(s.subrange(at + 16, at + 32) =~= t.subrange(16, 32));
    le64_shift(s, at, 32);
    le64_shift(s, at, 40);
    le64_shift(s, at, 48);
    assert forall|i: int| 0 <= i < 36 implies bytes::spec_le16(s, at + 56 + 2 * i)
        == #[trigger] bytes::spec_le16(t, 56 + 2 * i) by {
        assert(t[56 + 2 * i] == s[at + 56 + 2 * i]);
        assert(t[57 + 2 * i] == s[at + 57 + 2 * i]);
    }
    assert(gpt_entry_at(s, at).name =~= gpt_entry_at(t, 0).name) by {
        assert forall|i: int| 0 <= i < 36 implies gpt_entry_at(s, at).name[i] == gpt_entry_at(
            t,
            0,
        ).name[i] by {
            assert(bytes::spec_le16(s, at + 56 + 2 * i) == bytes::spec_le16(t, 56 + 2 * i));
        }
    }
}

proof fn le64_shift(s: Seq<u8>, at: int, off: int)
    requires
        0 <= at,
        at + 128 <= s.len(),
        0 <= off,
        off + 8 <= 128,
    ensures
        bytes::spec_le64(s, at + off) == bytes::spec_le64(s.subrange(at, at + 128), off),
{
    let t = s.subrange(at, at + 128);
    assert(t[off] == s[at + off] && t[off + 1] == s[at + off + 1] && t[off + 2] == s[at + off + 2]
        && t[off + 3] == s[at + off + 3]);
    assert(t[off + 4] == s[at + off + 4] && t[off + 5] == s[at + off + 5] && t[off + 6] == s[at
        + off + 6] && t[off + 7] == s[at + off + 7]);
}

proof fn name_round_trip(e: GptEntryView)
    requires
        gpt_entry_wf(e),
    ensures
        gpt_entry_at(gpt_entry_bytes(e), 0).name == e.name,
{
    reveal(gpt_entry_bytes);
    let b = gpt_entry_bytes(e);
    let n = name_bytes(e.name);
    assert forall|i: int| 0 <= i < 36 implies #[trigger] gpt_entry_at(b, 0).name[i] == e.name[i] by {
        assert(b[56 + 2 * i] == n[2 * i]);
        assert(b[57 + 2 * i] == n[2 * i + 1]);
        bytes::le16_round_trip(e.name[i]);
    }
    assert(gpt_entry_at(b, 0).name =~= e.name);
}

proof fn numbers_round_trip(e: GptEntryView)
    requires
        gpt_entry_wf(e),
    ensures
        ({
            let b = gpt_entry_bytes(e);
            &&& bytes::spec_le64(b, 32) == e.start_lba
            &&& bytes::spec_le64(b, 40) == e.end_lba
            &&& bytes::spec_le64(b, 48) == e.attributes
        }),
{
    let b = gpt_entry_bytes(e);
    gpt_entry_len(e);
    assert(b.subrange(32, 40) =~= bytes::le_bytes64(e.start_lba)) by {
        reveal(gpt_entry_bytes);
    }
    assert(b.subrange(40, 48) =~= bytes::le_bytes64(e.end_lba)) by {
        reveal(gpt_entry_bytes);
    }
    assert(b.subrange(48, 56) =~= bytes::le_bytes64(e.attributes)) by {
        reveal(gpt_entry_bytes);
    }
    le64_at(b, 32, e.start_lba);
    le64_at(b, 40, e.end_lba);
    le64_at(b, 48, e.attributes);
}

proof fn guids_round_trip(e: GptEntryView)
    requires
        gpt_entry_wf(e),
    ensures
        gpt_entry_bytes(e).subrange(0, 16) == e.part_type_guid,
        gpt_entry_bytes(e).subrange(16, 32) == e.unique_part_guid,
{
    reveal(gpt_entry_bytes);
    assert(gpt_entry_bytes(e).subrange(0, 16) =~= e.part_type_guid);
    assert(gpt_entry_bytes(e).subrange(16, 32) =~= e.unique_part_guid);
}

/// An entry is read back as it was stored.
pub proof fn gpt_entry_round_trip(s: Seq<u8>, at: int, e: GptEntryView)
    requires
        0 <= at,
        at + 128 <= s.len(),
        gpt_entry_wf(e),
        s.subrange(at, at + 128) == gpt_entry_bytes(e),
    ensures
        gpt_entry_at(s, at) == e,
{
    gpt_entry_shift(s, at);
    name_round_trip(e);
    numbers_round_trip(e);
    guids_round_trip(e);
}

/// A partition table is read back as it was stored.
pub proof fn table_round_trip(t: Seq<GptEntryView>)
    requires
        t.len() == GPT_ENTRIES,
        table_wf(t),
    ensures
        table_bytes(t).len() == GPT_TABLE_BYTES,
        table_of(table_bytes(t)) == t,
{
    reveal(table_bytes);
    let s = table_bytes(t);
    assert forall|i: int| 0 <= i < 128 implies #[trigger] table_of(s)[i] == t[i] by {
        gpt_entry_len(t[i]);
        assert(s.subrange(128 * i, 128 * i + 128) =~= gpt_entry_bytes(t[i])) by {
            assert forall|k: int| 0 <= k < 128 implies s[128 * i + k] == gpt_entry_bytes(t[i])[k] by {
                assert((128 * i + k) / 128 == i);
                assert((128 * i + k) % 128 == k);
            }
        }
        gpt_entry_round_trip(s, 128 * i, t[i]);
    }
    assert(table_of(s) =~= t);
}

// ---------------------------------------------------------------------------
// The whole GPT
// ---------------------------------------------------------------------------

/// A GPT: its protective MBR, its header and its partition table.
#[derive(Clone, Copy, Debug)]
pub struct GptInfo {
    pub protective_mbr: Mbr,
    pub header: GptHeader,
    pub partitions: [GptPartitionEntry; 128],
}

#[verifier::ext_equal]
pub struct GptView {
    pub mbr: MbrView,
    pub header: HeaderView,
    pub partitions: Seq<GptEntryView>,
}

impl View for GptInfo {
    type V = GptView;

    open spec fn view(&self) -> GptView {
        GptView {
            mbr: self.protective_mbr@,
            header: self.header@,
            partitions: entry_views(self.partitions@),
        }
    }
}

pub open spec fn gpt_wf(g: GptView) -> bool {
    &&& mbr_wf(g.mbr)
    &&& header_wf(g.header)
    &&& g.partitions.len() == GPT_ENTRIES
    &&& table_wf(g.partitions)
}

/// The views of a GPT have their proper sizes.
pub proof fn gpt_is_wf(g: GptInfo)
    ensures
        gpt_wf(g@),
{
}

/// Where a sector starts.
pub open spec fn sector_at(lba: u64) -> u64 {
    chain::wrap64(lba * SECTOR_SIZE)
}

pub fn sector_offset(lba: u64) -> (r: u64)
    ensures
        r == sector_at(lba),
{
    ((lba as u128 * 512) % WORD) as u64
}

/// How far a GPT has been read.
pub enum GptRead {
    Mbr,
    Header { mbr: Mbr },
    Table { mbr: Mbr, header: GptHeader },
    Done(GptInfo),
    Failed(ChoosableError),
}

pub enum GptReadView {
    Mbr,
    Header { mbr: MbrView },
    Table { mbr: MbrView, header: HeaderView },
    Done(GptView),
    Failed(ErrorView),
}

impl View for GptRead {
    type V = GptReadView;

    open spec fn view(&self) -> GptReadView {
        match *self {
            GptRead::Mbr => GptReadView::Mbr,
            GptRead::Header { mbr } => GptReadView::Header { mbr: mbr@ },
            GptRead::Table { mbr, header } => GptReadView::Table { mbr: mbr@, header: header@ },
            GptRead::Done(g) => GptReadView::Done(g@),
            GptRead::Failed(e) => GptReadView::Failed(e@),
        }
    }
}

/// Where on the disk the next bytes are to be read, and how many.
pub open spec fn gpt_wanted(r: GptReadView) -> Option<(u64, usize)> {
    match r {
        GptReadView::Mbr => Some((0u64, 512usize)),
        GptReadView::Header { .. } => Some((512u64, 92usize)),
        GptReadView::Table { header, .. } => Some(
            (sector_at(header.part_table_start_lba), GPT_TABLE_BYTES),
        ),
        _ => None,
    }
}

/// The state after the bytes that were wanted.
pub open spec fn gpt_next(r: GptReadView, data: Seq<u8>) -> GptReadView {
    match r {
        GptReadView::Mbr => match mbr_read(data) {
            Ok(mbr) => GptReadView::Header { mbr },
            Err(e) => GptReadView::Failed(e),
        },
        GptReadView::Header { mbr } => match header_read(data) {
            Ok(header) => GptReadView::Table { mbr, header },
            Err(e) => GptReadView::Failed(e),
        },
        GptReadView::Table { mbr, header } => GptReadView::Done(
            GptView { mbr, header, partitions: table_of(data) },
        ),
        _ => r,
    }
}

/// The GPT of a disk.
pub open spec fn gpt_of(disk: Seq<u8>) -> std::result::Result<GptView, ErrorView> {
    match mbr_read(disk.subrange(0, 512)) {
        Err(e) => Err(e),
        Ok(mbr) => match header_read(disk.subrange(512, 604)) {
            Err(e) => Err(e),
            Ok(header) => {
                let at = sector_at(header.part_table_start_lba) as int;
                Ok(
                    GptView {
                        mbr,
                        header,
                        partitions: table_of(disk.subrange(at, at + GPT_TABLE_BYTES)),
                    },
                )
            },
        },
    }
}

impl GptRead {
    pub fn wanted(&self) -> (r: Option<(u64, usize)>)
        ensures
            r == gpt_wanted(self@),
    {
        match self {
            GptRead::Mbr => Some((0, 512)),
            GptRead::Header { .. } => Some((512, 92)),
            GptRead::Table { header, .. } => Some(
                (sector_offset(header.part_table_start_lba), GPT_TABLE_BYTES),
            ),
            _ => None,
        }
    }
}

#[verifier::loop_isolation(false)]
fn read_table(data: &[u8]) -> (r: [GptPartitionEntry; 128])
    requires
        data@.len() == GPT_TABLE_BYTES,
    ensures
        entry_views(r@) == table_of(data@),
{
    let empty: GptPartitionEntry = GptPartitionEntry::empty();
    let mut partitions: [GptPartitionEntry; 128] = [empty; 128];
    let mut i: usize = 0;
    while i < 128
        invariant
            i <= 128,
            forall|k: int| 0 <= k < i ==> (#[trigger] partitions@[k])@ == gpt_entry_at(data@, 128 * k),
        decreases 128 - i,
    {
        partitions[i] = GptPartitionEntry::read(data, 128 * i);
        i += 1;
    }
    assert(entry_views(partitions@) =~= table_of(data@));
    partitions
}

/// The stored bytes of a partition table.
#[verifier::loop_isolation(false)]
pub fn write_table(partitions: &[GptPartitionEntry; 128]) -> (r: Vec<u8>)
    ensures
        r@ == table_bytes(entry_views(partitions@)),
        r@.len() == GPT_TABLE_BYTES,
{
    let ghost all = entry_views(partitions@);
    let mut out: Vec<u8> = Vec::new();
    let mut i: usize = 0;
    reveal(table_bytes);
    assert(out@ =~= table_bytes(all.take(0)));
    while i < 128
        invariant
            i <= 128,
            out@ == table_bytes(all.take(i as int)),
        decreases 128 - i,
    {
        partitions[i].write(&mut out);
        proof {
            gpt_entry_len(all[i as int]);
            let whole = table_bytes(all.take(i + 1));
            assert forall|k: int| 0 <= k < whole.len() implies whole[k] == (table_bytes(
                all.take(i as int),
            ) + gpt_entry_bytes(all[i as int]))[k] by {
                if k >= 128 * i {
                    assert(k / 128 == i);
                    assert(k % 128 == k - 128 * i);
                } else {
                    assert(k / 128 < i);
                }
            }
            assert(whole =~= table_bytes(all.take(i as int)) + gpt_entry_bytes(all[i as int]));
        }
        i += 1;
    }
    assert(all.take(128) =~= all);
    out
}

/// The writes that put a GPT on a disk: at its front, and its header and table
/// once more at the end.
pub open spec fn gpt_writes(g: GptView) -> Seq<WriteView> {
    let backup = g.header.efi_backup_lba;
    seq![
        disk_io::write_at(0, mbr_bytes(g.mbr)),
        disk_io::write_at(512, header_front(g.header)),
        disk_io::write_at(g.header.part_table_start_lba * 512, table_bytes(g.partitions)),
        disk_io::write_at(backup * 512, header_front(g.header)),
        disk_io::write_at((backup - 32) * 512, table_bytes(g.partitions)),
    ]
}

/// Whether the places that a header names can be addressed in bytes, and there
/// is room for the second table before the second header.
pub open spec fn addressable(h: HeaderView) -> bool {
    &&& h.part_table_start_lba * 512 <= u64::MAX
    &&& 32 <= h.efi_backup_lba
    &&& h.efi_backup_lba * 512 <= u64::MAX
}

pub open spec fn protective_entry() -> PartitionTableEntry {
    PartitionTableEntry {
        fs_flag: PART_TYPE_GPT_PROTECTIVE,
        start_lba: 1,
        sector_count: 0xFFFF_FFFF,
        ..empty_entry()
    }
}

pub open spec fn protective_mbr() -> MbrView {
    MbrView {
        partitions: seq![protective_entry(), empty_entry(), empty_entry(), empty_entry()],
        ..empty_mbr()
    }
}

/// The data partition of a new GPT.
pub open spec fn data_entry(guid: Seq<u8>, end: int) -> GptEntryView {
    GptEntryView {
        part_type_guid: GPT_TYPE_BASIC_DATA@,
        unique_part_guid: guid,
        start_lba: CHOOSABLE_PART1_START_SECTOR,
        end_lba: end as u64,
        attributes: 0,
        name: GPT_PART1_NAME@,
    }
}

/// The EFI partition of a new GPT.
pub open spec fn efi_entry(guid: Seq<u8>, start: int, name: Seq<u16>) -> GptEntryView {
    GptEntryView {
        part_type_guid: GPT_TYPE_EFI_SYSTEM@,
        unique_part_guid: guid,
        start_lba: start as u64,
        end_lba: (start + 65536 - 1) as u64,
        attributes: GPT_ATTR_VTOYEFI,
        name,
    }
}

/// The partition table of two partitions.
pub open spec fn two_entries(a: GptEntryView, b: GptEntryView) -> Seq<GptEntryView> {
    Seq::new(
        GPT_ENTRIES as nat,
        |i: int|
            if i == 0 {
                a
            } else if i == 1 {
                b
            } else {
                empty_gpt_entry()
            },
    )
}

/// A new GPT on a disk of `total` sectors: the EFI partition, of the name given,
/// before the second header and table, and the data partition before that.
pub open spec fn new_gpt(
    total: int,
    disk_guid: Seq<u8>,
    guid1: Seq<u8>,
    guid2: Seq<u8>,
    name: Seq<u16>,
) -> GptView {
    let part1_end = total - 65536 - 34;
    GptView {
        mbr: protective_mbr(),
        header: new_header(total, disk_guid),
        partitions: two_entries(
            data_entry(guid1, part1_end - 1),
            efi_entry(guid2, part1_end, name),
        ),
    }
}

impl GptInfo {
    /// Takes in the bytes that were wanted.
    pub fn read_from_disk(step: GptRead, data: &[u8]) -> (r: GptRead)
        requires
            gpt_wanted(step@) matches Some((at, n)) ==> data@.len() == n,
        ensures
            r@ == gpt_next(step@, data@),
    {
        match step {
            GptRead::Mbr => {
                let mut buf: [u8; 512] = [0; 512];
                put(&mut buf, 0, data);
                assert(buf@ =~= data@);
                match Mbr::read(&buf) {
                    Ok(mbr) => GptRead::Header { mbr },
                    Err(e) => GptRead::Failed(e),
                }
            },
            GptRead::Header { mbr } => {
                let mut buf: [u8; 92] = [0; 92];
                put(&mut buf, 0, data);
                assert(buf@ =~= data@);
                match GptHeader::read(&buf) {
                    Ok(header) => GptRead::Table { mbr, header },
                    Err(e) => GptRead::Failed(e),
                }
            },
            GptRead::Table { mbr, header } => GptRead::Done(
                GptInfo { protective_mbr: mbr, header, partitions: read_table(data) },
            ),
            other => other,
        }
    }

    /// A new GPT whose EFI partition bears the name given, without its checksums.
    fn new_named(
        disk_size_bytes: u64,
        disk_guid: Guid,
        guid1: Guid,
        guid2: Guid,
        name: [u16; 36],
    ) -> (r: Self)
        requires
            disk_size_bytes / SECTOR_SIZE > 65536 + 34,
        ensures
            r@ == new_gpt(
                (disk_size_bytes / SECTOR_SIZE) as int,
                disk_guid@,
                guid1@,
                guid2@,
                name@,
            ),
    {
        let mut protective_mbr: Mbr = Mbr::new_empty();
        let mut first: PartitionTableEntry = PartitionTableEntry::empty();
        first.fs_flag = PART_TYPE_GPT_PROTECTIVE;
        first.start_lba = 1;
        first.sector_count = 0xFFFF_FFFF;
        protective_mbr.partitions[0] = first;
        assert(protective_mbr@.partitions =~= self::protective_mbr().partitions);
        let header: GptHeader = GptHeader::new(disk_size_bytes, disk_guid);
        let efi_part_size_sectors: u64 = CHOOSABLE_EFI_PART_SIZE / SECTOR_SIZE;
        let part1_end: u64 = disk_size_bytes / SECTOR_SIZE - efi_part_size_sectors - 34;
        let empty: GptPartitionEntry = GptPartitionEntry::empty();
        let mut partitions: [GptPartitionEntry; 128] = [empty; 128];
        partitions[0] = GptPartitionEntry {
            part_type_guid: GPT_TYPE_BASIC_DATA,
            unique_part_guid: guid1,
            start_lba: CHOOSABLE_PART1_START_SECTOR,
            end_lba: part1_end - 1,
            attributes: 0,
            name: GPT_PART1_NAME,
        };
        partitions[1] = GptPartitionEntry {
            part_type_guid: GPT_TYPE_EFI_SYSTEM,
            unique_part_guid: guid2,
            start_lba: part1_end,
            end_lba: part1_end + (efi_part_size_sectors - 1),
            attributes: GPT_ATTR_VTOYEFI,
            name,
        };
        let g: GptInfo = GptInfo { protective_mbr, header, partitions };
        assert(g@.partitions =~= new_gpt(
            (disk_size_bytes / SECTOR_SIZE) as int,
            disk_guid@,
            guid1@,
            guid2@,
            name@,
        ).partitions);
        g
    }

    /// A new GPT whose EFI partition is named "VTOYEFI", without its checksums.
    pub fn new_ventoy(disk_size_bytes: u64, disk_guid: Guid, guid1: Guid, guid2: Guid) -> (r: Self)
        requires
            disk_size_bytes / SECTOR_SIZE > 65536 + 34,
        ensures
            r@ == new_gpt(
                (disk_size_bytes / SECTOR_SIZE) as int,
                disk_guid@,
                guid1@,
                guid2@,
                GPT_PART2_NAME@,
            ),
    {
        GptInfo::new_named(disk_size_bytes, disk_guid, guid1, guid2, GPT_PART2_NAME)
    }

    /// A new GPT whose EFI partition is named "CZBLEFI", by which an installation
    /// is known again, without its checksums.
    pub fn new_choosable(
        disk_size_bytes: u64,
        disk_guid: Guid,
        guid1: Guid,
        guid2: Guid,
    ) -> (r: Self)
        requires
            disk_size_bytes / SECTOR_SIZE > 65536 + 34,
        ensures
            r@ == new_gpt(
                (disk_size_bytes / SECTOR_SIZE) as int,
                disk_guid@,
                guid1@,
                guid2@,
                GPT_PART1_NAME@,
            ),
    {
        GptInfo::new_named(disk_size_bytes, disk_guid, guid1, guid2, GPT_PART1_NAME)
    }

    /// The writes that put the GPT on a disk.
    pub fn write_to_disk(&self) -> (r: Vec<DiskWrite>)
        requires
            addressable(self@.header),
        ensures
            disk_io::views(r@) == gpt_writes(self@),
    {
        let backup: u64 = self.header.efi_backup_lba;
        let mut out: Vec<DiskWrite> = Vec::new();
        assert(disk_io::views(out@) =~= Seq::empty());
        push_write(&mut out, 0, self.protective_mbr.write());
        push_write(&mut out, 512, self.header.write());
        push_write(
            &mut out,
            self.header.part_table_start_lba * 512,
            write_table(&self.partitions),
        );
        push_write(&mut out, backup * 512, self.header.write());
        push_write(&mut out, (backup - 32) * 512, write_table(&self.partitions));
        assert(disk_io::views(out@) =~= gpt_writes(self@));
        out
    }
}

/// Reading a GPT step by step gives the GPT of the disk.
pub proof fn reading_gives_gpt(disk: Seq<u8>)
    requires
        disk.len() >= 604,
    ensures
        ({
            let first = gpt_next(GptReadView::Mbr, disk.subrange(0, 512));
            match gpt_of(disk) {
                Err(e) => first == GptReadView::Failed(e) || gpt_next(
                    first,
                    disk.subrange(512, 604),
                ) == GptReadView::Failed(e),
                Ok(g) => {
                    let second = gpt_next(first, disk.subrange(512, 604));
                    let at = sector_at(g.header.part_table_start_lba) as int;
                    gpt_next(second, disk.subrange(at, at + GPT_TABLE_BYTES)) == GptReadView::Done(
                        g,
                    )
                },
            }
        }),
{
}

/// Whether a header keeps a GPT's places apart on a disk of `len` bytes: the
/// first table behind the first header, the second table and header behind
/// that.
pub open spec fn places_apart(h: HeaderView, len: int) -> bool {
    &&& 2 <= h.part_table_start_lba
    &&& h.part_table_start_lba + 32 <= h.efi_backup_lba - 32
    &&& h.efi_backup_lba * 512 + 512 <= len
    &&& len <= u64::MAX
}

/// The front of a disk that a GPT was written to.
pub proof fn gpt_front_written(disk: Seq<u8>, g: GptView)
    requires
        gpt_wf(g),
        places_apart(g.header, disk.len() as int),
    ensures
        ({
            let after = disk_io::applied(disk, gpt_writes(g));
            let start = g.header.part_table_start_lba * 512;
            &&& after.len() == disk.len()
            &&& after.subrange(0, 512) == mbr_bytes(g.mbr)
            &&& after.subrange(512, 604) == header_front(g.header)
            &&& after.subrange(start, start + GPT_TABLE_BYTES) == table_bytes(g.partitions)
        }),
{
    let w = gpt_writes(g);
    mbr_round_trip(g.mbr);
    header_round_trip(g.header);
    table_round_trip(g.partitions);
    gpt_writes_apart(g);
    disk_io::applied_len(disk, w);
    disk_io::written_stays(disk, w, 0);
    disk_io::written_stays(disk, w, 1);
    disk_io::written_stays(disk, w, 2);
}

/// A GPT that was written to a disk is read back from it, but for the padding
/// of its header.
pub proof fn gpt_round_trip(disk: Seq<u8>, g: GptView)
    requires
        gpt_wf(g),
        places_apart(g.header, disk.len() as int),
        g.header.signature == GPT_SIGNATURE@,
        g.mbr.signature_55 == MBR_SIGNATURE_55,
        g.mbr.signature_aa == MBR_SIGNATURE_AA,
    ensures
        gpt_of(disk_io::applied(disk, gpt_writes(g))) == Ok::<GptView, ErrorView>(
            GptView {
                header: HeaderView { reserved2: bytes::zeros(420), ..g.header },
                ..g
            },
        ),
{
    let after = disk_io::applied(disk, gpt_writes(g));
    let start = g.header.part_table_start_lba * 512;
    let header = HeaderView { reserved2: bytes::zeros(420), ..g.header };
    assert({
        &&& after.subrange(0, 512) == mbr_bytes(g.mbr)
        &&& after.subrange(512, 604) == header_front(g.header)
        &&& after.subrange(start, start + GPT_TABLE_BYTES) == table_bytes(g.partitions)
    }) by {
        gpt_front_written(disk, g);
    }
    assert(mbr_read(mbr_bytes(g.mbr)) == Ok::<MbrView, ErrorView>(g.mbr)) by {
        mbr_round_trip(g.mbr);
    }
    assert(header_read(header_front(g.header)) == Ok::<HeaderView, ErrorView>(header)) by {
        header_round_trip(g.header);
    }
    assert(table_of(table_bytes(g.partitions)) == g.partitions) by {
        table_round_trip(g.partitions);
    }
}

/// The places that a GPT is written to do not overlap.
proof fn gpt_writes_apart(g: GptView)
    requires
        gpt_wf(g),
        2 <= g.header.part_table_start_lba,
        g.header.part_table_start_lba + 32 <= g.header.efi_backup_lba - 32,
    ensures
        ({
            let w = gpt_writes(g);
            &&& disk_io::all_spare(w.skip(1), 0, 512)
            &&& disk_io::all_spare(w.skip(2), 512, 604)
            &&& disk_io::all_spare(
                w.skip(3),
                g.header.part_table_start_lba * 512,
                g.header.part_table_start_lba * 512 + GPT_TABLE_BYTES,
            )
        }),
{
    let w = gpt_writes(g);
    mbr_round_trip(g.mbr);
    header_round_trip(g.header);
    table_round_trip(g.partitions);
    assert(w.skip(1) =~= seq![w[1], w[2], w[3], w[4]]);
    assert(w.skip(2) =~= seq![w[2], w[3], w[4]]);
    assert(w.skip(3) =~= seq![w[3], w[4]]);
}

// ---------------------------------------------------------------------------
// GUIDs
// ---------------------------------------------------------------------------

/// The bits of `n` from `1 << 8 * k` on, as far as a byte goes.
pub open spec fn low_byte(n: int) -> u8 {
    (n % 256) as u8
}

/// The GUID that is made from a time in nanoseconds.
pub open spec fn guid_of(nanos: u128) -> Seq<u8> {
    let n = nanos as int;
    seq![
        low_byte(n),
        low_byte(n / 0x100),
        low_byte(n / 0x1_0000),
        low_byte(n / 0x100_0000),
        low_byte(n / 0x1_0000_0000),
        low_byte(n / 0x100_0000_0000),
        low_byte(n / 0x1_0000_0000_0000),
        low_byte(n / 0x100_0000_0000_0000),
        (0x80 + n / 0x10 % 64) as u8,
        low_byte(n / 0x400),
        (0x40 + n / 0x1_0000 % 16) as u8,
        low_byte(n / 0x40_0000),
        low_byte(n / 0x1000_0000),
        low_byte(n / 0x4_0000_0000),
        low_byte(n / 0x100_0000_0000),
        low_byte(n / 0x4000_0000_0000),
    ]
}

/// The GUID that is made from a time in nanoseconds.
pub fn generate_guid(nanos: u128) -> (r: Guid)
    ensures
        r@ == guid_of(nanos),
{
    let guid: Guid = [
        (nanos % 256) as u8,
        (nanos / 0x100 % 256) as u8,
        (nanos / 0x1_0000 % 256) as u8,
        (nanos / 0x100_0000 % 256) as u8,
        (nanos / 0x1_0000_0000 % 256) as u8,
        (nanos / 0x100_0000_0000 % 256) as u8,
        (nanos / 0x1_0000_0000_0000 % 256) as u8,
        (nanos / 0x100_0000_0000_0000 % 256) as u8,
        (0x80 + nanos / 0x10 % 64) as u8,
        (nanos / 0x400 % 256) as u8,
        (0x40 + nanos / 0x1_0000 % 16) as u8,
        (nanos / 0x40_0000 % 256) as u8,
        (nanos / 0x1000_0000 % 256) as u8,
        (nanos / 0x4_0000_0000 % 256) as u8,
        (nanos / 0x100_0000_0000 % 256) as u8,
        (nanos / 0x4000_0000_0000 % 256) as u8,
    ];
    assert(guid@ =~= guid_of(nanos));
    guid
}

/// A generated GUID bears its variant and version, so it is never the GUID of
/// an unused entry.
pub proof fn generated_guid_is_used(nanos: u128)
    ensures
        0x80 <= guid_of(nanos)[8] < 0xC0,
        0x40 <= guid_of(nanos)[10] < 0x50,
        guid_of(nanos) != bytes::zeros(16),
{
    assert(guid_of(nanos)[8] != bytes::zeros(16)[8]);
}

} // verus!
