//! The stages of a UEFI boot and the pipeline that runs them. A stage that
//! needs the disk says which sector it wants and is handed that sector.

use vstd::prelude::*;
use crate::bpb;
use crate::bpb::{FatLayout, NtfsFault, NtfsLayout};
use crate::bytes;
use crate::bytes::le32;
use crate::efi::boot_context;
use crate::efi::boot_context::BootContext;
use crate::efi::disk;
use crate::efi::disk::{find_gpt_data_partition, read_mbr_guid};
use crate::efi::fs;
use crate::efi::fs::{
    scan_directory, FsCtx, FsType, IsoEntry, PayloadEntry, PAYLOAD_SLOT_COUNT,
};
use crate::efi::iso;
use crate::efi::iso::{menu_key, MenuAction};
use crate::efi::protocol::{GuidView, Key};
use crate::gpt_search;
use crate::gpt_search::{Search, SearchView, Target};
use crate::scan::chain;
use crate::scan::dir;
use crate::scan::dir::{DirScan, Reader, ScanAction, VolumeKind};
use crate::scan::found;
use crate::scan::found::FileView;

verus! {

#[derive(Clone, Copy, PartialEq, Eq, Structural, Debug)]
pub enum StageResult {
    Continue,
    Halt,
}

/// Why a boot cannot go on.
#[derive(Clone, Copy, PartialEq, Eq, Structural, Debug)]
pub enum BootError {
    MbrUnreadable,
    NoPartition,
    PartitionUnreadable,
    UnknownFilesystem,
    InvalidClusterShift,
    InvalidSectorsPerCluster,
    InvalidMftRecordSize,
    NoPayloads,
    InvalidSelection,
}

/// What a stage does next.
#[derive(Clone, Copy, PartialEq, Eq, Structural, Debug)]
pub enum StageStep {
    ReadSector(u64),
    Finished(StageResult),
    Fatal(BootError),
}

// ---------------------------------------------------------------------------
// The disk
// ---------------------------------------------------------------------------

/// Picks the disk to boot from.
pub struct DiscoverDiskStage;

impl DiscoverDiskStage {
    /// Takes the medium of the first whole disk among the block devices. A
    /// device comes with its logical-partition flag and medium number, or
    /// `None` where it has no usable medium.
    pub fn execute(&self, ctx: &mut BootContext, flags: &[Option<u8>], media: &[u32]) -> (r: Option<
        usize,
    >)
        requires
            flags@.len() == media@.len(),
        ensures
            match r {
                Some(i) => {
                    &&& i < flags@.len()
                    &&& flags@[i as int] == Some(0u8)
                    &&& forall|j: int| 0 <= j < i ==> flags@[j] != Some(0u8)
                    &&& *final(ctx) == (BootContext { media_id: media@[i as int], ..*old(ctx) })
                },
                None => {
                    &&& forall|j: int| 0 <= j < flags@.len() ==> flags@[j] != Some(0u8)
                    &&& *final(ctx) == *old(ctx)
                },
            },
    {
        let found: Option<usize> = disk::find_disk_handle(flags);
        if let Some(i) = found {
            ctx.media_id = media[i];
        }
        found
    }
}

// ---------------------------------------------------------------------------
// The partition
// ---------------------------------------------------------------------------

/// The first sector of partition `i` of an MBR.
pub open spec fn mbr_start(mbr: Seq<u8>, i: int) -> u32 {
    bytes::spec_le32(mbr, 446 + i * 16 + 8)
}

pub open spec fn mbr_sectors(mbr: Seq<u8>, i: int) -> u32 {
    bytes::spec_le32(mbr, 446 + i * 16 + 12)
}

pub open spec fn mbr_protective(mbr: Seq<u8>, i: int) -> bool {
    mbr[446 + i * 16 + 4] == 0xEE
}

/// The start of the first partition from `i` on that is in use and is not a
/// GPT placeholder; 0 where there is none.
pub open spec fn first_partition(mbr: Seq<u8>, i: int) -> u64
    decreases 4 - i,
{
    if i >= 4 {
        0
    } else if mbr_sectors(mbr, i) > 0 && !mbr_protective(mbr, i) {
        mbr_start(mbr, i) as u64
    } else {
        first_partition(mbr, i + 1)
    }
}

/// The number of that partition, which counts table entries from 1.
pub open spec fn first_number(mbr: Seq<u8>, i: int) -> u32
    decreases 4 - i,
{
    if i >= 4 {
        0
    } else if mbr_sectors(mbr, i) > 0 && !mbr_protective(mbr, i) {
        (i + 1) as u32
    } else {
        first_number(mbr, i + 1)
    }
}

/// Whether a GPT placeholder stands before the first other partition.
pub open spec fn placeholder_first(mbr: Seq<u8>, i: int) -> bool
    decreases 4 - i,
{
    if i >= 4 || mbr_sectors(mbr, i) > 0 && !mbr_protective(mbr, i) {
        false
    } else {
        mbr_sectors(mbr, i) > 0 && mbr_protective(mbr, i) || placeholder_first(mbr, i + 1)
    }
}

#[verifier::loop_isolation(false)]
fn read_mbr(mbr: &[u8; 512]) -> (r: (u64, u32, bool))
    ensures
        r.0 == first_partition(mbr@, 0),
        r.1 == first_number(mbr@, 0),
        r.2 == placeholder_first(mbr@, 0),
{
    let mut gpt: bool = false;
    let mut i: usize = 0;
    while i < 4
        invariant
            i <= 4,
            first_partition(mbr@, 0) == first_partition(mbr@, i as int),
            first_number(mbr@, 0) == first_number(mbr@, i as int),
            placeholder_first(mbr@, 0) == (gpt || placeholder_first(mbr@, i as int)),
        decreases 4 - i,
    {
        let off: usize = 446 + i * 16;
        let protective: bool = mbr[off + 4] == 0xEE;
        if le32(mbr, off + 12) > 0 {
            if !protective {
                return (le32(mbr, off + 8) as u64, (i + 1) as u32, gpt);
            }
            gpt = true;
        }
        i += 1;
    }
    (0, 0, gpt)
}

#[derive(Clone, Copy)]
pub enum PartitionStep {
    Mbr,
    Gpt(Search),
    Vbr(u64),
}

pub enum PartitionStepView {
    Mbr,
    Gpt(SearchView),
    Vbr(u64),
}

/// Finds the data partition and the filesystem on it.
pub struct DiscoverPartitionStage {
    pub step: PartitionStep,
}

impl View for DiscoverPartitionStage {
    type V = PartitionStepView;

    open spec fn view(&self) -> PartitionStepView {
        match self.step {
            PartitionStep::Mbr => PartitionStepView::Mbr,
            PartitionStep::Gpt(s) => PartitionStepView::Gpt(s@),
            PartitionStep::Vbr(lba) => PartitionStepView::Vbr(lba),
        }
    }
}

/// What the stage learns of the partition besides where it starts.
pub struct Identity {
    pub guid: GuidView,
    pub number: u32,
    pub is_mbr: bool,
}

/// What a step of the stage comes to: the step after it, what it does next,
/// and the partition's identity or type where it learnt them.
pub struct PartitionOutcome {
    pub step: PartitionStepView,
    pub action: StageStep,
    pub identity: Option<Identity>,
    pub fs: Option<FsType>,
}

pub open spec fn fatal(step: PartitionStepView, e: BootError) -> PartitionOutcome {
    PartitionOutcome { step, action: StageStep::Fatal(e), identity: None, fs: None }
}

pub open spec fn fs_type_of(kind: VolumeKind) -> FsType {
    match kind {
        VolumeKind::Exfat => FsType::Exfat,
        VolumeKind::Fat32 => FsType::Fat32,
        VolumeKind::Ntfs => FsType::Ntfs,
    }
}

/// The stage after it was handed the sector it wanted, or `None` where that
/// sector cannot be read. An MBR partition is taken first; a GPT is searched
/// for a basic data partition only where the MBR has none.
pub open spec fn partition_next(step: PartitionStepView, sector: Option<Seq<u8>>) -> PartitionOutcome {
    match step {
        PartitionStepView::Mbr => match sector {
            None => fatal(step, BootError::MbrUnreadable),
            Some(mbr) => {
                let lba = first_partition(mbr, 0);
                if lba != 0 {
                    PartitionOutcome {
                        step: PartitionStepView::Vbr(lba),
                        action: StageStep::ReadSector(lba),
                        identity: Some(
                            Identity {
                                guid: disk::mbr_guid(mbr),
                                number: first_number(mbr, 0),
                                is_mbr: true,
                            },
                        ),
                        fs: None,
                    }
                } else if placeholder_first(mbr, 0) {
                    PartitionOutcome {
                        step: PartitionStepView::Gpt(SearchView::Header { needed: 40 }),
                        action: StageStep::ReadSector(1),
                        identity: None,
                        fs: None,
                    }
                } else {
                    fatal(step, BootError::NoPartition)
                }
            },
        },
        PartitionStepView::Gpt(search) => {
            let next = gpt_search::search_next(Target::BasicData, search, sector);
            match (next, gpt_search::search_wanted(next)) {
                (SearchView::Found { index, at, sector }, _) => {
                    let lba = bytes::spec_le64(sector, at + 32);
                    let identity = Some(
                        Identity {
                            guid: disk::guid_at(sector, at + 16),
                            number: (index + 1) as u32,
                            is_mbr: false,
                        },
                    );
                    PartitionOutcome {
                        step: if lba == 0 {
                            PartitionStepView::Gpt(next)
                        } else {
                            PartitionStepView::Vbr(lba)
                        },
                        action: if lba == 0 {
                            StageStep::Fatal(BootError::NoPartition)
                        } else {
                            StageStep::ReadSector(lba)
                        },
                        identity,
                        fs: None,
                    }
                },
                (_, ScanAction::ReadSector(lba)) => PartitionOutcome {
                    step: PartitionStepView::Gpt(next),
                    action: StageStep::ReadSector(lba),
                    identity: None,
                    fs: None,
                },
                (_, ScanAction::Done) => fatal(
                    PartitionStepView::Gpt(next),
                    BootError::NoPartition,
                ),
            }
        },
        PartitionStepView::Vbr(lba) => match sector {
            None => fatal(step, BootError::PartitionUnreadable),
            Some(vbr) => match bpb::spec_detect(vbr) {
                None => fatal(step, BootError::UnknownFilesystem),
                Some(kind) => PartitionOutcome {
                    step,
                    action: StageStep::Finished(StageResult::Continue),
                    identity: None,
                    fs: Some(fs_type_of(kind)),
                },
            },
        },
    }
}

/// Whether `after` is `before` with what the outcome learnt filled in.
pub open spec fn context_learns(
    before: BootContext,
    after: BootContext,
    step: PartitionStepView,
    o: PartitionOutcome,
) -> bool {
    &&& match o.identity {
        Some(id) => after.partition_guid@ == id.guid && after.partition_number == id.number
            && after.is_mbr == id.is_mbr,
        None => after.partition_guid == before.partition_guid && after.partition_number
            == before.partition_number && after.is_mbr == before.is_mbr,
    }
    &&& match (step, o.fs) {
        (PartitionStepView::Vbr(lba), Some(fs)) => after.partition_start_lba == lba
            && after.fs_type == Some(fs),
        _ => after.partition_start_lba == before.partition_start_lba && after.fs_type
            == before.fs_type,
    }
    &&& after == (BootContext {
        partition_guid: after.partition_guid,
        partition_number: after.partition_number,
        is_mbr: after.is_mbr,
        partition_start_lba: after.partition_start_lba,
        fs_type: after.fs_type,
        ..before
    })
}

impl DiscoverPartitionStage {
    pub open spec fn wf(&self) -> bool {
        self.step matches PartitionStep::Gpt(s) ==> s.wf()
    }

    /// A stage that waits for sector 0.
    pub fn new() -> (r: Self)
        ensures
            r.wf(),
            r@ is Mbr,
    {
        DiscoverPartitionStage { step: PartitionStep::Mbr }
    }

    pub fn execute(&mut self, ctx: &mut BootContext, sector: Option<&[u8; 512]>) -> (r: StageStep)
        requires
            old(self).wf(),
        ensures
            final(self).wf(),
            ({
                let o = partition_next(old(self)@, chain::opt_view(sector));
                &&& r == o.action
                &&& final(self)@ == o.step
                &&& context_learns(*old(ctx), *final(ctx), old(self)@, o)
            }),
    {
        match self.step {
            PartitionStep::Mbr => match sector {
                None => StageStep::Fatal(BootError::MbrUnreadable),
                Some(mbr) => {
                    let (lba, number, gpt) = read_mbr(mbr);
                    if lba != 0 {
                        ctx.partition_guid = read_mbr_guid(mbr);
                        ctx.partition_number = number;
                        ctx.is_mbr = true;
                        self.step = PartitionStep::Vbr(lba);
                        StageStep::ReadSector(lba)
                    } else if gpt {
                        self.step = PartitionStep::Gpt(Search::start(40));
                        StageStep::ReadSector(1)
                    } else {
                        StageStep::Fatal(BootError::NoPartition)
                    }
                },
            },
            PartitionStep::Gpt(search) => {
                let mut search: Search = search;
                search.supply(Target::BasicData, sector);
                self.step = PartitionStep::Gpt(search);
                match find_gpt_data_partition(&search) {
                    Some((lba, guid, number)) => {
                        ctx.partition_guid = guid;
                        ctx.partition_number = number;
                        ctx.is_mbr = false;
                        if lba == 0 {
                            StageStep::Fatal(BootError::NoPartition)
                        } else {
                            self.step = PartitionStep::Vbr(lba);
                            StageStep::ReadSector(lba)
                        }
                    },
                    None => match search.wanted() {
                        ScanAction::ReadSector(lba) => StageStep::ReadSector(lba),
                        ScanAction::Done => StageStep::Fatal(BootError::NoPartition),
                    },
                }
            },
            PartitionStep::Vbr(lba) => match sector {
                None => StageStep::Fatal(BootError::PartitionUnreadable),
                Some(vbr) => match bpb::detect(vbr) {
                    None => StageStep::Fatal(BootError::UnknownFilesystem),
                    Some(kind) => {
                        ctx.partition_start_lba = lba;
                        ctx.fs_type = Some(
                            match kind {
                                VolumeKind::Exfat => FsType::Exfat,
                                VolumeKind::Fat32 => FsType::Fat32,
                                VolumeKind::Ntfs => FsType::Ntfs,
                            },
                        );
                        StageStep::Finished(StageResult::Continue)
                    },
                },
            },
        }
    }
}

// ---------------------------------------------------------------------------
// The filesystem
// ---------------------------------------------------------------------------

/// The largest cluster shift that the stage accepts.
pub const MAX_CLUSTER_SHIFT: u8 = 16;

pub open spec fn fat_ctx(fs: FsType, part: u64, l: FatLayout) -> FsCtx {
    FsCtx {
        fs,
        part1_lba: part,
        spc: l.spc,
        fat_start: l.fat_start,
        fat_len: l.fat_len,
        heap_start: l.heap_start,
        root_cluster: l.root_cluster,
        mft_start_lba: 0,
        sectors_per_cluster: 0,
        bytes_per_cluster: 0,
        mft_record_size: 0,
    }
}

pub open spec fn ntfs_ctx(part: u64, l: NtfsLayout) -> FsCtx {
    FsCtx {
        fs: FsType::Ntfs,
        part1_lba: part,
        spc: l.spc,
        fat_start: 0,
        fat_len: 0,
        heap_start: part,
        root_cluster: 0,
        mft_start_lba: l.mft_start_lba,
        sectors_per_cluster: l.spc,
        bytes_per_cluster: (l.spc * 512) as u64,
        mft_record_size: l.mft_record_size,
    }
}

/// The filesystem context that a boot record gives rise to.
pub open spec fn spec_mount(fs: FsType, part: u64, vbr: Seq<u8>) -> Result<FsCtx, BootError> {
    match fs {
        FsType::Exfat => match bpb::spec_exfat_layout(vbr, part, MAX_CLUSTER_SHIFT) {
            None => Err(BootError::InvalidClusterShift),
            Some(l) => Ok(fat_ctx(fs, part, l)),
        },
        FsType::Fat32 => match bpb::spec_fat32_layout(vbr, part) {
            None => Err(BootError::InvalidSectorsPerCluster),
            Some(l) => Ok(fat_ctx(fs, part, l)),
        },
        FsType::Ntfs => match bpb::spec_ntfs_layout(vbr, part, bpb::signed_byte(vbr, 0x40)) {
            Err(NtfsFault::EmptyClusters) => Err(BootError::InvalidSectorsPerCluster),
            Err(NtfsFault::RecordSize) => Err(BootError::InvalidMftRecordSize),
            Ok(l) => Ok(ntfs_ctx(part, l)),
        },
    }
}

fn make_fat_ctx(fs: FsType, part: u64, l: FatLayout) -> (r: FsCtx)
    ensures
        r == fat_ctx(fs, part, l),
{
    FsCtx {
        fs,
        part1_lba: part,
        spc: l.spc,
        fat_start: l.fat_start,
        fat_len: l.fat_len,
        heap_start: l.heap_start,
        root_cluster: l.root_cluster,
        mft_start_lba: 0,
        sectors_per_cluster: 0,
        bytes_per_cluster: 0,
        mft_record_size: 0,
    }
}

pub fn mount(fs: FsType, part: u64, vbr: &[u8; 512]) -> (r: Result<FsCtx, BootError>)
    ensures
        r == spec_mount(fs, part, vbr@),
{
    match fs {
        FsType::Exfat => match bpb::exfat_layout(vbr, part, MAX_CLUSTER_SHIFT) {
            None => Err(BootError::InvalidClusterShift),
            Some(l) => Ok(make_fat_ctx(fs, part, l)),
        },
        FsType::Fat32 => match bpb::fat32_layout(vbr, part) {
            None => Err(BootError::InvalidSectorsPerCluster),
            Some(l) => Ok(make_fat_ctx(fs, part, l)),
        },
        FsType::Ntfs => {
            match bpb::ntfs_layout(vbr, part, bpb::read_signed_byte(vbr[0x40])) {
                Err(NtfsFault::EmptyClusters) => Err(BootError::InvalidSectorsPerCluster),
                Err(NtfsFault::RecordSize) => Err(BootError::InvalidMftRecordSize),
                Ok(l) => Ok(
                    FsCtx {
                        fs,
                        part1_lba: part,
                        spc: l.spc,
                        fat_start: 0,
                        fat_len: 0,
                        heap_start: part,
                        root_cluster: 0,
                        mft_start_lba: l.mft_start_lba,
                        sectors_per_cluster: l.spc,
                        bytes_per_cluster: l.spc as u64 * 512,
                        mft_record_size: l.mft_record_size,
                    },
                ),
            }
        },
    }
}

/// Reads the layout of the filesystem.
pub struct MountFilesystemStage;

impl MountFilesystemStage {
    /// Takes in the boot record of the partition, or `None` where it cannot be
    /// read.
    pub fn execute(&self, ctx: &mut BootContext, vbr: Option<&[u8; 512]>) -> (r: StageStep)
        requires
            old(ctx).fs_type is Some,
        ensures
            ({
                let before = *old(ctx);
                match vbr {
                    None => r == StageStep::Fatal(BootError::PartitionUnreadable) && *final(ctx)
                        == before,
                    Some(vbr) => match spec_mount(
                        before.fs_type->0,
                        before.partition_start_lba,
                        vbr@,
                    ) {
                        Err(e) => r == StageStep::Fatal(e) && *final(ctx) == before,
                        Ok(fs_ctx) => r == StageStep::Finished(StageResult::Continue) && *final(ctx)
                            == (BootContext { fs_ctx: Some(fs_ctx), ..before }),
                    },
                }
            }),
    {
        match (vbr, ctx.fs_type) {
            (Some(vbr), Some(fs)) => match mount(fs, ctx.partition_start_lba, vbr) {
                Err(e) => StageStep::Fatal(e),
                Ok(fs_ctx) => {
                    ctx.fs_ctx = Some(fs_ctx);
                    StageStep::Finished(StageResult::Continue)
                },
            },
            _ => StageStep::Fatal(BootError::PartitionUnreadable),
        }
    }
}

// ---------------------------------------------------------------------------
// The payloads
// ---------------------------------------------------------------------------

/// Whether the context lists exactly `files`, each as what its name says it is.
pub open spec fn lists(ctx: BootContext, files: Seq<FileView>) -> bool {
    &&& ctx.payload_count == files.len()
    &&& forall|i: int|
        0 <= i < files.len() ==> (#[trigger] ctx.payloads@[i])@ == files[i]
            && ctx.payloads@[i].payload_type == fs::type_of(files[i].name)
            && ctx.payloads@[i].wf()
}

/// Lists the disk images on the partition.
pub struct DiscoverPayloadStage;

impl DiscoverPayloadStage {
    /// Goes on with a scan of the partition; once it is done its files are the
    /// payloads.
    #[verifier::loop_isolation(false)]
    pub fn execute(
        &self,
        ctx: &mut BootContext,
        scan: &mut DirScan,
        sector: Option<&[u8; 512]>,
    ) -> (r: StageStep)
        requires
            old(ctx).fs_ctx matches Some(fs) && old(scan).wf(fs.spec_volume()),
            old(scan)@.files.len() <= PAYLOAD_SLOT_COUNT,
        ensures
            ({
                let vol = (old(ctx).fs_ctx->0).spec_volume();
                let next = dir::scan_next(vol, Reader::Uefi, old(scan)@, chain::opt_view(sector));
                &&& final(scan)@ == next
                &&& final(scan).wf(vol)
                &&& match dir::scan_wanted(vol, next.step) {
                    ScanAction::ReadSector(lba) => {
                        &&& r == StageStep::ReadSector(lba)
                        &&& *final(ctx) == *old(ctx)
                    },
                    ScanAction::Done => {
                        &&& lists(*final(ctx), next.files)
                        &&& boot_context::same_apart_from_payloads(
                            *final(ctx),
                            BootContext { payload_count: next.files.len() as usize, ..*old(ctx) },
                        )
                        &&& r == (if next.files.len() == 0 {
                            StageStep::Fatal(BootError::NoPayloads)
                        } else {
                            StageStep::Finished(StageResult::Continue)
                        })
                    },
                }
            }),
    {
        let fs: FsCtx = match ctx.fs_ctx {
            Some(fs) => fs,
            None => {
                return StageStep::Fatal(BootError::NoPayloads);
            },
        };
        proof {
            dir::next_fits(fs.spec_volume(), Reader::Uefi, scan@, chain::opt_view(sector));
        }
        match scan_directory(&fs, scan, sector) {
            ScanAction::ReadSector(lba) => StageStep::ReadSector(lba),
            ScanAction::Done => {
                let n: usize = scan.files.len();
                let mut i: usize = 0;
                while i < n
                    invariant
                        i <= n <= PAYLOAD_SLOT_COUNT,
                        n <= scan.files@.len(),
                        found::all_wf(scan.files@),
                        boot_context::same_apart_from_payloads(*ctx, *old(ctx)),
                        forall|j: int|
                            0 <= j < i ==> (#[trigger] ctx.payloads@[j])@ == scan.files@[j]@
                                && ctx.payloads@[j].payload_type == fs::type_of(
                                scan.files@[j]@.name,
                            )
                                && ctx.payloads@[j].wf(),
                    decreases n - i,
                {
                    assert(scan.files@[i as int].wf());
                    ctx.payloads[i] = PayloadEntry::from_iso(&IsoEntry::from_found(&scan.files[i]));
                    i += 1;
                }
                ctx.payload_count = n;
                if n == 0 {
                    StageStep::Fatal(BootError::NoPayloads)
                } else {
                    StageStep::Finished(StageResult::Continue)
                }
            },
        }
    }
}

/// Lets a payload be selected from the menu.
pub struct SelectPayloadStage;

impl SelectPayloadStage {
    /// What a keystroke comes to: the payload that it selects, if any.
    pub fn execute(&self, ctx: &mut BootContext, key: &Key) -> (r: MenuAction)
        ensures
            r == iso::key_action(*key, old(ctx).payload_count as int),
            *final(ctx) == (match r {
                MenuAction::Boot(i) => BootContext { selected_index: Some(i), ..*old(ctx) },
                _ => *old(ctx),
            }),
    {
        let action: MenuAction = menu_key(key, ctx.payload_count);
        if let MenuAction::Boot(i) = action {
            ctx.selected_index = Some(i);
        }
        action
    }
}

/// Boots the payload that was selected.
pub struct ExecuteBootStage {
    pub selected_index: usize,
}

impl ExecuteBootStage {
    /// Records the selection if it names a payload.
    pub fn execute(&self, ctx: &mut BootContext) -> (r: StageStep)
        ensures
            ({
                let valid = self.selected_index < old(ctx).payload_count && self.selected_index
                    < PAYLOAD_SLOT_COUNT;
                if valid {
                    &&& r == StageStep::Finished(StageResult::Continue)
                    &&& *final(ctx) == (BootContext {
                        selected_index: Some(self.selected_index),
                        ..*old(ctx)
                    })
                } else {
                    &&& r == StageStep::Fatal(BootError::InvalidSelection)
                    &&& *final(ctx) == *old(ctx)
                }
            }),
    {
        if ctx.payload_count == 0 || self.selected_index >= ctx.payload_count
            || self.selected_index >= PAYLOAD_SLOT_COUNT {
            return StageStep::Fatal(BootError::InvalidSelection);
        }
        ctx.selected_index = Some(self.selected_index);
        StageStep::Finished(StageResult::Continue)
    }
}

/// Stands in for the payload scan when booting over the network, which loads
/// nothing itself.
pub struct NetworkPayloadLocatorStage {
    pub url: Option<&'static [u8]>,
}

impl NetworkPayloadLocatorStage {
    pub fn execute(&self, ctx: &BootContext) -> (r: StageStep)
        ensures
            r == (if ctx.payload_count == 0 {
                StageStep::Fatal(BootError::NoPayloads)
            } else {
                StageStep::Finished(StageResult::Continue)
            }),
    {
        if ctx.payload_count == 0 {
            StageStep::Fatal(BootError::NoPayloads)
        } else {
            StageStep::Finished(StageResult::Continue)
        }
    }
}

// ---------------------------------------------------------------------------
// The pipeline
// ---------------------------------------------------------------------------

/// A run through `stages` stages; `next` is the stage to run now.
#[derive(Clone, Copy, PartialEq, Eq, Structural, Debug)]
pub struct BootPipeline {
    pub stages: usize,
    pub next: usize,
    pub halted: bool,
}

impl BootPipeline {
    pub open spec fn wf(&self) -> bool {
        self.next <= self.stages
    }

    /// The stage to run now.
    pub open spec fn due(&self) -> Option<usize> {
        if self.halted || self.next >= self.stages {
            None
        } else {
            Some(self.next)
        }
    }

    pub fn new(stages: usize) -> (r: Self)
        ensures
            r.wf(),
            r == (BootPipeline { stages, next: 0, halted: false }),
    {
        BootPipeline { stages, next: 0, halted: false }
    }

    /// Takes in the result of the stage that was due, if any, and says which
    /// stage is due now: stages run in order, and none after one that halts.
    pub fn run(&mut self, result: Option<StageResult>) -> (r: Option<usize>)
        requires
            old(self).wf(),
        ensures
            final(self).wf(),
            *final(self) == (match (result, old(self).due()) {
                (Some(StageResult::Continue), Some(i)) => BootPipeline {
                    next: (i + 1) as usize,
                    ..*old(self)
                },
                (Some(StageResult::Halt), Some(_)) => BootPipeline { halted: true, ..*old(self) },
                _ => *old(self),
            }),
            r == final(self).due(),
    {
        if !self.halted && self.next < self.stages {
            match result {
                Some(StageResult::Continue) => {
                    self.next = self.next + 1;
                },
                Some(StageResult::Halt) => {
                    self.halted = true;
                },
                None => {},
            }
        }
        if self.halted || self.next >= self.stages {
            None
        } else {
            Some(self.next)
        }
    }
}

} // verus!
