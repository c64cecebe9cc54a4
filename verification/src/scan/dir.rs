//! A directory scan as a machine that asks for sectors: it says which sector it
//! wants, is handed that sector or the news that it cannot be read, and lists
//! the bootable files it has come across.

use vstd::prelude::*;
use crate::bytes;
use crate::bytes::{push_all, WORD};
use crate::scan::chain;
use crate::scan::chain::{
    after_data, enter, exfat_next_cluster, fat32_next_cluster, wanted, ChainKind, ChainPos, Geometry,
};
use crate::scan::exfat;
use crate::scan::exfat::{scan_exfat_sector, NameRule};
use crate::scan::fat32;
use crate::scan::fat32::{scan_fat32_sector, Fat32Rule, LongName, LongNameView};
use crate::scan::found;
use crate::scan::found::{list_file, FileView, FoundFile, MAX_FILES};
use crate::scan::ntfs;
use crate::scan::ntfs::{
    get_ntfs_file_info, read_root, Candidate, CandidateView, NtfsGeometry, RECORD_MAX, ROOT_RECORD,
};

verus! {

#[derive(Clone, Copy, PartialEq, Eq, Structural, Debug)]
pub enum VolumeKind {
    Exfat,
    Fat32,
    Ntfs,
}

/// Which boot stage reads the volume; the two read names differently.
#[derive(Clone, Copy, PartialEq, Eq, Structural, Debug)]
pub enum Reader {
    Uefi,
    Bios,
}

#[derive(Clone, Copy, PartialEq, Eq, Structural, Debug)]
pub struct Volume {
    pub kind: VolumeKind,
    pub geometry: Geometry,
    pub root_cluster: u32,
    pub ntfs: NtfsGeometry,
}

#[derive(Clone, Copy, PartialEq, Eq, Structural, Debug)]
pub enum ScanAction {
    ReadSector(u64),
    Done,
}

pub enum ScanStep {
    Exfat { pos: ChainPos, carry: Vec<u8> },
    Fat32 { pos: ChainPos, long: LongName },
    NtfsRoot { rec: Vec<u8> },
    NtfsFile { pending: Vec<Candidate>, next: usize, rec: Vec<u8> },
    Done,
}

pub struct DirScan {
    pub files: Vec<FoundFile>,
    pub step: ScanStep,
}

pub enum StepView {
    Exfat { pos: ChainPos, carry: Seq<u8> },
    Fat32 { pos: ChainPos, long: LongNameView },
    NtfsRoot { rec: Seq<u8> },
    NtfsFile { pending: Seq<CandidateView>, rec: Seq<u8> },
    Done,
}

/// The files listed so far and what the scan waits for. The head of `pending`
/// is the file whose record is being read.
pub struct ScanView {
    pub files: Seq<FileView>,
    pub step: StepView,
}

impl View for ScanStep {
    type V = StepView;

    open spec fn view(&self) -> StepView {
        match *self {
            ScanStep::Exfat { pos, carry } => StepView::Exfat { pos, carry: carry@ },
            ScanStep::Fat32 { pos, long } => StepView::Fat32 { pos, long: long@ },
            ScanStep::NtfsRoot { rec } => StepView::NtfsRoot { rec: rec@ },
            ScanStep::NtfsFile { pending, next, rec } => StepView::NtfsFile {
                pending: ntfs::candidate_views(pending@).skip(next as int),
                rec: rec@,
            },
            ScanStep::Done => StepView::Done,
        }
    }
}

impl View for DirScan {
    type V = ScanView;

    open spec fn view(&self) -> ScanView {
        ScanView { files: found::views(self.files@), step: self.step@ }
    }
}

pub open spec fn name_rule(reader: Reader) -> NameRule {
    match reader {
        Reader::Uefi => NameRule::Gapped,
        Reader::Bios => NameRule::Packed,
    }
}

pub open spec fn fat32_rule(reader: Reader) -> Fat32Rule {
    match reader {
        Reader::Uefi => Fat32Rule::LongNames,
        Reader::Bios => Fat32Rule::ShortNames,
    }
}

/// How many sectors a file record takes; 0 where records are not readable.
pub open spec fn record_sectors(g: NtfsGeometry) -> int {
    if g.mft_record_size > RECORD_MAX {
        0
    } else {
        g.mft_record_size as int / 512
    }
}

/// A scan that starts with `files` already listed.
pub open spec fn scan_start(vol: Volume, files: Seq<FileView>) -> ScanView {
    let step = match vol.kind {
        VolumeKind::Exfat => StepView::Exfat {
            pos: chain::spec_enter(vol.geometry, vol.root_cluster),
            carry: Seq::empty(),
        },
        VolumeKind::Fat32 => if vol.root_cluster == 0 {
            StepView::Done
        } else {
            StepView::Fat32 {
                pos: chain::spec_enter(vol.geometry, vol.root_cluster),
                long: fat32::no_name(),
            }
        },
        VolumeKind::Ntfs => if record_sectors(vol.ntfs) == 0 {
            StepView::Done
        } else {
            StepView::NtfsRoot { rec: Seq::empty() }
        },
    };
    ScanView { files, step }
}

/// The sector after those already read of file record `record`.
pub open spec fn record_lba(g: NtfsGeometry, record: u32, have: int) -> u64 {
    chain::wrap64(g.mft_start_lba + record * record_sectors(g) + have / 512)
}

/// What the scan wants next.
pub open spec fn scan_wanted(vol: Volume, step: StepView) -> ScanAction {
    match step {
        StepView::Exfat { pos, .. } => ScanAction::ReadSector(
            chain::spec_wanted(vol.geometry, pos),
        ),
        StepView::Fat32 { pos, .. } => ScanAction::ReadSector(
            chain::spec_wanted(vol.geometry, pos),
        ),
        StepView::NtfsRoot { rec } => ScanAction::ReadSector(
            record_lba(vol.ntfs, ROOT_RECORD, rec.len() as int),
        ),
        StepView::NtfsFile { pending, rec } => ScanAction::ReadSector(
            record_lba(vol.ntfs, pending[0].record, rec.len() as int),
        ),
        StepView::Done => ScanAction::Done,
    }
}

/// The scan of the files still pending; a full list ends it.
pub open spec fn next_file(files: Seq<FileView>, pending: Seq<CandidateView>) -> ScanView {
    if pending.len() == 0 || files.len() >= MAX_FILES {
        ScanView { files, step: StepView::Done }
    } else {
        ScanView { files, step: StepView::NtfsFile { pending, rec: Seq::empty() } }
    }
}

pub open spec fn exfat_next(
    vol: Volume,
    reader: Reader,
    files: Seq<FileView>,
    pos: ChainPos,
    carry: Seq<u8>,
    sector: Option<Seq<u8>>,
) -> ScanView {
    match (pos, sector) {
        (ChainPos::Data { .. }, None) => ScanView { files, step: StepView::Done },
        (ChainPos::Data { cluster, sector }, Some(s)) => {
            let b = exfat::block(
                vol.geometry,
                name_rule(reader),
                MAX_FILES as nat,
                carry + s,
                0,
                files,
            );
            if b.end {
                ScanView { files: b.files, step: StepView::Done }
            } else {
                ScanView {
                    files: b.files,
                    step: StepView::Exfat {
                        pos: chain::spec_after_data(vol.geometry, cluster, sector),
                        carry: b.carry,
                    },
                }
            }
        },
        (ChainPos::Link { cluster }, s) => match chain::spec_next_cluster(
            ChainKind::Exfat,
            chain::spec_fat_entry(s, cluster),
        ) {
            None => ScanView { files, step: StepView::Done },
            Some(c) => ScanView {
                files,
                step: StepView::Exfat { pos: chain::spec_enter(vol.geometry, c), carry },
            },
        },
    }
}

pub open spec fn fat32_next(
    vol: Volume,
    reader: Reader,
    files: Seq<FileView>,
    pos: ChainPos,
    long: LongNameView,
    sector: Option<Seq<u8>>,
) -> ScanView {
    match (pos, sector) {
        (ChainPos::Data { .. }, None) => ScanView { files, step: StepView::Done },
        (ChainPos::Data { cluster, sector }, Some(s)) => {
            let b = fat32::entries(
                vol.geometry,
                fat32_rule(reader),
                MAX_FILES as nat,
                s,
                0,
                long,
                files,
            );
            if b.end {
                ScanView { files: b.files, step: StepView::Done }
            } else {
                ScanView {
                    files: b.files,
                    step: StepView::Fat32 {
                        pos: chain::spec_after_data(vol.geometry, cluster, sector),
                        long: b.name,
                    },
                }
            }
        },
        (ChainPos::Link { cluster }, s) => match chain::spec_next_cluster(
            ChainKind::Fat32,
            chain::spec_fat_entry(s, cluster),
        ) {
            None => ScanView { files, step: StepView::Done },
            Some(c) => ScanView {
                files,
                step: StepView::Fat32 { pos: chain::spec_enter(vol.geometry, c), long },
            },
        },
    }
}

pub open spec fn root_next(
    vol: Volume,
    files: Seq<FileView>,
    rec: Seq<u8>,
    sector: Option<Seq<u8>>,
) -> ScanView {
    match sector {
        None => ScanView { files, step: StepView::Done },
        Some(s) => if (rec + s).len() < 512 * record_sectors(vol.ntfs) {
            ScanView { files, step: StepView::NtfsRoot { rec: rec + s } }
        } else {
            next_file(files, ntfs::root_candidates(vol.ntfs, rec + s))
        },
    }
}

/// The list after the record of a pending file was read in full.
pub open spec fn list_record(
    g: NtfsGeometry,
    files: Seq<FileView>,
    c: CandidateView,
    rec: Seq<u8>,
) -> Seq<FileView> {
    match ntfs::file_info(g, rec) {
        None => files,
        Some((lba, size)) => found::listed(
            files,
            MAX_FILES as nat,
            FileView { name: c.name, lba, size },
        ),
    }
}

pub open spec fn file_next(
    vol: Volume,
    files: Seq<FileView>,
    pending: Seq<CandidateView>,
    rec: Seq<u8>,
    sector: Option<Seq<u8>>,
) -> ScanView {
    match sector {
        None => next_file(files, pending.skip(1)),
        Some(s) => if (rec + s).len() < 512 * record_sectors(vol.ntfs) {
            ScanView { files, step: StepView::NtfsFile { pending, rec: rec + s } }
        } else {
            next_file(list_record(vol.ntfs, files, pending[0], rec + s), pending.skip(1))
        },
    }
}

/// The scan after it was handed the sector it wanted, or `None` where that
/// sector cannot be read.
pub open spec fn scan_next(
    vol: Volume,
    reader: Reader,
    scan: ScanView,
    sector: Option<Seq<u8>>,
) -> ScanView {
    match scan.step {
        StepView::Exfat { pos, carry } => exfat_next(vol, reader, scan.files, pos, carry, sector),
        StepView::Fat32 { pos, long } => fat32_next(vol, reader, scan.files, pos, long, sector),
        StepView::NtfsRoot { rec } => root_next(vol, scan.files, rec, sector),
        StepView::NtfsFile { pending, rec } => file_next(vol, scan.files, pending, rec, sector),
        StepView::Done => scan,
    }
}

/// The scan after at most `n` sectors of a disk.
pub open spec fn scan_run(
    vol: Volume,
    reader: Reader,
    disk: spec_fn(u64) -> Option<Seq<u8>>,
    scan: ScanView,
    n: nat,
) -> ScanView
    decreases n,
{
    match scan_wanted(vol, scan.step) {
        ScanAction::ReadSector(lba) if n > 0 => scan_run(
            vol,
            reader,
            disk,
            scan_next(vol, reader, scan, disk(lba)),
            (n - 1) as nat,
        ),
        _ => scan,
    }
}

impl DirScan {
    /// What holds of a scan of `vol` at every step.
    pub open spec fn wf(&self, vol: Volume) -> bool {
        &&& found::all_wf(self.files@)
        &&& match self.step {
            ScanStep::Exfat { pos, carry } => carry@.len() <= exfat::CARRY_MAX,
            ScanStep::Fat32 { pos, long } => long.wf(),
            ScanStep::NtfsRoot { rec } => part_of_record(vol, rec@),
            ScanStep::NtfsFile { pending, next, rec } => {
                &&& part_of_record(vol, rec@)
                &&& next < pending@.len()
                &&& ntfs::names_fit(pending@)
            },
            ScanStep::Done => true,
        }
    }

    /// Starts a scan of the root directory that adds to `files`.
    pub fn start(vol: &Volume, files: Vec<FoundFile>) -> (r: DirScan)
        requires
            found::all_wf(files@),
        ensures
            r.wf(*vol),
            r@ == scan_start(*vol, found::views(files@)),
    {
        let step: ScanStep = match vol.kind {
            VolumeKind::Exfat => ScanStep::Exfat {
                pos: enter(&vol.geometry, vol.root_cluster),
                carry: Vec::new(),
            },
            VolumeKind::Fat32 => if vol.root_cluster == 0 {
                ScanStep::Done
            } else {
                ScanStep::Fat32 {
                    pos: enter(&vol.geometry, vol.root_cluster),
                    long: LongName::none(),
                }
            },
            VolumeKind::Ntfs => if vol.ntfs.mft_record_size > RECORD_MAX as u64
                || vol.ntfs.mft_record_size < 512 {
                ScanStep::Done
            } else {
                ScanStep::NtfsRoot { rec: Vec::new() }
            },
        };
        DirScan { files, step }
    }

    /// What the scan wants next.
    pub fn wanted(&self, vol: &Volume) -> (r: ScanAction)
        requires
            self.wf(*vol),
        ensures
            r == scan_wanted(*vol, self@.step),
    {
        match &self.step {
            ScanStep::Exfat { pos, .. } => ScanAction::ReadSector(wanted(&vol.geometry, pos)),
            ScanStep::Fat32 { pos, .. } => ScanAction::ReadSector(wanted(&vol.geometry, pos)),
            ScanStep::NtfsRoot { rec } => ScanAction::ReadSector(
                next_record_lba(&vol.ntfs, ROOT_RECORD, rec.len()),
            ),
            ScanStep::NtfsFile { pending, next, rec } => {
                assert(self@.step->pending[0] == pending@[*next as int]@);
                ScanAction::ReadSector(
                    next_record_lba(&vol.ntfs, pending[*next].record, rec.len()),
                )
            },
            ScanStep::Done => ScanAction::Done,
        }
    }

    /// Hands the scan the sector it wanted, or `None` where it cannot be read.
    pub fn supply(&mut self, vol: &Volume, reader: Reader, sector: Option<&[u8; 512]>)
        requires
            old(self).wf(*vol),
        ensures
            final(self).wf(*vol),
            final(self)@ == scan_next(*vol, reader, old(self)@, chain::opt_view(sector)),
    {
        let mut step: ScanStep = ScanStep::Done;
        std::mem::swap(&mut step, &mut self.step);
        match step {
            ScanStep::Exfat { pos, carry } => self.scan_exfat_dir(vol, reader, pos, carry, sector),
            ScanStep::Fat32 { pos, long } => self.scan_fat32_dir(vol, reader, pos, long, sector),
            ScanStep::NtfsRoot { rec } => self.scan_ntfs_dir(vol, rec, sector),
            ScanStep::NtfsFile { pending, next, rec } => self.read_ntfs_file(
                vol,
                pending,
                next,
                rec,
                sector,
            ),
            ScanStep::Done => {},
        }
    }

    fn scan_exfat_dir(
        &mut self,
        vol: &Volume,
        reader: Reader,
        pos: ChainPos,
        carry: Vec<u8>,
        sector: Option<&[u8; 512]>,
    )
        requires
            found::all_wf(old(self).files@),
            old(self).step is Done,
            carry@.len() <= exfat::CARRY_MAX,
        ensures
            final(self).wf(*vol),
            final(self)@ == exfat_next(
                *vol,
                reader,
                found::views(old(self).files@),
                pos,
                carry@,
                chain::opt_view(sector),
            ),
    {
        let mut carry = carry;
        match pos {
            ChainPos::Data { cluster, sector: at } => match sector {
                None => {},
                Some(s) => {
                    let rule: NameRule = match reader {
                        Reader::Uefi => NameRule::Gapped,
                        Reader::Bios => NameRule::Packed,
                    };
                    if !scan_exfat_sector(
                        &vol.geometry,
                        rule,
                        MAX_FILES,
                        &mut carry,
                        s,
                        &mut self.files,
                    ) {
                        self.step = ScanStep::Exfat {
                            pos: after_data(&vol.geometry, cluster, at),
                            carry,
                        };
                    }
                },
            },
            ChainPos::Link { cluster } => match exfat_next_cluster(sector, cluster) {
                None => {},
                Some(c) => {
                    self.step = ScanStep::Exfat { pos: enter(&vol.geometry, c), carry };
                },
            },
        }
    }

    fn scan_fat32_dir(
        &mut self,
        vol: &Volume,
        reader: Reader,
        pos: ChainPos,
        long: LongName,
        sector: Option<&[u8; 512]>,
    )
        requires
            found::all_wf(old(self).files@),
            old(self).step is Done,
            long.wf(),
        ensures
            final(self).wf(*vol),
            final(self)@ == fat32_next(
                *vol,
                reader,
                found::views(old(self).files@),
                pos,
                long@,
                chain::opt_view(sector),
            ),
    {
        let mut long = long;
        match pos {
            ChainPos::Data { cluster, sector: at } => match sector {
                None => {},
                Some(s) => {
                    let rule: Fat32Rule = match reader {
                        Reader::Uefi => Fat32Rule::LongNames,
                        Reader::Bios => Fat32Rule::ShortNames,
                    };
                    if !scan_fat32_sector(
                        &vol.geometry,
                        rule,
                        MAX_FILES,
                        &mut long,
                        s,
                        &mut self.files,
                    ) {
                        self.step = ScanStep::Fat32 {
                            pos: after_data(&vol.geometry, cluster, at),
                            long,
                        };
                    }
                },
            },
            ChainPos::Link { cluster } => match fat32_next_cluster(sector, cluster) {
                None => {},
                Some(c) => {
                    self.step = ScanStep::Fat32 { pos: enter(&vol.geometry, c), long };
                },
            },
        }
    }

    /// Goes on with the candidate at `next`, unless there is none or the list
    /// is full.
    fn begin_ntfs_file(&mut self, vol: &Volume, pending: Vec<Candidate>, next: usize)
        requires
            found::all_wf(old(self).files@),
            old(self).step is Done,
            ntfs::names_fit(pending@),
            next <= pending@.len(),
            record_sectors(vol.ntfs) > 0,
        ensures
            final(self).wf(*vol),
            final(self)@ == next_file(
                found::views(old(self).files@),
                ntfs::candidate_views(pending@).skip(next as int),
            ),
    {
        if next < pending.len() && self.files.len() < MAX_FILES {
            self.step = ScanStep::NtfsFile { pending, next, rec: Vec::new() };
        }
    }

    fn scan_ntfs_dir(&mut self, vol: &Volume, rec: Vec<u8>, sector: Option<&[u8; 512]>)
        requires
            found::all_wf(old(self).files@),
            old(self).step is Done,
            part_of_record(*vol, rec@),
        ensures
            final(self).wf(*vol),
            final(self)@ == root_next(
                *vol,
                found::views(old(self).files@),
                rec@,
                chain::opt_view(sector),
            ),
    {
        let mut rec = rec;
        match sector {
            None => {},
            Some(s) => {
                push_all(&mut rec, s);
                if rec.len() < 512 * ((vol.ntfs.mft_record_size / 512) as usize) {
                    self.step = ScanStep::NtfsRoot { rec };
                } else {
                    let pending: Vec<Candidate> = read_root(&vol.ntfs, &rec);
                    assert(ntfs::candidate_views(pending@).skip(0) =~= ntfs::candidate_views(
                        pending@,
                    ));
                    self.begin_ntfs_file(vol, pending, 0);
                }
            },
        }
    }

    #[verifier::rlimit(40)]
    fn read_ntfs_file(
        &mut self,
        vol: &Volume,
        pending: Vec<Candidate>,
        next: usize,
        rec: Vec<u8>,
        sector: Option<&[u8; 512]>,
    )
        requires
            found::all_wf(old(self).files@),
            old(self).step is Done,
            part_of_record(*vol, rec@),
            next < pending@.len(),
            ntfs::names_fit(pending@),
        ensures
            final(self).wf(*vol),
            final(self)@ == file_next(
                *vol,
                found::views(old(self).files@),
                ntfs::candidate_views(pending@).skip(next as int),
                rec@,
                chain::opt_view(sector),
            ),
    {
        assert(pending.len() <= usize::MAX);
        let ghost left = ntfs::candidate_views(pending@).skip(next as int);
        assert(left.skip(1) =~= ntfs::candidate_views(pending@).skip(next + 1));
        let mut rec = rec;
        match sector {
            None => self.begin_ntfs_file(vol, pending, next + 1),
            Some(s) => {
                push_all(&mut rec, s);
                if rec.len() < 512 * ((vol.ntfs.mft_record_size / 512) as usize) {
                    self.step = ScanStep::NtfsFile { pending, next, rec };
                } else {
                    match get_ntfs_file_info(&vol.ntfs, &rec) {
                        None => {},
                        Some((lba, size)) => list_file(
                            &mut self.files,
                            MAX_FILES,
                            &pending[next].name,
                            lba,
                            size,
                        ),
                    }
                    self.begin_ntfs_file(vol, pending, next + 1);
                }
            },
        }
    }
}

/// Whole sectors of a record, not yet all of them.
pub open spec fn part_of_record(vol: Volume, rec: Seq<u8>) -> bool {
    &&& rec.len() % 512 == 0
    &&& rec.len() < 512 * record_sectors(vol.ntfs)
}

fn next_record_lba(g: &NtfsGeometry, record: u32, have: usize) -> (r: u64)
    requires
        g.mft_record_size <= RECORD_MAX,
    ensures
        r == record_lba(*g, record, have as int),
{
    let n: u64 = g.mft_record_size / 512;
    assert(0 <= record * n <= 0xFFFF_FFFFu32 * 8) by (nonlinear_arith)
        requires
            n <= 8,
            record <= 0xFFFF_FFFFu32,
    ;
    ((g.mft_start_lba as u128 + (record as u64 * n) as u128 + (have / 512) as u128) % WORD) as u64
}

// ---------------------------------------------------------------------------
// Laws
// ---------------------------------------------------------------------------

/// Whether `b` is `a` with bootable files added at the end, and no more of them
/// than there is room for.
pub open spec fn extends(a: Seq<FileView>, b: Seq<FileView>) -> bool {
    &&& a.len() <= b.len()
    &&& b.len() <= MAX_FILES || b.len() == a.len()
    &&& forall|i: int| 0 <= i < a.len() ==> b[i] == a[i]
    &&& forall|i: int|
        a.len() <= i < b.len() ==> found::is_bootable((#[trigger] b[i]).name)
}

/// Whether all that is pending is the name of a bootable file.
pub open spec fn pending_bootable(step: StepView) -> bool {
    step matches StepView::NtfsFile { pending, .. } ==> (pending.len() > 0 && forall|i: int|
        0 <= i < pending.len() ==> found::is_bootable((#[trigger] pending[i]).name))
}

/// A piece of an exFAT directory adds bootable files only.
pub proof fn exfat_block_extends(
    g: Geometry,
    rule: NameRule,
    s: Seq<u8>,
    pos: int,
    files: Seq<FileView>,
)
    requires
        0 <= pos,
    ensures
        extends(files, exfat::block(g, rule, MAX_FILES as nat, s, pos, files).files),
    decreases s.len() - pos,
{
    let n = s.len() / 32;
    if pos < n && s[pos * 32] != 0 {
        if s[pos * 32] != exfat::ENTRY_FILE || s[pos * 32 + 1] == 0 {
            exfat_block_extends(g, rule, s, pos + 1, files);
        } else {
            let set = 1 + s[pos * 32 + 1];
            if pos + set <= n {
                let more = exfat::list_bootable(
                    files,
                    MAX_FILES as nat,
                    exfat::set_file(g, rule, s, pos),
                );
                exfat_block_extends(g, rule, s, pos + set, files);
                exfat_block_extends(g, rule, s, pos + set, more);
            }
        }
    }
}

/// A sector of a FAT32 directory adds bootable files only.
pub proof fn fat32_entries_extend(
    g: Geometry,
    rule: Fat32Rule,
    s: Seq<u8>,
    i: int,
    l: LongNameView,
    files: Seq<FileView>,
)
    ensures
        extends(files, fat32::entries(g, rule, MAX_FILES as nat, s, i, l, files).files),
    decreases 16 - i,
{
    let e = s.subrange(i * 32, i * 32 + 32);
    if i < 16 && e[0] != 0 {
        if e[0] == 0xE5 {
            fat32_entries_extend(g, rule, s, i + 1, fat32::cleared(l), files);
        } else if e[11] == fat32::ATTR_LONG_NAME {
            fat32_entries_extend(g, rule, s, i + 1, fat32::take_part(l, e), files);
            fat32_entries_extend(g, rule, s, i + 1, l, files);
        } else if e[11] / 8 % 2 == 1 {
            fat32_entries_extend(g, rule, s, i + 1, fat32::cleared(l), files);
        } else {
            let more = exfat::list_bootable(
                files,
                MAX_FILES as nat,
                fat32::entry_file(g, rule, l, e),
            );
            fat32_entries_extend(g, rule, s, i + 1, fat32::cleared(l), more);
        }
    }
}

pub open spec fn all_bootable(c: Seq<CandidateView>) -> bool {
    forall|i: int|
        0 <= i < c.len() ==> found::is_bootable((#[trigger] c[i]).name)
}

proof fn index_entries_are_bootable(s: Seq<u8>, at: int)
    ensures
        all_bootable(ntfs::index_entries(s, at)),
    decreases s.len() - at,
{
    let len = bytes::spec_le16(s, at + 8) as int;
    if !(s.len() - at < 0x50 || len < 8 || len > s.len() - at) {
        index_entries_are_bootable(s, at + len);
    }
}

proof fn index_attrs_are_bootable(a: Seq<u8>, off: int)
    ensures
        all_bootable(ntfs::index_attrs(a, off)),
    decreases a.len() - off,
{
    let len = bytes::spec_le32(a, off + 4) as int;
    let val = bytes::spec_le16(a, off + 0x14) as int;
    if ntfs::attr_at(a, off) {
        index_attrs_are_bootable(a, off + len);
        let root = a.subrange(off + val, off + len);
        index_entries_are_bootable(root, bytes::spec_le32(root, 0x10) + 0x10);
    }
}

/// A step keeps what was listed, and adds bootable files only.
pub proof fn next_extends(vol: Volume, reader: Reader, scan: ScanView, sector: Option<Seq<u8>>)
    requires
        pending_bootable(scan.step),
    ensures
        pending_bootable(scan_next(vol, reader, scan, sector).step),
        extends(scan.files, scan_next(vol, reader, scan, sector).files),
{
    match scan.step {
        StepView::Exfat { pos, carry } => {
            if let Some(s) = sector {
                exfat_block_extends(vol.geometry, name_rule(reader), carry + s, 0, scan.files);
            }
        },
        StepView::Fat32 { pos, long } => {
            if let Some(s) = sector {
                fat32_entries_extend(vol.geometry, fat32_rule(reader), s, 0, long, scan.files);
            }
        },
        StepView::NtfsRoot { rec } => {
            if let Some(s) = sector {
                if let Some(a) = ntfs::attributes(rec + s, vol.ntfs.mft_record_size as int) {
                    index_attrs_are_bootable(a, 0);
                }
            }
        },
        StepView::NtfsFile { pending, rec } => {
            assert(forall|i: int| 0 <= i < pending.skip(1).len() ==> pending.skip(1)[i]
                == pending[i + 1]);
        },
        StepView::Done => {},
    }
}

/// A step never lists more files than fit.
pub proof fn next_fits(vol: Volume, reader: Reader, scan: ScanView, sector: Option<Seq<u8>>)
    requires
        scan.files.len() <= MAX_FILES,
    ensures
        scan_next(vol, reader, scan, sector).files.len() <= MAX_FILES,
{
    match scan.step {
        StepView::Exfat { pos, carry } => {
            if let Some(s) = sector {
                exfat_block_extends(vol.geometry, name_rule(reader), carry + s, 0, scan.files);
            }
        },
        StepView::Fat32 { pos, long } => {
            if let Some(s) = sector {
                fat32_entries_extend(vol.geometry, fat32_rule(reader), s, 0, long, scan.files);
            }
        },
        _ => {},
    }
}

proof fn run_extends(
    vol: Volume,
    reader: Reader,
    disk: spec_fn(u64) -> Option<Seq<u8>>,
    scan: ScanView,
    n: nat,
)
    requires
        pending_bootable(scan.step),
    ensures
        extends(scan.files, scan_run(vol, reader, disk, scan, n).files),
    decreases n,
{
    match scan_wanted(vol, scan.step) {
        ScanAction::ReadSector(lba) if n > 0 => {
            next_extends(vol, reader, scan, disk(lba));
            run_extends(vol, reader, disk, scan_next(vol, reader, scan, disk(lba)), (n - 1) as nat);
        },
        _ => {},
    }
}

/// However long a scan of any disk runs, it keeps what was listed before, it
/// adds nothing but bootable files, and it never lists more files than fit.
pub proof fn scan_lists_bootable_files(
    vol: Volume,
    reader: Reader,
    disk: spec_fn(u64) -> Option<Seq<u8>>,
    files: Seq<FileView>,
    n: nat,
)
    ensures
        extends(files, scan_run(vol, reader, disk, scan_start(vol, files), n).files),
{
    run_extends(vol, reader, disk, scan_start(vol, files), n);
}

proof fn run_keeps(
    vol: Volume,
    reader: Reader,
    disk: spec_fn(u64) -> Option<Seq<u8>>,
    scan: ScanView,
    n: nat,
    end: nat,
    file: FileView,
)
    requires
        pending_bootable(scan.step),
        scan_run(vol, reader, disk, scan, n).files.contains(file),
        n <= end || scan_run(vol, reader, disk, scan, end).step is Done,
    ensures
        scan_run(vol, reader, disk, scan, end).files.contains(file),
    decreases n,
{
    match scan_wanted(vol, scan.step) {
        ScanAction::ReadSector(lba) if n > 0 && end > 0 => {
            next_extends(vol, reader, scan, disk(lba));
            run_keeps(
                vol,
                reader,
                disk,
                scan_next(vol, reader, scan, disk(lba)),
                (n - 1) as nat,
                (end - 1) as nat,
                file,
            );
        },
        _ => {
            run_extends(vol, reader, disk, scan, end);
            let i = choose|i: int| 0 <= i < scan.files.len() && scan.files[i] == file;
            assert(scan_run(vol, reader, disk, scan, end).files[i] == file);
        },
    }
}

/// A file that a scan has listed stays in its list, and is in the list that the
/// scan ends with.
pub proof fn listed_files_stay(
    vol: Volume,
    reader: Reader,
    disk: spec_fn(u64) -> Option<Seq<u8>>,
    files: Seq<FileView>,
    n: nat,
    end: nat,
    file: FileView,
)
    requires
        scan_run(vol, reader, disk, scan_start(vol, files), n).files.contains(file),
        n <= end || scan_run(vol, reader, disk, scan_start(vol, files), end).step is Done,
    ensures
        scan_run(vol, reader, disk, scan_start(vol, files), end).files.contains(file),
{
    run_keeps(vol, reader, disk, scan_start(vol, files), n, end, file);
}

/// A scan whose first read fails lists nothing new.
pub proof fn unreadable_disk_lists_nothing(
    vol: Volume,
    reader: Reader,
    files: Seq<FileView>,
    n: nat,
)
    requires
        n >= 2,
    ensures
        ({
            let end = scan_run(vol, reader, |lba: u64| None, scan_start(vol, files), n);
            end.files == files && end.step is Done
        }),
{
    reveal_with_fuel(scan_run, 3);
}

} // verus!
