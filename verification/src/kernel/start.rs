//! From power-on to the menu: finding the data partition and its disk images.

use vstd::prelude::*;
use crate::kernel::fs;
use crate::kernel::fs::{begin_scan, mount, scan_filesystem, DirEntry, FsCtx, FsType, MountError};
use crate::kernel::menu;
use crate::kernel::part;
use crate::kernel::part::{PartitionRead, PartitionReadView};
use crate::kernel::vga;
use crate::kernel::vga::{show, vga_clear, Notice};
use crate::scan::chain;
use crate::scan::dir;
use crate::scan::dir::{DirScan, Reader, ScanAction, ScanStep, ScanView, StepView};
use crate::scan::found;
use crate::scan::found::{FileView, FoundFile};

verus! {

/// Why the stage came to a halt.
#[derive(Clone, Copy, PartialEq, Eq, Structural, Debug)]
pub enum Halt {
    NoPartitions,
    BootRecordRead,
    Mount(MountError),
}

/// How far the stage has got.
pub enum Start {
    Partitions(PartitionRead),
    BootRecord { part1_lba: u32 },
    Scanning { ctx: FsCtx, scan: DirScan },
    Menu { ctx: FsCtx, files: Vec<FoundFile> },
    Halted(Halt),
}

pub enum StartView {
    Partitions(PartitionReadView),
    BootRecord { part1_lba: u32 },
    Scanning { ctx: FsCtx, scan: ScanView },
    Menu { ctx: FsCtx, files: Seq<FileView> },
    Halted(Halt),
}

impl View for Start {
    type V = StartView;

    open spec fn view(&self) -> StartView {
        match *self {
            Start::Partitions(read) => StartView::Partitions(read@),
            Start::BootRecord { part1_lba } => StartView::BootRecord { part1_lba },
            Start::Scanning { ctx, scan } => StartView::Scanning { ctx, scan: scan@ },
            Start::Menu { ctx, files } => StartView::Menu { ctx, files: found::views(files@) },
            Start::Halted(h) => StartView::Halted(h),
        }
    }
}

/// The state once the partitions have been read this far: the stage boots from
/// the first of them.
pub open spec fn partitions_settled(read: PartitionReadView) -> StartView {
    match read {
        PartitionReadView::Done(parts) => if parts.len() == 0 {
            StartView::Halted(Halt::NoPartitions)
        } else {
            StartView::BootRecord { part1_lba: parts[0].start_lba }
        },
        _ => StartView::Partitions(read),
    }
}

/// The state once the disk images have been looked for this far.
pub open spec fn scan_settled(ctx: FsCtx, scan: ScanView) -> StartView {
    match scan.step {
        StepView::Done => StartView::Menu { ctx, files: scan.files },
        _ => StartView::Scanning { ctx, scan },
    }
}

pub open spec fn start_wanted(start: StartView) -> ScanAction {
    match start {
        StartView::Partitions(read) => part::read_wanted(read),
        StartView::BootRecord { part1_lba } => ScanAction::ReadSector(part1_lba as u64),
        StartView::Scanning { ctx, scan } => dir::scan_wanted(ctx.spec_volume(), scan.step),
        _ => ScanAction::Done,
    }
}

/// The state after the sector that was wanted is at hand, or `None` where it
/// cannot be read.
pub open spec fn start_next(start: StartView, sector: Option<Seq<u8>>) -> StartView {
    match start {
        StartView::Partitions(read) => partitions_settled(part::read_next(read, sector)),
        StartView::BootRecord { part1_lba } => match sector {
            None => StartView::Halted(Halt::BootRecordRead),
            Some(vbr) => match fs::spec_mount(part1_lba, vbr) {
                Err(e) => StartView::Halted(Halt::Mount(e)),
                Ok(ctx) => scan_settled(ctx, dir::scan_start(ctx.spec_volume(), Seq::empty())),
            },
        },
        StartView::Scanning { ctx, scan } => scan_settled(
            ctx,
            dir::scan_next(ctx.spec_volume(), Reader::Bios, scan, sector),
        ),
        _ => start,
    }
}

pub open spec fn halt_notice(h: Halt) -> Notice {
    match h {
        Halt::NoPartitions => Notice {
            row: 5,
            col: 2,
            text: "No partitions found. Halted.",
            attr: 0x0C,
        },
        Halt::BootRecordRead => Notice { row: 3, col: 2, text: "Failed to read VBR.", attr: 0x0C },
        Halt::Mount(MountError::UnknownFilesystem) => Notice {
            row: 3,
            col: 2,
            text: "Unknown filesystem.",
            attr: 0x0C,
        },
        Halt::Mount(MountError::InvalidClusterShift) => Notice {
            row: 3,
            col: 2,
            text: "Invalid SectorsPerClusterShift.",
            attr: 0x0C,
        },
        Halt::Mount(MountError::InvalidSectorsPerCluster) => Notice {
            row: 3,
            col: 2,
            text: "Invalid SPC.",
            attr: 0x0C,
        },
        Halt::Mount(MountError::InvalidMftRecordSize) => Notice {
            row: 3,
            col: 2,
            text: "Invalid MFT record size.",
            attr: 0x0C,
        },
    }
}

pub open spec fn detected_text(fs: FsType) -> &'static str {
    match fs {
        FsType::Exfat => "exFAT detected.",
        FsType::Fat32 => "FAT32 detected.",
        FsType::Ntfs => "NTFS detected.",
    }
}

/// The screen with the stage's banner.
pub open spec fn banner() -> Seq<u8> {
    vga::shown(
        vga::shown(
            vga::blank(0x07),
            Notice { row: 0, col: 0, text: "  Choosable Kernel v0.3  ", attr: 0x1F },
        ),
        Notice { row: 1, col: 0, text: "==========================", attr: 0x17 },
    )
}

/// The screen once a state was reached.
pub open spec fn reported(screen: Seq<u8>, start: StartView) -> Seq<u8> {
    match start {
        StartView::Partitions(_) => screen,
        StartView::BootRecord { .. } => vga::shown(
            screen,
            Notice { row: 2, col: 0, text: "Reading partition 1...", attr: 0x07 },
        ),
        StartView::Scanning { ctx, .. } | StartView::Menu { ctx, .. } => vga::shown(
            screen,
            Notice { row: 3, col: 0, text: detected_text(ctx.fs), attr: 0x0A },
        ),
        StartView::Halted(h) => vga::shown(screen, halt_notice(h)),
    }
}

fn make_halt_notice(h: Halt) -> (r: Notice)
    ensures
        r == halt_notice(h),
{
    match h {
        Halt::NoPartitions => Notice {
            row: 5,
            col: 2,
            text: "No partitions found. Halted.",
            attr: 0x0C,
        },
        Halt::BootRecordRead => Notice { row: 3, col: 2, text: "Failed to read VBR.", attr: 0x0C },
        Halt::Mount(e) => {
            let text: &'static str = match e {
                MountError::UnknownFilesystem => "Unknown filesystem.",
                MountError::InvalidClusterShift => "Invalid SectorsPerClusterShift.",
                MountError::InvalidSectorsPerCluster => "Invalid SPC.",
                MountError::InvalidMftRecordSize => "Invalid MFT record size.",
            };
            Notice { row: 3, col: 2, text, attr: 0x0C }
        },
    }
}

/// Clears the screen and puts up the stage's banner.
pub fn show_banner(screen: &mut [u8; 4000])
    ensures
        final(screen)@ == banner(),
{
    vga_clear(screen, 0x07);
    show(screen, &Notice { row: 0, col: 0, text: "  Choosable Kernel v0.3  ", attr: 0x1F });
    show(screen, &Notice { row: 1, col: 0, text: "==========================", attr: 0x17 });
}

impl Start {
    pub open spec fn wf(&self) -> bool {
        match *self {
            Start::Partitions(read) => read.wf(),
            Start::Scanning { ctx, scan } => scan.wf(ctx.spec_volume()),
            Start::Menu { files, .. } => found::all_wf(files@),
            _ => true,
        }
    }

    pub fn new() -> (r: Start)
        ensures
            r.wf(),
            r@ == StartView::Partitions(PartitionReadView::Mbr),
    {
        Start::Partitions(PartitionRead::Mbr)
    }

    /// The sector that is wanted next; none is once the menu is up or the
    /// stage halted.
    pub fn wanted(&self) -> (r: ScanAction)
        requires
            self.wf(),
        ensures
            r == start_wanted(self@),
    {
        match self {
            Start::Partitions(read) => read.wanted(),
            Start::BootRecord { part1_lba } => ScanAction::ReadSector(*part1_lba as u64),
            Start::Scanning { ctx, scan } => {
                let vol: dir::Volume = ctx.volume();
                scan.wanted(&vol)
            },
            _ => ScanAction::Done,
        }
    }

    fn settle_partitions(read: PartitionRead) -> (r: Start)
        requires
            read.wf(),
        ensures
            r.wf(),
            r@ == partitions_settled(read@),
    {
        match read {
            PartitionRead::Done { parts, count } => if count == 0 {
                Start::Halted(Halt::NoPartitions)
            } else {
                Start::BootRecord { part1_lba: parts[0].start_lba }
            },
            other => Start::Partitions(other),
        }
    }

    fn settle_scan(ctx: FsCtx, scan: DirScan) -> (r: Start)
        requires
            scan.wf(ctx.spec_volume()),
        ensures
            r.wf(),
            r@ == scan_settled(ctx, scan@),
    {
        match scan.step {
            ScanStep::Done => Start::Menu { ctx, files: scan.files },
            step => Start::Scanning { ctx, scan: DirScan { files: scan.files, step } },
        }
    }

    /// Takes in the sector that was wanted, or `None` where it cannot be read.
    pub fn step(self, sector: Option<&[u8; 512]>) -> (r: Start)
        requires
            self.wf(),
        ensures
            r.wf(),
            r@ == start_next(self@, chain::opt_view(sector)),
    {
        match self {
            Start::Partitions(read) => {
                let mut read: PartitionRead = read;
                read.read_partitions(sector);
                Start::settle_partitions(read)
            },
            Start::BootRecord { part1_lba } => match sector {
                None => Start::Halted(Halt::BootRecordRead),
                Some(vbr) => match mount(part1_lba, vbr) {
                    Err(e) => Start::Halted(Halt::Mount(e)),
                    Ok(ctx) => Start::settle_scan(ctx, begin_scan(&ctx)),
                },
            },
            Start::Scanning { ctx, scan } => {
                let mut scan: DirScan = scan;
                scan_filesystem(&ctx, &mut scan, sector);
                Start::settle_scan(ctx, scan)
            },
            other => other,
        }
    }

    /// Looks for disk images again, from an empty list on.
    pub fn rescan(ctx: FsCtx) -> (r: Start)
        ensures
            r.wf(),
            r@ == scan_settled(ctx, dir::scan_start(ctx.spec_volume(), Seq::empty())),
    {
        Start::settle_scan(ctx, begin_scan(&ctx))
    }

    /// Tells on the screen that the state was reached.
    pub fn report(&self, screen: &mut [u8; 4000])
        ensures
            final(screen)@ == reported(old(screen)@, self@),
    {
        match self {
            Start::Partitions(_) => {},
            Start::BootRecord { .. } => show(
                screen,
                &Notice { row: 2, col: 0, text: "Reading partition 1...", attr: 0x07 },
            ),
            Start::Scanning { ctx, .. } | Start::Menu { ctx, .. } => {
                let text: &'static str = match ctx.fs {
                    FsType::Exfat => "exFAT detected.",
                    FsType::Fat32 => "FAT32 detected.",
                    FsType::Ntfs => "NTFS detected.",
                };
                show(screen, &Notice { row: 3, col: 0, text, attr: 0x0A });
            },
            Start::Halted(h) => show(screen, &make_halt_notice(*h)),
        }
    }
}

/// The entries of the menu for the disk images that were found.
#[verifier::loop_isolation(false)]
pub fn entries(files: &[FoundFile]) -> (r: Vec<DirEntry>)
    requires
        found::all_wf(files@),
    ensures
        r@.len() == files@.len(),
        menu::names_fit(r@),
        forall|i: int| 0 <= i < r@.len() ==> (#[trigger] r@[i])@ == files@[i]@,
{
    let mut out: Vec<DirEntry> = Vec::new();
    let mut i: usize = 0;
    while i < files.len()
        invariant
            i <= files@.len(),
            out@.len() == i,
            menu::names_fit(out@),
            forall|k: int| 0 <= k < i ==> (#[trigger] out@[k])@ == files@[k]@,
        decreases files@.len() - i,
    {
        assert(files@[i as int].wf());
        out.push(DirEntry::from_found(&files[i]));
        i += 1;
    }
    out
}

/// The state after a series of reads.
pub open spec fn run(start: StartView, reads: Seq<Option<Seq<u8>>>) -> StartView
    decreases reads.len(),
{
    if reads.len() == 0 {
        start
    } else {
        start_next(run(start, reads.drop_last()), reads.last())
    }
}

/// Whether all that a state lists, or is about to list, are disk images, and no
/// more than fit.
pub open spec fn lists_bootable(start: StartView) -> bool {
    match start {
        StartView::Scanning { scan, .. } => {
            &&& dir::pending_bootable(scan.step)
            &&& dir::extends(Seq::empty(), scan.files)
        },
        StartView::Menu { files, .. } => dir::extends(Seq::empty(), files),
        _ => true,
    }
}

/// Whatever the disk holds, the menu lists disk images only, and no more of
/// them than it has room for.
pub proof fn menu_lists_bootable_files(reads: Seq<Option<Seq<u8>>>)
    ensures
        lists_bootable(run(StartView::Partitions(PartitionReadView::Mbr), reads)),
    decreases reads.len(),
{
    if reads.len() > 0 {
        let start = StartView::Partitions(PartitionReadView::Mbr);
        menu_lists_bootable_files(reads.drop_last());
        if let StartView::Scanning { ctx, scan } = run(start, reads.drop_last()) {
            dir::next_extends(ctx.spec_volume(), Reader::Bios, scan, reads.last());
        }
    }
}

/// A disk of which nothing can be read halts the stage for want of partitions.
pub proof fn unreadable_disk_halts()
    ensures
        start_next(StartView::Partitions(PartitionReadView::Mbr), None) == StartView::Halted(
            Halt::NoPartitions,
        ),
{
}

} // verus!
