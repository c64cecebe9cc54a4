//! What the installer does on the host: which disks it lists, what it finds on
//! them, and in which order it works.

use vstd::prelude::*;
use crate::checks;
use crate::checks::{MountView, NodeWait};
use crate::commands;
use crate::commands::{EfiFormat, Ran};
use crate::disk;
use crate::disk::{BlockDevice, DriveView};
use crate::disk_layout::{GptView, MbrView};
use crate::error::ErrorView;
use crate::install_flow;
use crate::install_flow::{Job, Operation, Outcome, Phase};
use crate::installer::FilesystemType;
use crate::text;

verus! {

// ---------------------------------------------------------------------------
// Detection
// ---------------------------------------------------------------------------

/// Choosable is on a disk with an MBR if and only if partition 1 starts at 1 MiB
/// and partition 2 right behind it, with 32 MiB.
pub proof fn detected_by_layout(m: MbrView)
    requires
        m.partitions[0].start_lba + m.partitions[0].sector_count <= 0xFFFF_FFFF,
    ensures
        ({
            let a = m.partitions[0];
            let b = m.partitions[1];
            let there = a.start_lba == 2048 && b.start_lba == a.start_lba + a.sector_count
                && b.sector_count == 65536;
            &&& disk::mbr_detect(m) is Some <==> there
            &&& disk::mbr_detect(m) matches Some(d) ==> d.part2_start == b.start_lba * 512
                && d.gpt_attr is None
        }),
{
}

/// The same with a GPT, where partition 2 also has to have its name.
pub proof fn detected_by_layout_and_name(g: GptView)
    requires
        g.partitions[0].end_lba < u64::MAX,
        g.partitions[1].start_lba <= g.partitions[1].end_lba < u64::MAX,
        g.partitions[1].start_lba * 512 <= u64::MAX,
        g.partitions[1].name.len() == 36,
    ensures
        ({
            let a = g.partitions[0];
            let b = g.partitions[1];
            let there = a.start_lba == 2048 && b.start_lba == a.end_lba + 1 && b.end_lba
                - b.start_lba + 1 == 65536 && b.name.take(7) == seq![
                0x43u16, 0x5A, 0x42, 0x4C, 0x45, 0x46, 0x49,
            ];
            &&& disk::gpt_detect(g) is Some <==> there
            &&& disk::gpt_detect(g) matches Some(d) ==> d.part2_start == b.start_lba * 512
                && d.gpt_attr == Some(b.attributes)
        }),
{
    assert(disk::EFI_NAME@ =~= seq![0x43u16, 0x5A, 0x42, 0x4C, 0x45, 0x46, 0x49]);
}

// ---------------------------------------------------------------------------
// Disks
// ---------------------------------------------------------------------------

/// A block device is listed as a disk if and only if it is none of the loop, RAM,
/// mapped and optical devices, its node is there, it is no partition, and its size
/// is told. It is listed with what the system tells of it.
pub proof fn disks_are_whole_and_present(d: BlockDevice)
    ensures
        ({
            let path = "/dev/"@ + d.name@;
            let size = disk::disk_size(path, disk::opt_string(d.sectors));
            let fits = !text::starts(d.name@, "loop"@) && !text::starts(d.name@, "ram"@)
                && !text::starts(d.name@, "dm-"@) && !text::starts(d.name@, "sr"@) && d.present
                && !d.has_start_file && size is Ok;
            &&& disk::drive_of(d) is Some <==> fits
            &&& disk::drive_of(d) matches Some(v) ==> {
                &&& v.disk_path == path
                &&& v.size_bytes == size->Ok_0
                &&& v.is_usb == (d.canonical is Some && text::contains(d.canonical->0@, "/usb"@))
                &&& v.removable == (d.removable is Some && text::trimmed(d.removable->0@) == "1"@)
                &&& d.model is Some ==> v.model == text::trimmed(d.model->0@)
                &&& d.model is None ==> v.model == "Unknown"@
                &&& v.sector_size_logical == disk::sector_size(disk::opt_string(d.logical))
                &&& v.sector_size_physical == disk::sector_size(disk::opt_string(d.physical))
            }
        }),
{
}

/// The size of a disk is 512 times the number of sectors that the system tells.
pub proof fn size_is_told_in_sectors(path: Seq<char>, sectors: u64)
    requires
        sectors * 512 <= u64::MAX,
        text::trimmed(text::numeral(sectors as nat)) == text::numeral(sectors as nat),
    ensures
        disk::disk_size(path, Some(text::numeral(sectors as nat))) == Ok::<u64, ErrorView>(
            (sectors * 512) as u64,
        ),
        disk::disk_size(path, None) is Err,
{
    text::numeral_round_trip(sectors as nat, u64::MAX as int);
}

proof fn found_drives(devices: Seq<BlockDevice>, j: int, i: int)
    requires
        0 <= j <= i < devices.len(),
        disk::drive_of(devices[i]) is Some,
    ensures
        disk::drives_from(devices, j).contains(disk::drive_of(devices[i])->0),
    decreases i - j,
{
    let all = disk::drives_from(devices, j);
    let v = disk::drive_of(devices[i])->0;
    if j == i {
        assert(all[0] == v);
    } else {
        found_drives(devices, j + 1, i);
        let rest = disk::drives_from(devices, j + 1);
        let k = choose|k: int| 0 <= k < rest.len() && rest[k] == v;
        if disk::drive_of(devices[j]) is Some {
            assert(all[k + 1] == v);
        } else {
            assert(all[k] == v);
        }
    }
}

proof fn drives_were_found(devices: Seq<BlockDevice>, j: int, v: DriveView)
    requires
        0 <= j <= devices.len(),
        disk::drives_from(devices, j).contains(v),
    ensures
        exists|i: int| j <= i < devices.len() && disk::drive_of(#[trigger] devices[i]) == Some(v),
    decreases devices.len() - j,
{
    let all = disk::drives_from(devices, j);
    let k = choose|k: int| 0 <= k < all.len() && all[k] == v;
    if j < devices.len() {
        if disk::drive_of(devices[j]) == Some(v) {
        } else {
            let rest = disk::drives_from(devices, j + 1);
            if disk::drive_of(devices[j]) is Some {
                assert(all[k] == rest[k - 1]);
            } else {
                assert(all[k] == rest[k]);
            }
            drives_were_found(devices, j + 1, v);
        }
    }
}

/// Every disk is listed, under its place in the list, and nothing else is. USB
/// disks come first, among these and the others removable ones, and among equals
/// the larger one.
pub proof fn every_disk_is_listed(devices: Seq<BlockDevice>)
    ensures
        ({
            let all = disk::numbered(disk::ranked(disk::drives_from(devices, 0)));
            &&& forall|i: int|
                0 <= i < devices.len() && disk::drive_of(#[trigger] devices[i]) is Some ==> exists|
                    k: int,
                |
                    0 <= k < all.len() && #[trigger] all[k] == (DriveView {
                        phy_drive: k,
                        ..disk::drive_of(devices[i])->0
                    })
            &&& forall|k: int| 0 <= k < all.len() ==> (#[trigger] all[k]).phy_drive == k
            &&& forall|a: int, b: int|
                0 <= a < b < all.len() ==> !goes_before(#[trigger] all[b], #[trigger] all[a])
        }),
{
    let found = disk::drives_from(devices, 0);
    let ranked = disk::ranked(found);
    let all = disk::numbered(ranked);
    disk::disks_are_listed_by_rank(found);
    assert forall|i: int|
        0 <= i < devices.len() && disk::drive_of(#[trigger] devices[i]) is Some implies exists|k: int|
        0 <= k < all.len() && #[trigger] all[k] == (DriveView {
            phy_drive: k,
            ..disk::drive_of(devices[i])->0
        }) by {
        let v = disk::drive_of(devices[i])->0;
        found_drives(devices, 0, i);
        broadcast use vstd::seq_lib::group_to_multiset_ensures;

        assert(found.to_multiset().count(v) > 0);
        assert(ranked.to_multiset().count(v) > 0);
        assert(ranked.contains(v));
        let k = choose|k: int| 0 <= k < ranked.len() && ranked[k] == v;
        assert(all[k] == (DriveView { phy_drive: k, ..v }));
    }
    assert forall|a: int, b: int| 0 <= a < b < all.len() implies !goes_before(
        #[trigger] all[b],
        #[trigger] all[a],
    ) by {
        assert(!disk::ranks_before(ranked[b], ranked[a]));
    }
}

/// Whether a disk goes before another in the list.
pub open spec fn goes_before(a: DriveView, b: DriveView) -> bool {
    ||| a.is_usb && !b.is_usb
    ||| a.is_usb == b.is_usb && a.removable && !b.removable
    ||| a.is_usb == b.is_usb && a.removable == b.removable && a.size_bytes > b.size_bytes
}

/// The name of a partition: the disk's, then the number, with a `p` in between on
/// NVMe and MMC disks.
pub proof fn partitions_are_named_by_number(name: Seq<char>, num: u32)
    requires
        name.len() > 0,
        !text::starts(name, "/dev/"@),
    ensures
        ({
            let dev = "/dev/"@ + name;
            let p = text::starts(name, "nvme"@) || text::starts(name, "mmcblk"@);
            disk::partition_name(dev, num) == (if p {
                dev + "p"@ + text::numeral(num as nat)
            } else {
                dev + text::numeral(num as nat)
            })
        }),
{
    reveal_strlit("/dev/");
    let dev = "/dev/"@ + name;
    assert(dev.take(5) =~= "/dev/"@);
    assert(dev.skip(5) =~= name);
    reveal_with_fuel(disk::stripped, 3);
}

// ---------------------------------------------------------------------------
// What is in the way
// ---------------------------------------------------------------------------

proof fn mount_is_undone(m: Seq<MountView>, d: Seq<char>, j: int, i: int)
    requires
        0 <= j <= i < m.len(),
        m[i].dev == d || checks::partition_of(m[i].dev, d),
    ensures
        checks::mounts_of(m, d, j).contains(m[i]),
    decreases i - j,
{
    let all = checks::mounts_of(m, d, j);
    if j == i {
        assert(all[0] == m[i]);
    } else {
        mount_is_undone(m, d, j + 1, i);
        let rest = checks::mounts_of(m, d, j + 1);
        let k = choose|k: int| 0 <= k < rest.len() && rest[k] == m[i];
        if checks::belongs(m[j].dev, d) {
            assert(all[k + 1] == m[i]);
        } else {
            assert(all[k] == m[i]);
        }
    }
}

proof fn mount_is_listed(lines: Seq<Seq<char>>, j: int, i: int)
    requires
        0 <= j <= i < lines.len(),
        text::words(lines[i]).len() >= 2,
    ensures
        checks::mounts_on(lines, j).contains(
            MountView { dev: text::words(lines[i])[0], mount_point: text::words(lines[i])[1] },
        ),
    decreases i - j,
{
    let all = checks::mounts_on(lines, j);
    let v = MountView { dev: text::words(lines[i])[0], mount_point: text::words(lines[i])[1] };
    if j == i {
        assert(all[0] == v);
    } else {
        mount_is_listed(lines, j + 1, i);
        let rest = checks::mounts_on(lines, j + 1);
        let k = choose|k: int| 0 <= k < rest.len() && rest[k] == v;
        if text::words(lines[j]).len() < 2 {
            assert(all[k] == v);
        } else {
            assert(all[k + 1] == v);
        }
    }
}

/// Every mount of the disk, or of a partition of it, is to be undone: the list
/// gives each by the first two words of a line. While there is one, the disk
/// counts as mounted.
pub proof fn every_mount_of_the_disk_is_undone(list: Seq<char>, d: Seq<char>, i: int)
    requires
        0 <= i < text::lines(list).len(),
        text::words(text::lines(list)[i]).len() >= 2,
        ({
            let dev = text::words(text::lines(list)[i])[0];
            dev == d || checks::partition_of(dev, d)
        }),
    ensures
        ({
            let w = text::words(text::lines(list)[i]);
            checks::mounts_of(checks::mounts(list), d, 0).contains(
                MountView { dev: w[0], mount_point: w[1] },
            )
        }),
        checks::mounts_of(checks::mounts(list), d, 0).len() > 0,
{
    let w = text::words(text::lines(list)[i]);
    let v = MountView { dev: w[0], mount_point: w[1] };
    let m = checks::mounts(list);
    mount_is_listed(text::lines(list), 0, i);
    let k = choose|k: int| 0 <= k < m.len() && m[k] == v;
    mount_is_undone(m, d, 0, k);
}

/// No other mount is.
pub proof fn only_mounts_of_the_disk_are_undone(m: Seq<MountView>, d: Seq<char>, j: int, v: MountView)
    requires
        0 <= j <= m.len(),
        checks::mounts_of(m, d, j).contains(v),
    ensures
        v.dev == d || checks::partition_of(v.dev, d),
        m.contains(v),
    decreases m.len() - j,
{
    let all = checks::mounts_of(m, d, j);
    let k = choose|k: int| 0 <= k < all.len() && all[k] == v;
    if j < m.len() {
        let rest = checks::mounts_of(m, d, j + 1);
        if checks::belongs(m[j].dev, d) {
            if k == 0 {
                assert(m[j] == v);
            } else {
                assert(rest[k - 1] == v);
                only_mounts_of_the_disk_are_undone(m, d, j + 1, v);
            }
        } else {
            assert(rest[k] == v);
            only_mounts_of_the_disk_are_undone(m, d, j + 1, v);
        }
    }
}

/// A device is a partition of a disk by its name: the disk's name and a number,
/// with a `p` in between where the disk's name ends in a digit.
pub proof fn partitions_are_told_by_their_names(d: Seq<char>, rest: Seq<char>)
    requires
        d.len() > 0,
        rest.len() > 0,
    ensures
        text::is_digit(d.last()) ==> (checks::partition_of(d + rest, d) <==> rest.len() > 1 && rest[0]
            == 'p' && text::is_digit(rest[1])),
        !text::is_digit(d.last()) ==> (checks::partition_of(d + rest, d) <==> text::is_digit(rest[0])),
        !checks::partition_of(d, d),
{
    assert((d + rest).take(d.len() as int) =~= d);
    assert((d + rest).skip(d.len() as int) =~= rest);
}

/// The nodes of both partitions count as there only when they were seen, and as
/// missing only after ten looks, each a second after the other, and one more after
/// the nodes were added by hand.
pub proof fn nodes_are_waited_for(w: NodeWait, present: bool)
    ensures
        checks::wait_next(w, present) is Present && !(w is Present) ==> present && (w is Look
            || w is LastLook),
        present && (w is Look || w is LastLook) ==> checks::wait_next(w, present) is Present,
        checks::wait_next(w, present) is Missing && !(w is Missing) ==> w is LastLook && !present,
        checks::wait_next(w, present) is LastLook && !(w is LastLook) ==> w is AddNodes,
        checks::wait_next(w, present) is AddNodes && !(w is AddNodes) ==> (w matches NodeWait::Pause {
            attempt,
            ..
        } && attempt >= 9),
        forall|n: u32, probe: bool|
            n < 9 && w == (NodeWait::Pause { attempt: n, probe }) ==> #[trigger] checks::wait_next(
                NodeWait::Pause { attempt: n, probe },
                present,
            ) == (NodeWait::Look { attempt: (n + 1) as u32 }),
        forall|n: u32|
            #[trigger] checks::wait_next(NodeWait::Look { attempt: n }, false) == (NodeWait::Pause {
                attempt: n,
                probe: n == 2,
            }),
{
}

// ---------------------------------------------------------------------------
// Commands
// ---------------------------------------------------------------------------

/// Formatting is done on the partition that is meant, with the label that is
/// meant: the partition is the last argument of each command, and the label the
/// argument behind `-n` or `-L`.
pub proof fn partition_is_formatted_with_its_label(
    fs: FilesystemType,
    part: Seq<char>,
    label: Seq<char>,
    sectors: u64,
    i: int,
)
    requires
        0 <= i < commands::formatting(fs, part, label, sectors).len(),
    ensures
        ({
            let c = commands::formatting(fs, part, label, sectors)[i];
            &&& c.args.len() >= 3
            &&& c.args.last() == part
            &&& fs != FilesystemType::Ntfs ==> c.args[0] == "-n"@ && c.args[1] == label
            &&& fs == FilesystemType::Ntfs ==> c.cmd == "mkfs.ntfs"@ && c.args[1] == "-L"@ && c.args[2]
                == label
            &&& fs == FilesystemType::Fat32 ==> c.cmd == "mkfs.vfat"@ && c.args[2] == "-F"@
                && c.args[3] == "32"@
            &&& fs == FilesystemType::ExFat && i == 0 ==> c.cmd == "mkexfatfs"@ && c.args[2] == "-s"@
                && c.args[3] == (if sectors > 33 * 0x20_0000 - 1 {
                "256"@
            } else {
                "64"@
            })
        }),
        commands::formatting(fs, part, label, sectors).len() == (if fs == FilesystemType::ExFat {
            3nat
        } else {
            1nat
        }),
{
}

/// A format is over once a command worked; one that did not is followed by the
/// next where there is one, and else the format has failed.
pub proof fn format_ends_with_success_or_the_last(fs: FilesystemType, tried: int, ran: Ran)
    ensures
        commands::after_format(fs, tried, ran) is Done <==> (ran matches Ran::Ended { success, .. }
            && success),
        commands::after_format(fs, tried, ran) is TryNext ==> fs == FilesystemType::ExFat && tried
            < 2,
        fs == FilesystemType::ExFat && tried < 2 && !(ran matches Ran::Ended { success, .. }
            && success) ==> commands::after_format(fs, tried, ran) is TryNext,
{
}

/// The EFI partition is partition 2, and gets FAT16, one sector to a cluster and
/// its label; the format is tried up to ten times, unless the tool is missing.
pub proof fn efi_partition_is_formatted(part: Seq<char>, attempt: int)
    ensures
        ({
            let c = commands::efi_formatting(part);
            &&& c.cmd == "mkfs.vfat"@
            &&& c.args.last() == part
            &&& c.args[0] == "-F"@ && c.args[1] == "16"@
            &&& c.args[2] == "-n"@ && c.args[3] == "CZBLEFI"@
            &&& c.args[4] == "-s"@ && c.args[5] == "1"@
        }),
        commands::after_efi_format(attempt, EfiFormat::Success) is Done,
        commands::after_efi_format(attempt, EfiFormat::NoTool) is Fail,
        commands::after_efi_format(attempt, EfiFormat::Failed) is TryNext <==> attempt < 9,
        commands::after_efi_format(attempt, EfiFormat::Failed) is Fail <==> attempt >= 9,
{
}

/// Partition 1 is shrunk to as many MiB as were planned, and only where its
/// filesystem can be: NTFS, or one of the ext family. It is checked before.
pub proof fn shrinking_is_to_the_planned_size(fs: Seq<char>, part: Seq<char>, mb: u64)
    ensures
        ({
            let size = text::numeral(mb as nat) + "M"@;
            let ext = fs == "ext4"@ || fs == "ext3"@ || fs == "ext2"@;
            match commands::shrinking(fs, part, mb) {
                Ok(c) => {
                    &&& fs == "ntfs"@ || ext
                    &&& c.len() == 2
                    &&& c[0].args.last() == part
                    &&& c[1].args.contains(part)
                    &&& c[1].args.contains(size)
                    &&& fs == "ntfs"@ ==> c[0].cmd == "ntfsfix"@ && c[1].cmd == "ntfsresize"@
                    &&& fs != "ntfs"@ ==> c[0].cmd == "e2fsck"@ && c[1].cmd == "resize2fs"@
                },
                Err(e) => fs != "ntfs"@ && !ext && e is UnsupportedFilesystem,
            }
        }),
{
    let size = text::numeral(mb as nat) + "M"@;
    if let Ok(c) = commands::shrinking(fs, part, mb) {
        if fs == "ntfs"@ {
            assert(c[1].args[2] == size);
            assert(c[1].args[3] == part);
        } else {
            assert(c[1].args[0] == part);
            assert(c[1].args[1] == size);
        }
    }
}

// ---------------------------------------------------------------------------
// The order of the work
// ---------------------------------------------------------------------------

/// What fails ends the work, unless it only has to do with telling the system
/// about it; nothing is done once the work has ended.
pub proof fn failure_ends_the_work(job: Job, p: Phase, o: Outcome)
    ensures
        p is Survey || p is Unmount || p is CheckSwap || p is CheckTools || p is Detect || p is Inspect
            || p is MakeRoom || p is WriteDisk || p is RefreshNodes || p is FormatData
            || p is FormatEfi || p is WriteLoader || p is FixAttributes || p is DropSecureBoot
            ==> install_flow::next_phase(job, p, Outcome::Failed) is Failed,
        p is Done || p is NotNeeded || p is Aborted || p is Failed ==> install_flow::next_phase(
            job,
            p,
            o,
        ) == p,
        (p is Confirm || p is ConfirmAgain) ==> install_flow::next_phase(
            job,
            p,
            Outcome::Answer(false),
        ) is Aborted,
{
}

/// What has to have been done before a phase, for each phase from the first write
/// on.
pub open spec fn comes_after(job: Job, p: Phase) -> Phase {
    match p {
        Phase::WriteDisk => Phase::StopUdev,
        Phase::RefreshNodes => Phase::WriteDisk,
        Phase::FormatData => Phase::RefreshNodes,
        Phase::FormatEfi => if job.op == Operation::Install {
            Phase::FormatData
        } else {
            Phase::RefreshNodes
        },
        Phase::WriteLoader => if job.op == Operation::Update {
            Phase::WriteDisk
        } else {
            Phase::FormatEfi
        },
        Phase::StartUdev => Phase::NotifyKernel,
        Phase::NotifyUdev => Phase::StartUdev,
        Phase::Done => Phase::NotifyUdev,
        Phase::Inspect => Phase::Detect,
        Phase::CheckTools => Phase::CheckSwap,
        Phase::CheckSwap => Phase::Unmount,
        _ => p,
    }
}

/// The phases follow each other in their order: partitions are formatted after the
/// table was written, the loader is written after its partition was formatted, and
/// the work is done after all of this. What is on the disk is looked for, and
/// mounts are undone, before anything else.
pub proof fn phases_follow_in_order(job: Job, p: Phase, o: Outcome)
    requires
        p is FormatData ==> job.op == Operation::Install,
        p is FormatEfi || p is RefreshNodes ==> job.op != Operation::Update,
        p is MakeRoom ==> job.op == Operation::NonDestructive,
    ensures
        ({
            let q = install_flow::next_phase(job, p, o);
            &&& q != p && comes_after(job, q) != q ==> p == comes_after(job, q)
            &&& q is NotifyKernel && q != p ==> p is WriteLoader || p is FixAttributes
                || p is DropSecureBoot
            &&& q is StopUdev && q != p ==> (if job.op == Operation::NonDestructive {
                p is MakeRoom
            } else if job.op == Operation::Install {
                p is ConfirmAgain || job.yes
            } else {
                p is Confirm || p is ConfirmAgain || job.yes
            })
            &&& q is MakeRoom && q != p ==> job.op == Operation::NonDestructive
            &&& q is Detect && q != p ==> p is Survey || p is CheckSwap || p is CheckTools
            &&& q is Unmount && q != p ==> (if job.op == Operation::Update {
                p is Detect
            } else {
                p is Survey
            })
        }),
{
}

/// The work of an installation that goes well, phase by phase.
pub proof fn good_installation_runs_through(job: Job)
    requires
        job.op == Operation::Install,
        job.yes,
        job.secure_boot,
    ensures
        ({
            let w = Outcome::Worked;
            let a = |p: Phase| install_flow::next_phase(job, p, w);
            &&& a(Phase::Survey) is Unmount
            &&& a(Phase::Unmount) is CheckSwap
            &&& a(Phase::CheckSwap) is CheckTools
            &&& a(Phase::CheckTools) is Detect
            &&& a(Phase::Detect) is StopUdev
            &&& a(Phase::StopUdev) is WriteDisk
            &&& a(Phase::WriteDisk) is RefreshNodes
            &&& a(Phase::RefreshNodes) is FormatData
            &&& a(Phase::FormatData) is FormatEfi
            &&& a(Phase::FormatEfi) is WriteLoader
            &&& a(Phase::WriteLoader) is NotifyKernel
            &&& a(Phase::NotifyKernel) is StartUdev
            &&& a(Phase::StartUdev) is NotifyUdev
            &&& a(Phase::NotifyUdev) is Done
        }),
{
}

/// An installation that keeps the data makes room before it writes, formats only
/// the EFI partition, and with a GPT puts that partition's attributes right. An
/// update looks for Choosable first, writes the boot images and the loader, and
/// formats nothing.
pub proof fn gentle_work_runs_through(job: Job)
    requires
        job.yes,
        job.secure_boot,
    ensures
        ({
            let w = Outcome::Worked;
            let a = |p: Phase| install_flow::next_phase(job, p, w);
            &&& job.op == Operation::NonDestructive ==> {
                &&& a(Phase::Survey) is Unmount
                &&& a(Phase::Unmount) is CheckSwap
                &&& a(Phase::CheckSwap) is Detect
                &&& a(Phase::Detect) is Inspect
                &&& a(Phase::Inspect) is MakeRoom
                &&& a(Phase::MakeRoom) is StopUdev
                &&& a(Phase::WriteDisk) is RefreshNodes
                &&& a(Phase::RefreshNodes) is FormatEfi
                &&& a(Phase::FormatEfi) is WriteLoader
                &&& job.is_gpt ==> a(Phase::WriteLoader) is FixAttributes
                &&& !job.is_gpt ==> a(Phase::WriteLoader) is NotifyKernel
                &&& a(Phase::FixAttributes) is NotifyKernel
                &&& install_flow::next_phase(job, Phase::Detect, Outcome::AlreadyThere) is NotNeeded
            }
            &&& job.op == Operation::Update ==> {
                &&& a(Phase::Survey) is Detect
                &&& a(Phase::Detect) is Unmount
                &&& a(Phase::Unmount) is StopUdev
                &&& a(Phase::StopUdev) is WriteDisk
                &&& a(Phase::WriteDisk) is WriteLoader
                &&& job.is_gpt ==> a(Phase::WriteLoader) is FixAttributes
                &&& !job.is_gpt ==> a(Phase::WriteLoader) is NotifyKernel
                &&& a(Phase::FixAttributes) is NotifyKernel
            }
        }),
{
}

} // verus!
