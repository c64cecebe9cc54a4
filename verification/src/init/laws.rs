//! What the early userspace does with what it is told.

use vstd::prelude::*;
use crate::init::mount;
use crate::init::mount::{CdromProbe, Distro, EventView, LoopMount, PremountView};
use crate::init::target;
use crate::init::target::{LinkView, SysPartition};
use crate::text;

verus! {

// ---------------------------------------------------------------------------
// Mounting the disk image on one device
// ---------------------------------------------------------------------------

/// The disk image gets mounted by a loop device only after that very loop device
/// was bound, its offset was set where there is one, and mounting it worked.
pub proof fn image_is_mounted_at_its_offset(step: LoopMount, offset: u64, ok: bool)
    ensures
        ({
            let next = mount::loop_next(step, offset, ok);
            &&& next matches LoopMount::Done(Some(n)) ==> step == next || (step
                == (LoopMount::MountFs { number: n }) && ok)
            &&& next matches LoopMount::MountFs { number } ==> ok && (if offset > 0 {
                step == (LoopMount::SetOffset { number })
            } else {
                step == (LoopMount::SetOffset { number }) || step == (LoopMount::Attach { number })
            })
            &&& next matches LoopMount::SetOffset { number } ==> ok && step == (
            LoopMount::Attach { number })
        }),
{
}

/// While steps work, the mount goes on, and in the end the disk image is mounted
/// by the loop device that was bound.
pub proof fn working_steps_mount_the_image(number: u32, offset: u64)
    ensures
        ({
            let attached = mount::loop_next(LoopMount::Attach { number }, offset, true);
            let ready = if offset > 0 {
                mount::loop_next(attached, offset, true)
            } else {
                attached
            };
            mount::loop_next(ready, offset, true) == LoopMount::Done(Some(number))
        }),
        mount::loop_next(LoopMount::OpenDevice, offset, true) is Attach,
{
}

/// The loop device that is tried after `k` of them could not be bound.
pub open spec fn attach_failed(k: nat, offset: u64) -> LoopMount
    decreases k,
{
    if k == 0 {
        mount::loop_next(LoopMount::OpenDevice, offset, true)
    } else {
        mount::loop_next(attach_failed((k - 1) as nat, offset), offset, false)
    }
}

/// A device that can be opened is given up only once none of the loop devices 0
/// to 7 can be bound; each is tried, in turn.
pub proof fn eight_loop_devices_are_tried(k: nat, offset: u64)
    ensures
        k < 8 ==> attach_failed(k, offset) == (LoopMount::Attach { number: k as u32 }),
        k >= 8 ==> attach_failed(k, offset) == LoopMount::Done(None),
        mount::loop_next(LoopMount::OpenDevice, offset, false) == LoopMount::Done(None),
    decreases k,
{
    if k > 0 {
        eight_loop_devices_are_tried((k - 1) as nat, offset);
    }
}

/// A loop device that was bound in vain is unbound before the device is given up.
pub proof fn failed_mount_unbinds(step: LoopMount, offset: u64, again: bool)
    ensures
        (step is SetOffset || step is MountFs) ==> {
            let failed = mount::loop_next(step, offset, false);
            &&& failed is Clear
            &&& mount::bound(failed) == mount::bound(step)
            &&& mount::loop_next(failed, offset, again) == LoopMount::Done(None)
        },
{
}

// ---------------------------------------------------------------------------
// The whole
// ---------------------------------------------------------------------------

/// The step after a series of events.
pub open spec fn premount_run(step: PremountView, events: Seq<EventView>) -> PremountView
    decreases events.len(),
{
    if events.len() == 0 {
        step
    } else {
        premount_run(mount::premount_next(step, events[0]), events.skip(1))
    }
}

/// The devices that the disk image was tried to be mounted on meanwhile.
pub open spec fn mount_tries(step: PremountView, events: Seq<EventView>) -> Seq<Seq<char>>
    decreases events.len(),
{
    if events.len() == 0 {
        Seq::empty()
    } else {
        let rest = mount_tries(mount::premount_next(step, events[0]), events.skip(1));
        match (step, events[0]) {
            (PremountView::Mount { dev }, EventView::Outcome(_)) => seq![dev] + rest,
            (PremountView::TryMount { devs }, EventView::Outcome(_)) => seq![devs[0]] + rest,
            _ => rest,
        }
    }
}

/// The partition list that was read meanwhile, if any was asked for; `None`
/// within where it could not be read.
pub open spec fn list_read(step: PremountView, events: Seq<EventView>) -> Option<Option<Seq<char>>>
    decreases events.len(),
{
    if events.len() == 0 {
        None
    } else {
        match (step, events[0]) {
            (PremountView::ListPartitions, EventView::List(list)) => Some(list),
            _ => list_read(mount::premount_next(step, events[0]), events.skip(1)),
        }
    }
}

/// A device that was found, by UUID or by number, is the device that is mounted
/// next, whichever it is. Where none was found by UUID, it is looked for by
/// number if there is one, and where none was found at all, every partition is.
pub proof fn found_device_is_mounted(guid: Seq<char>, num: Option<u32>, n: u32, dev: Seq<char>)
    ensures
        mount::premount_next(
            PremountView::FindByUuid { guid, or_num: num },
            EventView::Found(Some(dev)),
        ) == (PremountView::Mount { dev }),
        mount::premount_next(
            PremountView::FindByNumber { num: n },
            EventView::Found(Some(dev)),
        ) == (PremountView::Mount { dev }),
        mount::premount_next(
            PremountView::FindByUuid { guid, or_num: Some(n) },
            EventView::Found(None),
        ) == (PremountView::FindByNumber { num: n }),
        mount::premount_next(
            PremountView::FindByUuid { guid, or_num: None },
            EventView::Found(None),
        ) is ListPartitions,
        mount::premount_next(
            PremountView::FindByNumber { num: n },
            EventView::Found(None),
        ) is ListPartitions,
{
}

/// The partition is looked for by the UUID of the command line wherever that
/// gives one, by its number where it gives only that, and among all partitions
/// where it gives neither.
pub proof fn command_line_says_where_to_look(guid: Option<Seq<char>>, num: Option<u32>)
    ensures
        guid matches Some(g) ==> mount::first(guid, num) == (PremountView::FindByUuid {
            guid: g,
            or_num: num,
        }),
        guid is None ==> (num matches Some(n) ==> mount::first(guid, num) == (
        PremountView::FindByNumber { num: n })),
        guid is None && num is None ==> mount::first(guid, num) is ListPartitions,
{
}

/// Whether the disk image is mounted while a step is taken.
pub open spec fn image_mounted(step: PremountView) -> bool {
    match step {
        PremountView::Check
        | PremountView::Release
        | PremountView::TryCheck { .. }
        | PremountView::TryRelease { .. } => true,
        PremountView::ExecInit { mounted } => mounted,
        _ => false,
    }
}

/// The disk image gets mounted only by a mount that works, and unmounted only by
/// unmounting it: the next init is told that there is a disk image if and only
/// if one is mounted then.
pub proof fn mounts_are_kept_track_of(step: PremountView, event: EventView)
    ensures
        image_mounted(mount::premount_next(step, event)) == (match (step, event) {
            (PremountView::Mount { .. }, EventView::Outcome(ok)) => ok,
            (PremountView::TryMount { .. }, EventView::Outcome(ok)) => ok,
            (PremountView::Release, EventView::Outcome(_)) => false,
            (PremountView::TryRelease { .. }, EventView::Outcome(_)) => false,
            _ => image_mounted(step),
        }),
{
}

/// A disk image that was mounted and will do is the one that the next init runs
/// with. One that will not do is unmounted, and the other partitions are tried;
/// the same where it cannot be mounted.
pub proof fn mounted_image_is_used_or_released(dev: Seq<char>, devs: Seq<Seq<char>>, any: bool)
    requires
        devs.len() > 0,
    ensures
        ({
            let yes = EventView::Outcome(true);
            let no = EventView::Outcome(false);
            let it = PremountView::Mount { dev };
            let first = PremountView::TryMount { devs };
            let rest = if devs.len() > 1 {
                PremountView::TryMount { devs: devs.skip(1) }
            } else {
                PremountView::ExecInit { mounted: false }
            };
            let left = EventView::Outcome(any);
            &&& premount_run(it, seq![yes, yes]) == (PremountView::ExecInit { mounted: true })
            &&& premount_run(first, seq![yes, yes]) == (PremountView::ExecInit { mounted: true })
            &&& premount_run(it, seq![no]) is ListPartitions
            &&& premount_run(it, seq![yes, no, left]) is ListPartitions
            &&& premount_run(first, seq![no]) == rest
            &&& premount_run(first, seq![yes, no, left]) == rest
        }),
{
    reveal_with_fuel(premount_run, 4);
    let yes = EventView::Outcome(true);
    let no = EventView::Outcome(false);
    let left = EventView::Outcome(any);
    assert(seq![yes, yes].skip(1) =~= seq![yes]);
    assert(seq![yes].skip(1) =~= Seq::empty());
    assert(seq![no].skip(1) =~= Seq::empty());
    assert(seq![yes, no, left].skip(1) =~= seq![no, left]);
    assert(seq![no, left].skip(1) =~= seq![left]);
    assert(seq![left].skip(1) =~= Seq::empty());
}

/// The devices that a step still is to try.
pub open spec fn still_to_try(step: PremountView) -> Seq<Seq<char>> {
    match step {
        PremountView::TryMount { devs } => devs,
        PremountView::TryCheck { devs } | PremountView::TryRelease { devs } => devs.skip(1),
        _ => Seq::empty(),
    }
}

proof fn rest_is_tried(step: PremountView, events: Seq<EventView>)
    requires
        step is TryMount || step is TryCheck || step is TryRelease || step is ExecInit,
        mount::listed(step),
        premount_run(step, events) == (PremountView::ExecInit { mounted: false }),
    ensures
        mount_tries(step, events) == still_to_try(step),
    decreases events.len(),
{
    if events.len() > 0 {
        let next = mount::premount_next(step, events[0]);
        let rest = events.skip(1);
        all_or_used(next, rest);
        rest_is_tried(next, rest);
        match (step, events[0]) {
            (PremountView::TryMount { devs }, EventView::Outcome(ok)) => {
                assert(seq![devs[0]] + devs.skip(1) =~= devs);
                assert(still_to_try(next) =~= devs.skip(1));
            },
            (PremountView::TryRelease { devs }, EventView::Outcome(_)) => {
                assert(still_to_try(next) =~= devs.skip(1));
            },
            _ => {},
        }
    }
}

proof fn all_is_tried(step: PremountView, events: Seq<EventView>)
    requires
        !(step is TryMount || step is TryCheck || step is TryRelease || step is ExecInit),
        premount_run(step, events) == (PremountView::ExecInit { mounted: false }),
    ensures
        list_read(step, events) is Some,
        list_read(step, events)->0 matches Some(list) ==> forall|d: Seq<char>|
            #[trigger] target::listed_devices(text::lines(list), 2).contains(d) ==> mount_tries(
                step,
                events,
            ).contains(d),
    decreases events.len(),
{
    let next = mount::premount_next(step, events[0]);
    let rest = events.skip(1);
    let after = mount_tries(next, rest);
    match (step, events[0]) {
        (PremountView::ListPartitions, EventView::List(Some(list))) => {
            rest_is_tried(next, rest);
            assert(still_to_try(next) =~= target::listed_devices(text::lines(list), 2));
        },
        (PremountView::ListPartitions, EventView::List(None)) => {},
        (PremountView::Mount { dev }, EventView::Outcome(_)) => {
            all_or_used(next, rest);
            all_is_tried(next, rest);
            assert forall|d: Seq<char>| after.contains(d) implies (seq![dev] + after).contains(
                d,
            ) by {
                let k = choose|k: int| 0 <= k < after.len() && after[k] == d;
                assert((seq![dev] + after)[k + 1] == d);
            }
        },
        _ => {
            all_or_used(next, rest);
            all_is_tried(next, rest);
        },
    }
}

/// Once the next init runs, nothing else is done.
proof fn all_or_used(step: PremountView, events: Seq<EventView>)
    ensures
        step is ExecInit ==> premount_run(step, events) == step,
    decreases events.len(),
{
    if events.len() > 0 {
        all_or_used(mount::premount_next(step, events[0]), events.skip(1));
    }
}

/// The next init is run without a disk image only after the partition list could
/// not be read, or after the disk image was tried to be mounted on every
/// partition that the list names below its heading, but for loop, RAM, mapped and
/// optical devices.
pub proof fn init_runs_alone_only_after_all_was_tried(
    guid: Option<Seq<char>>,
    num: Option<u32>,
    events: Seq<EventView>,
)
    requires
        premount_run(mount::first(guid, num), events) == (PremountView::ExecInit {
            mounted: false,
        }),
    ensures
        list_read(mount::first(guid, num), events) is Some,
        list_read(mount::first(guid, num), events)->0 matches Some(list) ==> forall|i: int|
            2 <= i < text::lines(list).len() && names_partition(#[trigger] text::lines(list)[i])
                ==> mount_tries(mount::first(guid, num), events).contains(
                "/dev/"@ + text::words(text::lines(list)[i])[3],
            ),
{
    let step = mount::first(guid, num);
    all_is_tried(step, events);
    if let Some(list) = list_read(step, events)->0 {
        let lines = text::lines(list);
        assert forall|i: int|
            2 <= i < lines.len() && names_partition(#[trigger] lines[i]) implies mount_tries(
            step,
            events,
        ).contains("/dev/"@ + text::words(lines[i])[3]) by {
            named_partition_is_listed(lines, 2, i);
        }
    }
}

// ---------------------------------------------------------------------------
// Which device
// ---------------------------------------------------------------------------

/// Whether a line of the partition list names a device, and none that cannot hold
/// a disk image.
pub open spec fn names_partition(line: Seq<char>) -> bool {
    let name = text::words(line)[3];
    &&& text::words(line).len() >= 4
    &&& !text::starts(name, "loop"@)
    &&& !text::starts(name, "ram"@)
    &&& !text::starts(name, "dm"@)
    &&& !text::starts(name, "sr"@)
}

proof fn named_partition_is_listed(lines: Seq<Seq<char>>, j: int, i: int)
    requires
        0 <= j <= i < lines.len(),
        names_partition(lines[i]),
    ensures
        target::listed_devices(lines, j).contains("/dev/"@ + text::words(lines[i])[3]),
    decreases i - j,
{
    let all = target::listed_devices(lines, j);
    let dev = "/dev/"@ + text::words(lines[i])[3];
    if j == i {
        assert(all[0] == dev);
    } else {
        named_partition_is_listed(lines, j + 1, i);
        let rest = target::listed_devices(lines, j + 1);
        let k = choose|k: int| 0 <= k < rest.len() && rest[k] == dev;
        match target::listed_device(lines[j]) {
            None => {
                assert(all[k] == dev);
            },
            Some(d) => {
                assert(all[k + 1] == dev);
            },
        }
    }
}

/// The place in the list of the device that the line at `i` names.
pub open spec fn named_before(lines: Seq<Seq<char>>, j: int, i: int) -> nat
    decreases i - j,
{
    if j >= i {
        0
    } else {
        named_before(lines, j + 1, i) + (if names_partition(lines[j]) {
            1nat
        } else {
            0nat
        })
    }
}

/// Each line of the partition list that names a partition gives one device, in
/// the order of the lines, and no other line gives any.
pub proof fn partitions_are_tried_in_order(lines: Seq<Seq<char>>, j: int, i: int)
    requires
        0 <= j <= i <= lines.len(),
    ensures
        i == lines.len() ==> target::listed_devices(lines, j).len() == named_before(lines, j, i),
        i < lines.len() && names_partition(lines[i]) ==> {
            &&& named_before(lines, j, i) < target::listed_devices(lines, j).len()
            &&& target::listed_devices(lines, j)[named_before(lines, j, i) as int] == "/dev/"@
                + text::words(lines[i])[3]
        },
    decreases i - j,
{
    if j < i {
        partitions_are_tried_in_order(lines, j + 1, i);
    }
}

/// Whether a partition tells a UUID, apart from letter case and the blanks around
/// it.
pub open spec fn bears(p: SysPartition, guid: Seq<char>) -> bool {
    p.uuid is Some && text::upper(text::trimmed(p.uuid->0@)) == text::upper(guid)
}

proof fn told_is_first(parts: Seq<SysPartition>, guid: Seq<char>, j: int)
    requires
        0 <= j <= parts.len(),
    ensures
        match target::told(parts, guid, j) {
            Some(dev) => exists|i: int|
                j <= i < parts.len() && bears(#[trigger] parts[i], guid) && dev == "/dev/"@
                    + parts[i].name@ && forall|k: int| j <= k < i ==> !bears(#[trigger] parts[k], guid),
            None => forall|i: int| j <= i < parts.len() ==> !bears(#[trigger] parts[i], guid),
        },
    decreases parts.len() - j,
{
    if j < parts.len() {
        told_is_first(parts, guid, j + 1);
        if bears(parts[j], guid) {
            assert(target::told(parts, guid, j) == Some("/dev/"@ + parts[j].name@));
        } else if let Some(dev) = target::told(parts, guid, j + 1) {
            let i = choose|i: int|
                j + 1 <= i < parts.len() && bears(#[trigger] parts[i], guid) && dev == "/dev/"@
                    + parts[i].name@ && forall|k: int|
                    j + 1 <= k < i ==> !bears(#[trigger] parts[k], guid);
            assert(forall|k: int| j <= k < i ==> !bears(#[trigger] parts[k], guid));
        }
    }
}

/// A partition UUID leads to where its link leads, to the link itself where that
/// cannot be told, and without a link to the first partition that bears the UUID;
/// to none only where no partition does.
pub proof fn uuid_leads_to_its_partition(guid: Seq<char>, link: LinkView, parts: Seq<SysPartition>)
    ensures
        link matches LinkView::Target(t) ==> target::uuid_device(guid, link, parts) == Some(
            if t.len() > 0 && t[0] == '/' {
                t
            } else {
                "/dev/disk/by-partuuid/"@ + t
            },
        ),
        link is Unreadable ==> target::uuid_device(guid, link, parts) == Some(
            "/dev/disk/by-partuuid/"@ + guid,
        ),
        link is Missing ==> match target::uuid_device(guid, link, parts) {
            Some(dev) => exists|i: int|
                0 <= i < parts.len() && bears(#[trigger] parts[i], guid) && dev == "/dev/"@
                    + parts[i].name@ && forall|k: int| 0 <= k < i ==> !bears(#[trigger] parts[k], guid),
            None => forall|i: int| 0 <= i < parts.len() ==> !bears(#[trigger] parts[i], guid),
        },
{
    told_is_first(parts, guid, 0);
    if let LinkView::Target(t) = link {
        reveal_strlit("/");
        if t.len() > 0 {
            assert(t.take(1) =~= seq![t[0]]);
            assert("/"@ =~= seq!['/']);
            assert(seq![t[0]][0] == t[0]);
            assert(seq!['/'][0] == '/');
        }
    }
}

/// How many disks from `j` up to `i` can hold a disk image.
pub open spec fn disks_before(disks: Seq<Seq<char>>, j: int, i: int) -> nat
    decreases i - j,
{
    if j >= i {
        0
    } else {
        disks_before(disks, j + 1, i) + (if target::is_virtual(disks[j]) {
            0nat
        } else {
            1nat
        })
    }
}

/// By number, each disk that can hold a disk image gives one device, in the order
/// of the disks: its own name and the number, with a `p` in between where the
/// name ends in a digit.
pub proof fn numbered_devices_are_in_order(disks: Seq<Seq<char>>, num: u32, j: int, i: int)
    requires
        0 <= j <= i <= disks.len(),
    ensures
        i == disks.len() ==> target::numbered_devices(disks, num, j).len() == disks_before(
            disks,
            j,
            i,
        ),
        i < disks.len() && !target::is_virtual(disks[i]) ==> {
            let digits = text::numeral(num as nat);
            let p = if disks[i].len() > 0 && text::numeric(disks[i].last()) {
                "p"@
            } else {
                ""@
            };
            &&& disks_before(disks, j, i) < target::numbered_devices(disks, num, j).len()
            &&& target::numbered_devices(disks, num, j)[disks_before(disks, j, i) as int]
                == "/dev/"@ + disks[i] + p + digits
        },
    decreases i - j,
{
    if j < i {
        numbered_devices_are_in_order(disks, num, j + 1, i);
    } else if i < disks.len() {
        reveal_strlit("");
        let digits = text::numeral(num as nat);
        assert("/dev/"@ + disks[i] + ""@ + digits =~= "/dev/"@ + disks[i] + digits);
    }
}

// ---------------------------------------------------------------------------
// Distributions
// ---------------------------------------------------------------------------

/// A disk image of a distribution is known by the directory that only that one
/// has; where several are there, the earlier one counts.
pub proof fn distributions_are_known_by_their_directories(p: CdromProbe)
    ensures
        mount::distro_of(p) == Distro::Casper <==> p.casper,
        mount::distro_of(p) == Distro::DebianLive <==> p.live && !p.casper,
        mount::distro_of(p) == Distro::LiveOs <==> p.live_os && !p.casper && !p.live,
        mount::distro_of(p) == Distro::ArchIso <==> p.arch && !p.casper && !p.live && !p.live_os,
        mount::distro_of(p) == Distro::Alpine <==> (p.alpine_release || p.apks) && !p.casper
            && !p.live && !p.live_os && !p.arch,
        mount::distro_of(p) == Distro::Unknown <==> !p.casper && !p.live && !p.live_os && !p.arch
            && !p.alpine_release && !p.apks,
{
}

/// A Fedora or Arch image is bound to where its init looks for it, below
/// directories that were all made before, each after the one that it is in.
pub proof fn image_is_bound_where_it_is_looked_for()
    ensures
        ({
            let s = mount::setup_of(Distro::LiveOs);
            &&& s.last() == mount::SetupStep::Bind("/cdrom/LiveOS", "/run/initramfs/live/LiveOS")
            &&& s.contains(mount::SetupStep::Mkdir("/run/initramfs/live/LiveOS"))
        }),
        ({
            let s = mount::setup_of(Distro::ArchIso);
            &&& s.last() == mount::SetupStep::Bind("/cdrom", "/run/archiso/bootmnt")
            &&& s.contains(mount::SetupStep::Mkdir("/run/archiso/bootmnt"))
        }),
        mount::setup_of(Distro::Casper).len() == 0,
        mount::setup_of(Distro::DebianLive).len() == 0,
        mount::setup_of(Distro::Alpine).len() == 0,
        mount::setup_of(Distro::Unknown).len() == 0,
{
    let s = mount::setup_of(Distro::LiveOs);
    assert(s[2] == mount::SetupStep::Mkdir("/run/initramfs/live/LiveOS"));
    let t = mount::setup_of(Distro::ArchIso);
    assert(t[1] == mount::SetupStep::Mkdir("/run/archiso/bootmnt"));
}

} // verus!
