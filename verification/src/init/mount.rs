//! Mounting the disk image, and handing over to the next init.

use vstd::prelude::*;
use crate::init::cmdline::CmdlineParams;
use crate::init::target;
use crate::init::target::scan_all;
use crate::text;

verus! {

/// Loop devices that are tried.
pub const LOOP_DEVICES: u32 = 8;

// ---------------------------------------------------------------------------
// One device
// ---------------------------------------------------------------------------

/// What is done next to mount the disk image on one device. Each but the last
/// is answered by whether it worked.
#[derive(Clone, Copy, PartialEq, Eq, Structural, Debug)]
pub enum LoopMount {
    OpenDevice,
    /// Bind loop device `number` to the device.
    Attach { number: u32 },
    /// Set the loop device's offset.
    SetOffset { number: u32 },
    MountFs { number: u32 },
    /// Unbind the loop device.
    Clear { number: u32 },
    /// The loop device that the disk image is mounted by, if it is.
    Done(Option<u32>),
}

pub open spec fn loop_next(step: LoopMount, offset: u64, ok: bool) -> LoopMount {
    match step {
        LoopMount::OpenDevice => if ok {
            LoopMount::Attach { number: 0 }
        } else {
            LoopMount::Done(None)
        },
        LoopMount::Attach { number } => if ok {
            if offset > 0 {
                LoopMount::SetOffset { number }
            } else {
                LoopMount::MountFs { number }
            }
        } else if number + 1 < LOOP_DEVICES {
            LoopMount::Attach { number: (number + 1) as u32 }
        } else {
            LoopMount::Done(None)
        },
        LoopMount::SetOffset { number } => if ok {
            LoopMount::MountFs { number }
        } else {
            LoopMount::Clear { number }
        },
        LoopMount::MountFs { number } => if ok {
            LoopMount::Done(Some(number))
        } else {
            LoopMount::Clear { number }
        },
        LoopMount::Clear { .. } => LoopMount::Done(None),
        LoopMount::Done(_) => step,
    }
}

impl LoopMount {
    /// The next step, after whether this one worked.
    pub fn try_mount_iso(&self, offset: u64, ok: bool) -> (r: LoopMount)
        ensures
            r == loop_next(*self, offset, ok),
    {
        match *self {
            LoopMount::OpenDevice => if ok {
                LoopMount::Attach { number: 0 }
            } else {
                LoopMount::Done(None)
            },
            LoopMount::Attach { number } => if ok {
                if offset > 0 {
                    LoopMount::SetOffset { number }
                } else {
                    LoopMount::MountFs { number }
                }
            } else if number < LOOP_DEVICES - 1 {
                LoopMount::Attach { number: number + 1 }
            } else {
                LoopMount::Done(None)
            },
            LoopMount::SetOffset { number } => if ok {
                LoopMount::MountFs { number }
            } else {
                LoopMount::Clear { number }
            },
            LoopMount::MountFs { number } => if ok {
                LoopMount::Done(Some(number))
            } else {
                LoopMount::Clear { number }
            },
            LoopMount::Clear { .. } => LoopMount::Done(None),
            LoopMount::Done(n) => LoopMount::Done(n),
        }
    }
}

/// The loop device that is bound while a step is taken.
pub open spec fn bound(step: LoopMount) -> Option<u32> {
    match step {
        LoopMount::SetOffset { number } | LoopMount::MountFs { number } | LoopMount::Clear {
            number,
        } => Some(number),
        LoopMount::Done(n) => n,
        _ => None,
    }
}

/// A loop device gets bound only by binding it, and unbound only by unbinding
/// it: none stays behind when the mount fails.
pub proof fn loop_devices_are_released(step: LoopMount, offset: u64, ok: bool)
    ensures
        match step {
            LoopMount::Attach { number } => bound(loop_next(step, offset, ok)) == (if ok {
                Some(number)
            } else {
                None::<u32>
            }),
            LoopMount::Clear { .. } => bound(loop_next(step, offset, ok)) is None,
            _ => bound(loop_next(step, offset, ok)) == bound(step),
        },
{
}

/// How many steps are left at most.
pub open spec fn loop_rank(step: LoopMount) -> int {
    match step {
        LoopMount::OpenDevice => 20,
        LoopMount::Attach { number } => if number < LOOP_DEVICES {
            4 + LOOP_DEVICES - number
        } else {
            4
        },
        LoopMount::SetOffset { .. } => 3,
        LoopMount::MountFs { .. } => 2,
        LoopMount::Clear { .. } => 1,
        LoopMount::Done(_) => 0,
    }
}

/// A mount comes to an end.
pub proof fn loop_mount_ends(step: LoopMount, offset: u64, ok: bool)
    ensures
        !(step is Done) ==> 0 <= loop_rank(loop_next(step, offset, ok)) < loop_rank(step),
{
}

// ---------------------------------------------------------------------------
// Distributions
// ---------------------------------------------------------------------------

/// What is there on the mounted disk image.
#[derive(Clone, Copy, PartialEq, Eq, Structural, Debug)]
pub struct CdromProbe {
    pub casper: bool,
    pub live: bool,
    pub live_os: bool,
    pub arch: bool,
    pub alpine_release: bool,
    pub apks: bool,
}

#[derive(Clone, Copy, PartialEq, Eq, Structural, Debug)]
pub enum Distro {
    Casper,
    DebianLive,
    LiveOs,
    ArchIso,
    Alpine,
    Unknown,
}

/// A step that puts the disk image where a distribution looks for it.
#[derive(Clone, Copy)]
pub enum SetupStep {
    Mkdir(&'static str),
    Bind(&'static str, &'static str),
}

pub open spec fn distro_of(p: CdromProbe) -> Distro {
    if p.casper {
        Distro::Casper
    } else if p.live {
        Distro::DebianLive
    } else if p.live_os {
        Distro::LiveOs
    } else if p.arch {
        Distro::ArchIso
    } else if p.alpine_release || p.apks {
        Distro::Alpine
    } else {
        Distro::Unknown
    }
}

pub open spec fn setup_of(d: Distro) -> Seq<SetupStep> {
    match d {
        Distro::LiveOs => seq![
            SetupStep::Mkdir("/run/initramfs"),
            SetupStep::Mkdir("/run/initramfs/live"),
            SetupStep::Mkdir("/run/initramfs/live/LiveOS"),
            SetupStep::Bind("/cdrom/LiveOS", "/run/initramfs/live/LiveOS"),
        ],
        Distro::ArchIso => seq![
            SetupStep::Mkdir("/run/archiso"),
            SetupStep::Mkdir("/run/archiso/bootmnt"),
            SetupStep::Bind("/cdrom", "/run/archiso/bootmnt"),
        ],
        _ => Seq::empty(),
    }
}

/// Whether the next init may go on with the mounted disk image, which
/// distribution it holds, and the steps that it needs. A disk image of no known
/// distribution is gone on with as well.
pub fn check_distro(probe: &CdromProbe) -> (r: (bool, Distro, Vec<SetupStep>))
    ensures
        r.0,
        r.1 == distro_of(*probe),
        r.2@ == setup_of(r.1),
{
    if probe.casper {
        return (true, Distro::Casper, Vec::new());
    }
    if probe.live {
        return (true, Distro::DebianLive, Vec::new());
    }
    let mut steps: Vec<SetupStep> = Vec::new();
    if probe.live_os {
        steps.push(SetupStep::Mkdir("/run/initramfs"));
        steps.push(SetupStep::Mkdir("/run/initramfs/live"));
        steps.push(SetupStep::Mkdir("/run/initramfs/live/LiveOS"));
        steps.push(SetupStep::Bind("/cdrom/LiveOS", "/run/initramfs/live/LiveOS"));
        return (true, Distro::LiveOs, steps);
    }
    if probe.arch {
        steps.push(SetupStep::Mkdir("/run/archiso"));
        steps.push(SetupStep::Mkdir("/run/archiso/bootmnt"));
        steps.push(SetupStep::Bind("/cdrom", "/run/archiso/bootmnt"));
        return (true, Distro::ArchIso, steps);
    }
    if probe.alpine_release || probe.apks {
        return (true, Distro::Alpine, steps);
    }
    (true, Distro::Unknown, steps)
}

// ---------------------------------------------------------------------------
// The whole
// ---------------------------------------------------------------------------

/// What is done next, and where a device is meant, which.
pub enum Premount {
    /// Look for the partition by its UUID.
    FindByUuid { guid: String, or_num: Option<u32> },
    /// Look for the partition by its number.
    FindByNumber { num: u32 },
    /// Mount the disk image on the partition.
    Mount { dev: String },
    /// See which distribution it holds.
    Check,
    /// Unmount it again.
    Release,
    /// Read the kernel's partition list.
    ListPartitions,
    /// Mount the disk image on the first of these.
    TryMount { devs: Vec<String>, next: usize },
    TryCheck { devs: Vec<String>, next: usize },
    TryRelease { devs: Vec<String>, next: usize },
    /// Run the next init, with or without a disk image.
    ExecInit { mounted: bool },
}

pub enum PremountView {
    FindByUuid { guid: Seq<char>, or_num: Option<u32> },
    FindByNumber { num: u32 },
    Mount { dev: Seq<char> },
    Check,
    Release,
    ListPartitions,
    TryMount { devs: Seq<Seq<char>> },
    TryCheck { devs: Seq<Seq<char>> },
    TryRelease { devs: Seq<Seq<char>> },
    ExecInit { mounted: bool },
}

impl View for Premount {
    type V = PremountView;

    open spec fn view(&self) -> PremountView {
        match *self {
            Premount::FindByUuid { guid, or_num } => PremountView::FindByUuid {
                guid: guid@,
                or_num,
            },
            Premount::FindByNumber { num } => PremountView::FindByNumber { num },
            Premount::Mount { dev } => PremountView::Mount { dev: dev@ },
            Premount::Check => PremountView::Check,
            Premount::Release => PremountView::Release,
            Premount::ListPartitions => PremountView::ListPartitions,
            Premount::TryMount { devs, next } => PremountView::TryMount {
                devs: text::string_views(devs@).skip(next as int),
            },
            Premount::TryCheck { devs, next } => PremountView::TryCheck {
                devs: text::string_views(devs@).skip(next as int),
            },
            Premount::TryRelease { devs, next } => PremountView::TryRelease {
                devs: text::string_views(devs@).skip(next as int),
            },
            Premount::ExecInit { mounted } => PremountView::ExecInit { mounted },
        }
    }
}

/// What came of a step: the device that was found, whether it worked, or the
/// partition list, where it could be read.
pub enum Event {
    Found(Option<String>),
    Outcome(bool),
    List(Option<String>),
}

pub enum EventView {
    Found(Option<Seq<char>>),
    Outcome(bool),
    List(Option<Seq<char>>),
}

impl View for Event {
    type V = EventView;

    open spec fn view(&self) -> EventView {
        match *self {
            Event::Found(d) => EventView::Found(target::opt_view(d)),
            Event::Outcome(ok) => EventView::Outcome(ok),
            Event::List(t) => EventView::List(target::opt_view(t)),
        }
    }
}

pub open spec fn first(guid: Option<Seq<char>>, num: Option<u32>) -> PremountView {
    match guid {
        Some(guid) => PremountView::FindByUuid { guid, or_num: num },
        None => by_number(num),
    }
}

pub open spec fn by_number(num: Option<u32>) -> PremountView {
    match num {
        Some(num) => PremountView::FindByNumber { num },
        None => PremountView::ListPartitions,
    }
}

/// Tries the devices that are left.
pub open spec fn trying(devs: Seq<Seq<char>>) -> PremountView {
    if devs.len() == 0 {
        PremountView::ExecInit { mounted: false }
    } else {
        PremountView::TryMount { devs }
    }
}

/// What is done after a step. A step that is answered by something else than
/// it asked for stays.
pub open spec fn premount_next(step: PremountView, event: EventView) -> PremountView {
    match (step, event) {
        (PremountView::FindByUuid { or_num, .. }, EventView::Found(found)) => match found {
            Some(dev) => PremountView::Mount { dev },
            None => by_number(or_num),
        },
        (PremountView::FindByNumber { .. }, EventView::Found(found)) => match found {
            Some(dev) => PremountView::Mount { dev },
            None => PremountView::ListPartitions,
        },
        (PremountView::Mount { .. }, EventView::Outcome(ok)) => if ok {
            PremountView::Check
        } else {
            PremountView::ListPartitions
        },
        (PremountView::Check, EventView::Outcome(ok)) => if ok {
            PremountView::ExecInit { mounted: true }
        } else {
            PremountView::Release
        },
        (PremountView::Release, EventView::Outcome(_)) => PremountView::ListPartitions,
        (PremountView::ListPartitions, EventView::List(list)) => match list {
            Some(list) => trying(target::listed_devices(text::lines(list), 2)),
            None => PremountView::ExecInit { mounted: false },
        },
        (PremountView::TryMount { devs }, EventView::Outcome(ok)) => if ok {
            PremountView::TryCheck { devs }
        } else {
            trying(devs.skip(1))
        },
        (PremountView::TryCheck { devs }, EventView::Outcome(ok)) => if ok {
            PremountView::ExecInit { mounted: true }
        } else {
            PremountView::TryRelease { devs }
        },
        (PremountView::TryRelease { devs }, EventView::Outcome(_)) => trying(devs.skip(1)),
        _ => step,
    }
}

impl Premount {
    pub open spec fn wf(&self) -> bool {
        match *self {
            Premount::TryMount { devs, next } | Premount::TryCheck { devs, next }
            | Premount::TryRelease { devs, next } => next < devs@.len(),
            _ => true,
        }
    }

    /// The first step for what the command line tells: by UUID, else by
    /// number, else over all partitions.
    pub fn start(params: &CmdlineParams) -> (r: Premount)
        ensures
            r.wf(),
            r@ == first(params@.part_guid, params.part_num),
    {
        match &params.part_guid {
            Some(guid) => Premount::FindByUuid { guid: guid.clone(), or_num: params.part_num },
            None => Premount::number(params.part_num),
        }
    }

    fn number(num: Option<u32>) -> (r: Premount)
        ensures
            r.wf(),
            r@ == by_number(num),
    {
        match num {
            Some(num) => Premount::FindByNumber { num },
            None => Premount::ListPartitions,
        }
    }

    fn try_from(devs: Vec<String>, next: usize) -> (r: Premount)
        requires
            next <= devs@.len(),
        ensures
            r.wf(),
            r@ == trying(text::string_views(devs@).skip(next as int)),
    {
        if next < devs.len() {
            Premount::TryMount { devs, next }
        } else {
            Premount::ExecInit { mounted: false }
        }
    }

    /// The next step, after what came of this one.
    pub fn step(self, event: Event) -> (r: Premount)
        requires
            self.wf(),
        ensures
            r.wf(),
            r@ == premount_next(self@, event@),
    {
        match (self, event) {
            (Premount::FindByUuid { or_num, .. }, Event::Found(found)) => match found {
                Some(dev) => Premount::Mount { dev },
                None => Premount::number(or_num),
            },
            (Premount::FindByNumber { .. }, Event::Found(found)) => match found {
                Some(dev) => Premount::Mount { dev },
                None => Premount::ListPartitions,
            },
            (Premount::Mount { .. }, Event::Outcome(ok)) => if ok {
                Premount::Check
            } else {
                Premount::ListPartitions
            },
            (Premount::Check, Event::Outcome(ok)) => if ok {
                Premount::ExecInit { mounted: true }
            } else {
                Premount::Release
            },
            (Premount::Release, Event::Outcome(_)) => Premount::ListPartitions,
            (Premount::ListPartitions, Event::List(list)) => match list {
                Some(list) => {
                    let devs: Vec<String> = scan_all(&list);
                    assert(text::string_views(devs@).skip(0) =~= text::string_views(devs@));
                    Premount::try_from(devs, 0)
                },
                None => Premount::ExecInit { mounted: false },
            },
            (Premount::TryMount { devs, next }, Event::Outcome(ok)) => if ok {
                Premount::TryCheck { devs, next }
            } else {
                assert(text::string_views(devs@).skip(next as int).skip(1) =~= text::string_views(
                    devs@,
                ).skip(next + 1));
                assert(devs.len() <= usize::MAX);
                Premount::try_from(devs, next + 1)
            },
            (Premount::TryCheck { devs, next }, Event::Outcome(ok)) => if ok {
                Premount::ExecInit { mounted: true }
            } else {
                Premount::TryRelease { devs, next }
            },
            (Premount::TryRelease { devs, next }, Event::Outcome(_)) => {
                assert(text::string_views(devs@).skip(next as int).skip(1) =~= text::string_views(
                    devs@,
                ).skip(next + 1));
                assert(devs.len() <= usize::MAX);
                Premount::try_from(devs, next + 1)
            },
            (other, _) => other,
        }
    }
}

/// Whether an event answers a step.
pub open spec fn answers(step: PremountView, event: EventView) -> bool {
    match step {
        PremountView::FindByUuid { .. } | PremountView::FindByNumber { .. } => event is Found,
        PremountView::ListPartitions => event is List,
        PremountView::ExecInit { .. } => false,
        _ => event is Outcome,
    }
}

/// How far a step is from the next init, while the partition list still is to
/// be read and once it was.
pub open spec fn distance(step: PremountView) -> (int, int) {
    match step {
        PremountView::FindByUuid { .. } => (6, 0),
        PremountView::FindByNumber { .. } => (5, 0),
        PremountView::Mount { .. } => (4, 0),
        PremountView::Check => (3, 0),
        PremountView::Release => (2, 0),
        PremountView::ListPartitions => (1, 0),
        PremountView::TryMount { devs } => (0, 3int * devs.len()),
        PremountView::TryCheck { devs } => (0, 3 * devs.len() - 1),
        PremountView::TryRelease { devs } => (0, 3 * devs.len() - 2),
        PremountView::ExecInit { .. } => (0, 0),
    }
}

pub open spec fn listed(step: PremountView) -> bool {
    match step {
        PremountView::TryMount { devs } | PremountView::TryCheck { devs }
        | PremountView::TryRelease { devs } => devs.len() > 0,
        _ => true,
    }
}

/// Every answer brings the next init nearer, so it is always run in the end.
pub proof fn init_is_reached(step: PremountView, event: EventView)
    requires
        listed(step),
        answers(step, event),
    ensures
        listed(premount_next(step, event)),
        ({
            let (a0, a1) = distance(step);
            let (b0, b1) = distance(premount_next(step, event));
            &&& b0 >= 0 && b1 >= 0
            &&& b0 < a0 || (b0 == a0 && b1 < a1)
        }),
{
}

} // verus!
