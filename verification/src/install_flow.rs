//! The order in which an installation or an update does its work.

use vstd::prelude::*;

verus! {

#[derive(Clone, Copy, PartialEq, Eq, Structural, Debug)]
pub enum Operation {
    Install,
    NonDestructive,
    Update,
}

/// What is to be done, and what is known of the disk by the time it matters.
#[derive(Clone, Copy, PartialEq, Eq, Structural, Debug)]
pub struct Job {
    pub op: Operation,
    /// Whether nobody is to be asked.
    pub yes: bool,
    pub secure_boot: bool,
    pub is_gpt: bool,
}

/// A piece of the work.
#[derive(Clone, Copy, PartialEq, Eq, Structural, Debug)]
pub enum Phase {
    /// Whether the disk will do at all.
    Survey,
    Unmount,
    CheckSwap,
    CheckTools,
    /// Whether Choosable is on the disk.
    Detect,
    /// What is in partition 1, and how large it is.
    Inspect,
    Confirm,
    ConfirmAgain,
    /// Where partition 2 goes, and making room for it.
    MakeRoom,
    StopUdev,
    /// The partition table and the boot images.
    WriteDisk,
    /// Have the kernel see the new partitions.
    RefreshNodes,
    FormatData,
    FormatEfi,
    WriteLoader,
    FixAttributes,
    DropSecureBoot,
    NotifyKernel,
    StartUdev,
    NotifyUdev,
    Done,
    /// Choosable was on the disk already.
    NotNeeded,
    /// The answer was no.
    Aborted,
    Failed,
}

/// What came of a piece of work: it worked or failed, what it looked for was
/// there already, or an answer.
#[derive(Clone, Copy, PartialEq, Eq, Structural, Debug)]
pub enum Outcome {
    Worked,
    Failed,
    AlreadyThere,
    Answer(bool),
}

/// Whether the work goes on though a piece of it failed.
pub open spec fn is_optional(p: Phase) -> bool {
    p is StopUdev || p is NotifyKernel || p is StartUdev || p is NotifyUdev
}

/// Whether a piece of work is the last.
pub open spec fn is_end(p: Phase) -> bool {
    p is Done || p is NotNeeded || p is Aborted || p is Failed
}

/// The first piece of work after all checks.
pub open spec fn checked(job: Job) -> Phase {
    if job.yes {
        confirmed(job)
    } else {
        Phase::Confirm
    }
}

/// The first piece of work after all questions.
pub open spec fn confirmed(job: Job) -> Phase {
    if job.op == Operation::NonDestructive {
        Phase::MakeRoom
    } else {
        Phase::StopUdev
    }
}

/// The piece of work after secure boot was dealt with.
pub open spec fn secured(job: Job) -> Phase {
    if job.op == Operation::Update && job.is_gpt {
        Phase::FixAttributes
    } else {
        Phase::NotifyKernel
    }
}

pub open spec fn securing(job: Job) -> Phase {
    if job.secure_boot {
        secured(job)
    } else {
        Phase::DropSecureBoot
    }
}

/// The piece of work after one that worked.
pub open spec fn phase_after(job: Job, p: Phase) -> Phase {
    match p {
        Phase::Survey => if job.op == Operation::Update {
            Phase::Detect
        } else {
            Phase::Unmount
        },
        Phase::Unmount => if job.op == Operation::Update {
            checked(job)
        } else {
            Phase::CheckSwap
        },
        Phase::CheckSwap => if job.op == Operation::Install {
            Phase::CheckTools
        } else {
            Phase::Detect
        },
        Phase::CheckTools => Phase::Detect,
        Phase::Detect => match job.op {
            Operation::Install => checked(job),
            Operation::NonDestructive => Phase::Inspect,
            Operation::Update => Phase::Unmount,
        },
        Phase::Inspect => checked(job),
        Phase::MakeRoom => Phase::StopUdev,
        Phase::StopUdev => Phase::WriteDisk,
        Phase::WriteDisk => if job.op == Operation::Update {
            Phase::WriteLoader
        } else {
            Phase::RefreshNodes
        },
        Phase::RefreshNodes => if job.op == Operation::Install {
            Phase::FormatData
        } else {
            Phase::FormatEfi
        },
        Phase::FormatData => Phase::FormatEfi,
        Phase::FormatEfi => Phase::WriteLoader,
        Phase::WriteLoader => if job.op == Operation::NonDestructive && job.is_gpt {
            Phase::FixAttributes
        } else {
            securing(job)
        },
        Phase::FixAttributes => if job.op == Operation::NonDestructive {
            securing(job)
        } else {
            Phase::NotifyKernel
        },
        Phase::DropSecureBoot => secured(job),
        Phase::NotifyKernel => Phase::StartUdev,
        Phase::StartUdev => Phase::NotifyUdev,
        Phase::NotifyUdev => Phase::Done,
        _ => p,
    }
}

/// The piece of work after one and what came of it. A question that gets no
/// answer is asked again.
pub open spec fn next_phase(job: Job, p: Phase, o: Outcome) -> Phase {
    if is_end(p) {
        p
    } else {
        match (p, o) {
            (Phase::Confirm, Outcome::Answer(yes)) => if !yes {
                Phase::Aborted
            } else if job.op == Operation::Install {
                Phase::ConfirmAgain
            } else {
                confirmed(job)
            },
            (Phase::ConfirmAgain, Outcome::Answer(yes)) => if yes {
                confirmed(job)
            } else {
                Phase::Aborted
            },
            (Phase::Confirm, _) | (Phase::ConfirmAgain, _) => p,
            (Phase::Detect, Outcome::AlreadyThere) => if job.op == Operation::NonDestructive {
                Phase::NotNeeded
            } else {
                phase_after(job, p)
            },
            (_, Outcome::Failed) => if is_optional(p) {
                phase_after(job, p)
            } else {
                Phase::Failed
            },
            _ => phase_after(job, p),
        }
    }
}

impl Phase {
    fn after_checks(job: &Job) -> (r: Phase)
        ensures
            r == checked(*job),
    {
        if job.yes {
            Phase::after_questions(job)
        } else {
            Phase::Confirm
        }
    }

    fn after_questions(job: &Job) -> (r: Phase)
        ensures
            r == confirmed(*job),
    {
        match job.op {
            Operation::NonDestructive => Phase::MakeRoom,
            _ => Phase::StopUdev,
        }
    }

    fn after_secure_boot(job: &Job) -> (r: Phase)
        ensures
            r == secured(*job),
    {
        match job.op {
            Operation::Update => if job.is_gpt {
                Phase::FixAttributes
            } else {
                Phase::NotifyKernel
            },
            _ => Phase::NotifyKernel,
        }
    }

    fn secure_boot(job: &Job) -> (r: Phase)
        ensures
            r == securing(*job),
    {
        if job.secure_boot {
            Phase::after_secure_boot(job)
        } else {
            Phase::DropSecureBoot
        }
    }

    fn after(&self, job: &Job) -> (r: Phase)
        ensures
            r == phase_after(*job, *self),
    {
        let update: bool = job.op == Operation::Update;
        let install: bool = job.op == Operation::Install;
        match *self {
            Phase::Survey => if update {
                Phase::Detect
            } else {
                Phase::Unmount
            },
            Phase::Unmount => if update {
                Phase::after_checks(job)
            } else {
                Phase::CheckSwap
            },
            Phase::CheckSwap => if install {
                Phase::CheckTools
            } else {
                Phase::Detect
            },
            Phase::CheckTools => Phase::Detect,
            Phase::Detect => match job.op {
                Operation::Install => Phase::after_checks(job),
                Operation::NonDestructive => Phase::Inspect,
                Operation::Update => Phase::Unmount,
            },
            Phase::Inspect => Phase::after_checks(job),
            Phase::MakeRoom => Phase::StopUdev,
            Phase::StopUdev => Phase::WriteDisk,
            Phase::WriteDisk => if update {
                Phase::WriteLoader
            } else {
                Phase::RefreshNodes
            },
            Phase::RefreshNodes => if install {
                Phase::FormatData
            } else {
                Phase::FormatEfi
            },
            Phase::FormatData => Phase::FormatEfi,
            Phase::FormatEfi => Phase::WriteLoader,
            Phase::WriteLoader => if !install && !update && job.is_gpt {
                Phase::FixAttributes
            } else {
                Phase::secure_boot(job)
            },
            Phase::FixAttributes => if !install && !update {
                Phase::secure_boot(job)
            } else {
                Phase::NotifyKernel
            },
            Phase::DropSecureBoot => Phase::after_secure_boot(job),
            Phase::NotifyKernel => Phase::StartUdev,
            Phase::StartUdev => Phase::NotifyUdev,
            Phase::NotifyUdev => Phase::Done,
            other => other,
        }
    }

    /// The piece of work after this one and what came of it.
    pub fn next(&self, job: &Job, o: Outcome) -> (r: Phase)
        ensures
            r == next_phase(*job, *self, o),
    {
        match *self {
            Phase::Done => Phase::Done,
            Phase::NotNeeded => Phase::NotNeeded,
            Phase::Aborted => Phase::Aborted,
            Phase::Failed => Phase::Failed,
            Phase::Confirm => match o {
                Outcome::Answer(yes) => if !yes {
                    Phase::Aborted
                } else if job.op == Operation::Install {
                    Phase::ConfirmAgain
                } else {
                    Phase::after_questions(job)
                },
                _ => Phase::Confirm,
            },
            Phase::ConfirmAgain => match o {
                Outcome::Answer(yes) => if yes {
                    Phase::after_questions(job)
                } else {
                    Phase::Aborted
                },
                _ => Phase::ConfirmAgain,
            },
            Phase::StopUdev => self.after(job),
            Phase::NotifyKernel => self.after(job),
            Phase::StartUdev => self.after(job),
            Phase::NotifyUdev => self.after(job),
            Phase::Detect => match o {
                Outcome::AlreadyThere => if job.op == Operation::NonDestructive {
                    Phase::NotNeeded
                } else {
                    self.after(job)
                },
                Outcome::Failed => Phase::Failed,
                _ => self.after(job),
            },
            _ => match o {
                Outcome::Failed => Phase::Failed,
                _ => self.after(job),
            },
        }
    }
}

/// The piece of work that a job has come to, after what came of all before.
pub open spec fn phase_of(job: Job, outcomes: Seq<Outcome>) -> Phase
    decreases outcomes.len(),
{
    if outcomes.len() == 0 {
        Phase::Survey
    } else {
        next_phase(job, phase_of(job, outcomes.drop_last()), outcomes.last())
    }
}

/// Whether a piece of work comes after all questions.
pub open spec fn past_questions(p: Phase) -> bool {
    match p {
        Phase::MakeRoom
        | Phase::StopUdev
        | Phase::WriteDisk
        | Phase::RefreshNodes
        | Phase::FormatData
        | Phase::FormatEfi
        | Phase::WriteLoader
        | Phase::FixAttributes
        | Phase::DropSecureBoot
        | Phase::NotifyKernel
        | Phase::StartUdev
        | Phase::NotifyUdev
        | Phase::Done => true,
        _ => false,
    }
}

/// Whether a question was answered by yes.
pub open spec fn said_yes(job: Job, outcomes: Seq<Outcome>, question: Phase) -> bool {
    exists|i: int|
        0 <= i < outcomes.len() && phase_of(job, #[trigger] outcomes.take(i)) == question
            && outcomes[i] == Outcome::Answer(true)
}

proof fn yes_lasts(job: Job, outcomes: Seq<Outcome>, question: Phase)
    requires
        outcomes.len() > 0,
        said_yes(job, outcomes.drop_last(), question),
    ensures
        said_yes(job, outcomes, question),
{
    let before = outcomes.drop_last();
    let i = choose|i: int|
        0 <= i < before.len() && phase_of(job, #[trigger] before.take(i)) == question && before[i]
            == Outcome::Answer(true);
    assert(outcomes.take(i) =~= before.take(i));
}

proof fn yes_now(job: Job, outcomes: Seq<Outcome>, question: Phase)
    requires
        outcomes.len() > 0,
        phase_of(job, outcomes.drop_last()) == question,
        outcomes.last() == Outcome::Answer(true),
    ensures
        said_yes(job, outcomes, question),
{
    let i = outcomes.len() - 1;
    assert(outcomes.take(i) =~= outcomes.drop_last());
}

/// Nothing on a disk is changed before the question was answered by yes, and
/// for an installation both questions, unless nobody was to be asked.
pub proof fn disk_is_changed_only_after_yes(job: Job, outcomes: Seq<Outcome>)
    requires
        !job.yes,
    ensures
        past_questions(phase_of(job, outcomes)) || phase_of(job, outcomes) is ConfirmAgain
            ==> said_yes(job, outcomes, Phase::Confirm),
        past_questions(phase_of(job, outcomes)) && job.op == Operation::Install ==> said_yes(
            job,
            outcomes,
            Phase::ConfirmAgain,
        ),
    decreases outcomes.len(),
{
    if outcomes.len() > 0 {
        let before = outcomes.drop_last();
        disk_is_changed_only_after_yes(job, before);
        let p = phase_of(job, before);
        if past_questions(p) || p is ConfirmAgain {
            yes_lasts(job, outcomes, Phase::Confirm);
        }
        if past_questions(p) && job.op == Operation::Install {
            yes_lasts(job, outcomes, Phase::ConfirmAgain);
        }
        if p is Confirm && outcomes.last() == Outcome::Answer(true) {
            yes_now(job, outcomes, Phase::Confirm);
        }
        if p is ConfirmAgain && outcomes.last() == Outcome::Answer(true) {
            yes_now(job, outcomes, Phase::ConfirmAgain);
        }
    }
}

/// Only an installation formats the data partition: an update and a
/// non-destructive installation never do. An update formats nothing at all.
pub proof fn only_install_formats_data(job: Job, outcomes: Seq<Outcome>)
    ensures
        phase_of(job, outcomes) is FormatData ==> job.op == Operation::Install,
        phase_of(job, outcomes) is FormatEfi || phase_of(job, outcomes) is RefreshNodes ==> job.op
            != Operation::Update,
        phase_of(job, outcomes) is CheckTools ==> job.op == Operation::Install,
    decreases outcomes.len(),
{
    if outcomes.len() > 0 {
        only_install_formats_data(job, outcomes.drop_last());
    }
}

/// Whether a job has been at a piece of work.
pub open spec fn has_been_at(job: Job, outcomes: Seq<Outcome>, p: Phase) -> bool {
    exists|i: int| 0 <= i < outcomes.len() && phase_of(job, #[trigger] outcomes.take(i)) == p
}

proof fn been_at_lasts(job: Job, outcomes: Seq<Outcome>, p: Phase)
    requires
        outcomes.len() > 0,
        has_been_at(job, outcomes.drop_last(), p) || phase_of(job, outcomes.drop_last()) == p,
    ensures
        has_been_at(job, outcomes, p),
{
    let before = outcomes.drop_last();
    if phase_of(job, before) == p {
        assert(outcomes.take(outcomes.len() - 1) =~= before);
    } else {
        let i = choose|i: int|
            0 <= i < before.len() && phase_of(job, #[trigger] before.take(i)) == p;
        assert(outcomes.take(i) =~= before.take(i));
    }
}

/// Whether a piece of work comes after secure boot was dealt with.
pub open spec fn past_secure_boot(job: Job, p: Phase) -> bool {
    ||| p is NotifyKernel
    ||| p is StartUdev
    ||| p is NotifyUdev
    ||| p is Done
    ||| p is FixAttributes && job.op == Operation::Update
}

/// Secure boot is taken off exactly where it was not wanted: never where it
/// was, and always before the work is done where it was not.
pub proof fn secure_boot_is_as_wanted(job: Job, outcomes: Seq<Outcome>)
    ensures
        phase_of(job, outcomes) is DropSecureBoot ==> !job.secure_boot,
        past_secure_boot(job, phase_of(job, outcomes)) && !job.secure_boot ==> has_been_at(
            job,
            outcomes,
            Phase::DropSecureBoot,
        ),
        phase_of(job, outcomes) is FixAttributes ==> job.op != Operation::Install,
    decreases outcomes.len(),
{
    if outcomes.len() > 0 {
        let before = outcomes.drop_last();
        let p = phase_of(job, before);
        secure_boot_is_as_wanted(job, before);
        if p is DropSecureBoot || (past_secure_boot(job, p) && !job.secure_boot) {
            been_at_lasts(job, outcomes, Phase::DropSecureBoot);
        }
    }
}

/// How far a piece of work is from the end.
pub open spec fn distance(job: Job, p: Phase) -> int {
    match p {
        Phase::Survey => 22,
        Phase::Unmount => if job.op == Operation::Update {
            16
        } else {
            21
        },
        Phase::CheckSwap => 20,
        Phase::CheckTools => 19,
        Phase::Detect => 18,
        Phase::Inspect => 17,
        Phase::Confirm => 15,
        Phase::ConfirmAgain => 14,
        Phase::MakeRoom => 13,
        Phase::StopUdev => 12,
        Phase::WriteDisk => 11,
        Phase::RefreshNodes => 10,
        Phase::FormatData => 9,
        Phase::FormatEfi => 8,
        Phase::WriteLoader => 7,
        Phase::FixAttributes => if job.op == Operation::NonDestructive {
            6
        } else {
            4
        },
        Phase::DropSecureBoot => 5,
        Phase::NotifyKernel => 3,
        Phase::StartUdev => 2,
        Phase::NotifyUdev => 1,
        _ => 0,
    }
}

/// Every piece of work that is answered brings the end nearer.
pub proof fn work_comes_to_an_end(job: Job, p: Phase, o: Outcome)
    requires
        !is_end(p),
        p is Confirm || p is ConfirmAgain ==> o is Answer,
    ensures
        0 <= distance(job, next_phase(job, p, o)) < distance(job, p),
{
}

/// Work that is done has had udev go on.
pub proof fn done_means_udev_goes_on(job: Job, p: Phase, o: Outcome)
    ensures
        next_phase(job, p, o) is Done && !(p is Done) ==> p is NotifyUdev,
        next_phase(job, p, o) is NotifyUdev ==> p is StartUdev,
{
}

} // verus!
