//! The order in which an installation goes on.

use choosable::install_flow::{Job, Operation, Outcome, Phase};

fn run(job: &Job, outcome: impl Fn(Phase) -> Outcome) -> Vec<Phase> {
    let mut phases = vec![Phase::Survey];
    for _ in 0..100 {
        let p = *phases.last().unwrap();
        let n = p.next(job, outcome(p));
        if n == p {
            break;
        }
        phases.push(n);
    }
    phases
}

fn answer(yes: bool) -> impl Fn(Phase) -> Outcome {
    move |p| match p {
        Phase::Confirm | Phase::ConfirmAgain => Outcome::Answer(yes),
        _ => Outcome::Worked,
    }
}

#[test]
fn an_installation_goes_through_all_its_phases() {
    let job = Job { op: Operation::Install, yes: false, secure_boot: true, is_gpt: true };
    assert_eq!(
        run(&job, answer(true)),
        vec![
            Phase::Survey,
            Phase::Unmount,
            Phase::CheckSwap,
            Phase::CheckTools,
            Phase::Detect,
            Phase::Confirm,
            Phase::ConfirmAgain,
            Phase::StopUdev,
            Phase::WriteDisk,
            Phase::RefreshNodes,
            Phase::FormatData,
            Phase::FormatEfi,
            Phase::WriteLoader,
            Phase::NotifyKernel,
            Phase::StartUdev,
            Phase::NotifyUdev,
            Phase::Done,
        ],
    );
}

#[test]
fn a_refusal_ends_before_the_disk_is_changed() {
    for op in [Operation::Install, Operation::NonDestructive, Operation::Update] {
        let job = Job { op, yes: false, secure_boot: false, is_gpt: true };
        let phases = run(&job, answer(false));
        assert_eq!(phases.last(), Some(&Phase::Aborted));
        assert!(!phases.contains(&Phase::WriteDisk) && !phases.contains(&Phase::MakeRoom));
    }
}

#[test]
fn an_update_formats_nothing() {
    let job = Job { op: Operation::Update, yes: true, secure_boot: false, is_gpt: true };
    assert_eq!(
        run(&job, answer(true)),
        vec![
            Phase::Survey,
            Phase::Detect,
            Phase::Unmount,
            Phase::StopUdev,
            Phase::WriteDisk,
            Phase::WriteLoader,
            Phase::DropSecureBoot,
            Phase::FixAttributes,
            Phase::NotifyKernel,
            Phase::StartUdev,
            Phase::NotifyUdev,
            Phase::Done,
        ],
    );
}

#[test]
fn a_non_destructive_installation_leaves_the_data_alone() {
    let job = Job { op: Operation::NonDestructive, yes: true, secure_boot: false, is_gpt: true };
    assert_eq!(
        run(&job, answer(true)),
        vec![
            Phase::Survey,
            Phase::Unmount,
            Phase::CheckSwap,
            Phase::Detect,
            Phase::Inspect,
            Phase::MakeRoom,
            Phase::StopUdev,
            Phase::WriteDisk,
            Phase::RefreshNodes,
            Phase::FormatEfi,
            Phase::WriteLoader,
            Phase::FixAttributes,
            Phase::DropSecureBoot,
            Phase::NotifyKernel,
            Phase::StartUdev,
            Phase::NotifyUdev,
            Phase::Done,
        ],
    );
    assert_eq!(Phase::Detect.next(&job, Outcome::AlreadyThere), Phase::NotNeeded);
}

#[test]
fn failures_end_the_work_but_where_they_do_not_matter() {
    let job = Job { op: Operation::Install, yes: true, secure_boot: true, is_gpt: false };
    assert_eq!(Phase::WriteDisk.next(&job, Outcome::Failed), Phase::Failed);
    assert_eq!(Phase::StopUdev.next(&job, Outcome::Failed), Phase::WriteDisk);
    assert_eq!(Phase::Confirm.next(&job, Outcome::Worked), Phase::Confirm);
    assert_eq!(Phase::Failed.next(&job, Outcome::Worked), Phase::Failed);
}
