use vstd::prelude::*;

verus! {

/// Whether a working tree has changes.
#[derive(Debug, Clone, Copy, PartialEq, Eq, Structural)]
pub enum RepoStatus {
    Clean,
    Dirty,
}

/// A repository is clean only when no operation (a merge, a rebase) is in
/// progress and no file shows a change.
pub fn repo_status(operation_in_progress: bool, changed_files: usize) -> (r: RepoStatus)
    ensures
        (r == RepoStatus::Clean) <==> (!operation_in_progress && changed_files == 0),
{
    if operation_in_progress || changed_files > 0 {
        RepoStatus::Dirty
    } else {
        RepoStatus::Clean
    }
}

/// The steps of publishing a repository, in order.
#[derive(Debug, Clone, Copy, PartialEq, Eq, Structural)]
pub enum PushStep {
    Stage,
    Commit,
    Push,
}

/// Where publishing a repository stands.
#[derive(Debug, Clone, Copy, PartialEq, Eq, Structural)]
pub enum PushState {
    /// The step to run next.
    Running(PushStep),
    /// Every step succeeded.
    Done,
    /// The step failed, and none after it runs.
    Failed(PushStep),
}

/// The step after `step`, if any.
pub open spec fn following(step: PushStep) -> Option<PushStep> {
    match step {
        PushStep::Stage => Some(PushStep::Commit),
        PushStep::Commit => Some(PushStep::Push),
        PushStep::Push => None,
    }
}

/// Publishing starts by staging.
pub fn push_start() -> (r: PushState)
    ensures
        r == PushState::Running(PushStep::Stage),
{
    PushState::Running(PushStep::Stage)
}

/// The state after `step` ran: the next step when it succeeded, the end
/// after the last one, and a halt at the first failure.
pub fn push_next(step: PushStep, succeeded: bool) -> (r: PushState)
    ensures
        !succeeded ==> r == PushState::Failed(step),
        succeeded && following(step) is Some ==> r == PushState::Running(following(step).unwrap()),
        succeeded && following(step) is None ==> r == PushState::Done,
{
    if !succeeded {
        return PushState::Failed(step);
    }
    match step {
        PushStep::Stage => PushState::Running(PushStep::Commit),
        PushStep::Commit => PushState::Running(PushStep::Push),
        PushStep::Push => PushState::Done,
    }
}

/// The arguments that the version control client gets for `step` in the
/// repository at `target`.
pub open spec fn push_args_spec(step: PushStep, target: Seq<char>) -> Seq<Seq<char>> {
    match step {
        PushStep::Stage => seq!["-C"@, target, "add"@, "-A"@],
        PushStep::Commit => seq!["-C"@, target, "commit"@, "-m"@, "Default commit message from repo"@],
        PushStep::Push => seq!["-C"@, target, "push"@, "--porcelain"@],
    }
}

/// The arguments that the version control client gets for `step` in the
/// repository at `target`.
pub fn push_args(step: PushStep, target: &String) -> (r: Vec<String>)
    ensures
        crate::assoc::strings_of(r@) == push_args_spec(step, target@),
{
    let r = match step {
        PushStep::Stage => vec!["-C".to_owned(), target.clone(), "add".to_owned(), "-A".to_owned()],
        PushStep::Commit => vec![
            "-C".to_owned(),
            target.clone(),
            "commit".to_owned(),
            "-m".to_owned(),
            "Default commit message from repo".to_owned(),
        ],
        PushStep::Push => vec!["-C".to_owned(), target.clone(), "push".to_owned(), "--porcelain".to_owned()],
    };
    assert(crate::assoc::strings_of(r@) =~= push_args_spec(step, target@));
    r
}

} // verus!
