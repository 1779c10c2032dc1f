//! The decisions of the pull command: pull into the current repository or clone
//! a new one, refuse to pull over uncommitted changes, and how to merge.
use crate::status::{has_uncommitted_changes, is_change, FileStatus};
use vstd::prelude::*;

verus! {

/// What the pull command does.
#[derive(Debug, Clone, PartialEq, Eq)]
pub enum PullMode {
    /// Fetch from `origin` into the repository in the current directory.
    Pull,
    /// Clone the repository at this URL.
    Clone(String),
}

/// Why the pull command stops.
#[derive(Debug, Clone, Copy, PartialEq, Eq, Structural)]
pub enum PullError {
    /// A remote URL was given inside a repository.
    RemoteNotNeeded,
    /// No remote URL was given outside a repository.
    MissingRemoteUrl,
    /// The index or the working tree holds changes.
    UncommittedChanges,
    /// The remote branch cannot be reached by a fast-forward.
    ManualMergeRequired,
}

/// What a merge analysis against the remote branch found.
#[derive(Debug, Clone, Copy, PartialEq, Eq, Structural)]
pub struct MergeAnalysis {
    pub fast_forward: bool,
    pub up_to_date: bool,
}

/// How the pull command brings the branch up to the remote one.
#[derive(Debug, Clone, Copy, PartialEq, Eq, Structural)]
pub enum MergeStep {
    /// Move the branch to the remote commit and reset the working tree to it.
    FastForward,
    /// Nothing to do.
    UpToDate,
}

/// Inside a repository: pull, and a remote URL is refused. Outside one: clone
/// the given URL, and its absence is refused.
pub fn pull_mode(in_repository: bool, remote: Option<String>) -> (r: Result<PullMode, PullError>)
    ensures
        in_repository && remote is Some ==> r == Err::<PullMode, PullError>(
            PullError::RemoteNotNeeded,
        ),
        in_repository && remote is None ==> r == Ok::<PullMode, PullError>(PullMode::Pull),
        !in_repository && remote is None ==> r == Err::<PullMode, PullError>(
            PullError::MissingRemoteUrl,
        ),
        !in_repository && remote is Some ==> r == Ok::<PullMode, PullError>(
            PullMode::Clone(remote->0),
        ),
{
    if in_repository {
        if remote.is_some() {
            Err(PullError::RemoteNotNeeded)
        } else {
            Ok(PullMode::Pull)
        }
    } else {
        match remote {
            Some(url) => Ok(PullMode::Clone(url)),
            None => Err(PullError::MissingRemoteUrl),
        }
    }
}

/// Refuses to pull while any path has a change in the index or the working tree.
pub fn check_clean(statuses: &[FileStatus]) -> (r: Result<(), PullError>)
    ensures
        r is Err <==> exists|i: int| 0 <= i < statuses@.len() && is_change(#[trigger] statuses@[i]),
        r matches Err(e) ==> e == PullError::UncommittedChanges,
{
    if has_uncommitted_changes(statuses) {
        Err(PullError::UncommittedChanges)
    } else {
        Ok(())
    }
}

/// A fast-forward when one is possible, nothing when already up to date, and
/// otherwise a refusal: a real merge is left to the user.
pub fn merge_step(analysis: MergeAnalysis) -> (r: Result<MergeStep, PullError>)
    ensures
        analysis.fast_forward ==> r == Ok::<MergeStep, PullError>(MergeStep::FastForward),
        !analysis.fast_forward && analysis.up_to_date ==> r == Ok::<MergeStep, PullError>(
            MergeStep::UpToDate,
        ),
        !analysis.fast_forward && !analysis.up_to_date ==> r == Err::<MergeStep, PullError>(
            PullError::ManualMergeRequired,
        ),
{
    if analysis.fast_forward {
        Ok(MergeStep::FastForward)
    } else if analysis.up_to_date {
        Ok(MergeStep::UpToDate)
    } else {
        Err(PullError::ManualMergeRequired)
    }
}

/// What the pull command does next, once `origin` has been fetched.
#[derive(Debug, Clone, Copy, PartialEq, Eq, Structural)]
pub enum PullStep {
    /// Stop: the branch already is where the remote branch is.
    UpToDate,
    /// Read the status of the index and the working tree, then ask again.
    ReadStatuses,
    /// Run a merge analysis against the remote commit, then ask again.
    AnalyseMerge,
    /// Move the branch to the remote commit and reset the working tree to it.
    FastForward,
}

/// Some path among `st` has a change in the index or the working tree.
pub open spec fn any_change(st: Seq<FileStatus>) -> bool {
    exists|i: int| 0 <= i < st.len() && is_change(#[trigger] st[i])
}

/// The spec of `next_pull_step`: up to date when the local commit is the remote
/// one; else the statuses are read, and any change refuses the pull; else the
/// merge analysis is run, and it decides by `merge_step`.
pub open spec fn pull_step_spec(
    local_is_remote: bool,
    statuses: Option<Seq<FileStatus>>,
    analysis: Option<MergeAnalysis>,
) -> Result<PullStep, PullError> {
    if local_is_remote {
        Ok(PullStep::UpToDate)
    } else {
        match statuses {
            None => Ok(PullStep::ReadStatuses),
            Some(st) => if any_change(st) {
                Err(PullError::UncommittedChanges)
            } else {
                match analysis {
                    None => Ok(PullStep::AnalyseMerge),
                    Some(a) => if a.fast_forward {
                        Ok(PullStep::FastForward)
                    } else if a.up_to_date {
                        Ok(PullStep::UpToDate)
                    } else {
                        Err(PullError::ManualMergeRequired)
                    },
                }
            },
        }
    }
}

/// The next step of a pull after the fetch, given what is known so far: whether
/// the local commit is the remote one, the statuses once read, and the merge
/// analysis once run. Each is asked for only when the earlier ones leave the
/// pull undecided.
pub fn next_pull_step(
    local_is_remote: bool,
    statuses: Option<&[FileStatus]>,
    analysis: Option<MergeAnalysis>,
) -> (r: Result<PullStep, PullError>)
    ensures
        r == pull_step_spec(
            local_is_remote,
            match statuses {
                Some(st) => Some(st@),
                None => None,
            },
            analysis,
        ),
{
    if local_is_remote {
        return Ok(PullStep::UpToDate);
    }
    match statuses {
        None => Ok(PullStep::ReadStatuses),
        Some(st) => {
            let clean = check_clean(st);
            if clean.is_err() {
                assert(any_change(st@));
                return Err(PullError::UncommittedChanges);
            }
            match analysis {
                None => Ok(PullStep::AnalyseMerge),
                Some(a) => match merge_step(a) {
                    Ok(MergeStep::FastForward) => Ok(PullStep::FastForward),
                    Ok(MergeStep::UpToDate) => Ok(PullStep::UpToDate),
                    Err(e) => Err(e),
                },
            }
        },
    }
}

} // verus!
