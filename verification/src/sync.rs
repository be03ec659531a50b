//! The steps that bring a local checkout in line with the pages branch of its
//! remote repository, as a state machine: the caller performs each action it
//! is handed (on the disk and over the network) and reports whether it
//! succeeded; the machine decides the next action and, in the end, the
//! outcome.
//!
//! The steps are: open the existing checkout and fetch the branch from
//! `origin`, or clone the repository when there is no checkout; resolve
//! `origin/{branch}`; check the resolved tree out (forced); point `HEAD` at
//! `refs/heads/{branch}`. When resolving the branch fails the checkout is
//! removed and the outcome is `NotFound` (or `InternalError` when removing
//! fails too); when checking out or moving `HEAD` fails the checkout is
//! removed and the outcome is `InternalError`.
use vstd::prelude::*;

use crate::error::AppError;

verus! {

/// The step whose result the machine waits for, or the end.
#[derive(Debug, Clone, Copy)]
pub enum SyncPhase {
    OpeningAndFetching,
    Cloning,
    ResolvingBranch,
    CheckingOut,
    SettingHead,
    RemovingAfterMissingBranch,
    RemovingAfterFailure,
    Finished(Result<(), AppError>),
}

/// What the caller is to do next.
#[derive(Debug)]
pub enum SyncAction {
    /// Open the existing checkout and fetch `branch` from its `origin` remote.
    OpenAndFetch { branch: String },
    /// Clone the repository at `url` into the checkout's place.
    Clone { url: String },
    /// Resolve the revision `spec` in the checkout.
    ResolveBranch { spec: String },
    /// Check the resolved tree out, overwriting local changes.
    Checkout,
    /// Point `HEAD` at `reference`.
    SetHead { reference: String },
    /// Remove the checkout from the disk.
    RemoveCheckout,
    /// Stop, with this outcome.
    Finish(Result<(), AppError>),
}

/// The phase in which the machine starts.
pub open spec fn initial_phase(checkout_exists: bool) -> SyncPhase {
    if checkout_exists {
        SyncPhase::OpeningAndFetching
    } else {
        SyncPhase::Cloning
    }
}

/// The phase after the step awaited in `phase` ended, successfully or not.
pub open spec fn next_phase(phase: SyncPhase, succeeded: bool) -> SyncPhase {
    match phase {
        SyncPhase::OpeningAndFetching | SyncPhase::Cloning => if succeeded {
            SyncPhase::ResolvingBranch
        } else {
            SyncPhase::Finished(Err(AppError::InternalError))
        },
        SyncPhase::ResolvingBranch => if succeeded {
            SyncPhase::CheckingOut
        } else {
            SyncPhase::RemovingAfterMissingBranch
        },
        SyncPhase::CheckingOut => if succeeded {
            SyncPhase::SettingHead
        } else {
            SyncPhase::RemovingAfterFailure
        },
        SyncPhase::SettingHead => if succeeded {
            SyncPhase::Finished(Ok(()))
        } else {
            SyncPhase::RemovingAfterFailure
        },
        SyncPhase::RemovingAfterMissingBranch => if succeeded {
            SyncPhase::Finished(Err(AppError::NotFound))
        } else {
            SyncPhase::Finished(Err(AppError::InternalError))
        },
        SyncPhase::RemovingAfterFailure => SyncPhase::Finished(Err(AppError::InternalError)),
        SyncPhase::Finished(outcome) => SyncPhase::Finished(outcome),
    }
}

/// `action` is what the caller is to do in `phase`, for the repository at
/// `url` and the branch `branch`.
pub open spec fn is_action_for(
    action: SyncAction,
    phase: SyncPhase,
    url: Seq<char>,
    branch: Seq<char>,
) -> bool {
    match phase {
        SyncPhase::OpeningAndFetching => action matches SyncAction::OpenAndFetch { branch: b }
            && b@ == branch,
        SyncPhase::Cloning => action matches SyncAction::Clone { url: u } && u@ == url,
        SyncPhase::ResolvingBranch => action matches SyncAction::ResolveBranch { spec: s } && s@
            == "origin/"@ + branch,
        SyncPhase::CheckingOut => action is Checkout,
        SyncPhase::SettingHead => action matches SyncAction::SetHead { reference: r } && r@
            == "refs/heads/"@ + branch,
        SyncPhase::RemovingAfterMissingBranch | SyncPhase::RemovingAfterFailure => action is RemoveCheckout,
        SyncPhase::Finished(outcome) => action == SyncAction::Finish(outcome),
    }
}

/// The phase after the steps awaited from `phase` on ended with `results`.
pub open spec fn run(phase: SyncPhase, results: Seq<bool>) -> SyncPhase
    decreases results.len(),
{
    if results.len() == 0 {
        phase
    } else {
        run(next_phase(phase, results[0]), results.drop_first())
    }
}

/// Brings a checkout in line with the pages branch of its remote.
pub struct GitSync {
    phase: SyncPhase,
    url: String,
    branch: String,
}

impl GitSync {
    /// The step the machine waits for.
    pub closed spec fn phase_of(self) -> SyncPhase {
        self.phase
    }

    /// The URL of the remote repository.
    pub closed spec fn url_of(self) -> Seq<char> {
        self.url@
    }

    /// The pages branch.
    pub closed spec fn branch_of(self) -> Seq<char> {
        self.branch@
    }

    /// The action that the phase `phase` asks for.
    fn action(&self, phase: SyncPhase) -> (action: SyncAction)
        ensures
            is_action_for(action, phase, self.url_of(), self.branch_of()),
    {
        match phase {
            SyncPhase::OpeningAndFetching => SyncAction::OpenAndFetch { branch: self.branch.clone() },
            SyncPhase::Cloning => SyncAction::Clone { url: self.url.clone() },
            SyncPhase::ResolvingBranch => {
                let mut spec = "origin/".to_owned();
                spec.append(self.branch.as_str());
                SyncAction::ResolveBranch { spec }
            },
            SyncPhase::CheckingOut => SyncAction::Checkout,
            SyncPhase::SettingHead => {
                let mut reference = "refs/heads/".to_owned();
                reference.append(self.branch.as_str());
                SyncAction::SetHead { reference }
            },
            SyncPhase::RemovingAfterMissingBranch => SyncAction::RemoveCheckout,
            SyncPhase::RemovingAfterFailure => SyncAction::RemoveCheckout,
            SyncPhase::Finished(outcome) => SyncAction::Finish(outcome),
        }
    }

    /// Starts bringing the checkout in line with `branch` of the repository
    /// at `url`, given whether a checkout exists already; answers the first
    /// action.
    pub fn start(url: String, branch: String, checkout_exists: bool) -> (started: (
        GitSync,
        SyncAction,
    ))
        ensures
            started.0.phase_of() == initial_phase(checkout_exists),
            started.0.url_of() == url@,
            started.0.branch_of() == branch@,
            is_action_for(started.1, started.0.phase_of(), url@, branch@),
    {
        let phase = if checkout_exists {
            SyncPhase::OpeningAndFetching
        } else {
            SyncPhase::Cloning
        };
        let sync = GitSync { phase, url, branch };
        let action = sync.action(phase);
        (sync, action)
    }

    /// Takes the result of the last action and answers the next one.
    pub fn advance(&mut self, succeeded: bool) -> (action: SyncAction)
        ensures
            final(self).phase_of() == next_phase(old(self).phase_of(), succeeded),
            final(self).url_of() == old(self).url_of(),
            final(self).branch_of() == old(self).branch_of(),
            is_action_for(action, final(self).phase_of(), final(self).url_of(), final(self).branch_of()),
    {
        let phase = match self.phase {
            SyncPhase::OpeningAndFetching | SyncPhase::Cloning => if succeeded {
                SyncPhase::ResolvingBranch
            } else {
                SyncPhase::Finished(Err(AppError::InternalError))
            },
            SyncPhase::ResolvingBranch => if succeeded {
                SyncPhase::CheckingOut
            } else {
                SyncPhase::RemovingAfterMissingBranch
            },
            SyncPhase::CheckingOut => if succeeded {
                SyncPhase::SettingHead
            } else {
                SyncPhase::RemovingAfterFailure
            },
            SyncPhase::SettingHead => if succeeded {
                SyncPhase::Finished(Ok(()))
            } else {
                SyncPhase::RemovingAfterFailure
            },
            SyncPhase::RemovingAfterMissingBranch => if succeeded {
                SyncPhase::Finished(Err(AppError::NotFound))
            } else {
                SyncPhase::Finished(Err(AppError::InternalError))
            },
            SyncPhase::RemovingAfterFailure => SyncPhase::Finished(Err(AppError::InternalError)),
            SyncPhase::Finished(outcome) => SyncPhase::Finished(outcome),
        };
        self.phase = phase;
        self.action(phase)
    }
}

/// The outcome of bringing a checkout in line, from the results of the
/// steps: obtaining the checkout (fetch or clone), resolving the branch,
/// checking it out, moving `HEAD`, and removing the checkout after the branch
/// could not be resolved.
pub open spec fn sync_outcome(
    obtained: bool,
    resolved: bool,
    checked_out: bool,
    head_set: bool,
    removed: bool,
) -> Result<(), AppError> {
    if !obtained {
        Err(AppError::InternalError)
    } else if !resolved {
        if removed {
            Err(AppError::NotFound)
        } else {
            Err(AppError::InternalError)
        }
    } else if !checked_out || !head_set {
        Err(AppError::InternalError)
    } else {
        Ok(())
    }
}

/// Whatever the steps answer, the machine finishes within five steps (the
/// fifth is the removal of the checkout after moving `HEAD` failed), and its
/// outcome is success exactly when obtaining, resolving, checking out and
/// moving `HEAD` all succeeded; `NotFound` exactly when the branch could not
/// be resolved and the checkout was then removed; `InternalError` otherwise.
pub proof fn law_sync_outcome(checkout_exists: bool, results: Seq<bool>)
    requires
        results.len() >= 5,
    ensures
        run(initial_phase(checkout_exists), results) == SyncPhase::Finished(
            if !results[0] {
                sync_outcome(false, false, false, false, false)
            } else if !results[1] {
                sync_outcome(true, false, false, false, results[2])
            } else {
                sync_outcome(true, true, results[2], results[3], false)
            },
        ),
{
    let first = results.subrange(0, 5);
    let s1 = first.drop_first();
    let s2 = s1.drop_first();
    let s3 = s2.drop_first();
    let s4 = s3.drop_first();
    let s5 = s4.drop_first();
    assert(s1[0] == results[1] && s2[0] == results[2] && s3[0] == results[3] && s4[0]
        == results[4]);
    assert(s5.len() == 0);
    let p0 = initial_phase(checkout_exists);
    let p1 = next_phase(p0, results[0]);
    let p2 = next_phase(p1, results[1]);
    let p3 = next_phase(p2, results[2]);
    let p4 = next_phase(p3, results[3]);
    let p5 = next_phase(p4, results[4]);
    assert(run(p5, s5) == p5);
    assert(run(p4, s4) == p5);
    assert(run(p3, s3) == p5);
    assert(run(p2, s2) == p5);
    assert(run(p1, s1) == p5);
    assert(run(p0, first) == p5);
    lemma_run_split(p0, results, 5);
    lemma_finished_stays(p5, results.subrange(5, results.len() as int));
}

/// When the first step fails (opening and fetching an existing checkout, or
/// cloning), the machine finishes at once with `InternalError` and asks for
/// nothing more, whatever the later results; in particular the checkout is
/// not removed.
pub proof fn law_failed_obtain_finishes_at_once(checkout_exists: bool, results: Seq<bool>)
    requires
        results.len() >= 1,
        !results[0],
    ensures
        next_phase(initial_phase(checkout_exists), false) == SyncPhase::Finished(
            Err(AppError::InternalError),
        ),
        run(initial_phase(checkout_exists), results) == SyncPhase::Finished(
            Err(AppError::InternalError),
        ),
{
    let done = next_phase(initial_phase(checkout_exists), results[0]);
    lemma_finished_stays(done, results.drop_first());
}

/// The checkout is asked to be removed only after it was obtained (fetched
/// or cloned) and a later step (resolving the branch, checking out, moving
/// `HEAD`) failed.
pub proof fn law_removal_only_after_obtaining(checkout_exists: bool, results: Seq<bool>)
    requires
        run(initial_phase(checkout_exists), results) is RemovingAfterMissingBranch || run(
            initial_phase(checkout_exists),
            results,
        ) is RemovingAfterFailure,
    ensures
        results.len() >= 2,
        results[0],
        exists|j: int| 1 <= j < results.len() && !#[trigger] results[j],
{
    if results.len() >= 5 {
        law_sync_outcome(checkout_exists, results);
        assert(false);
    }
    let p0 = initial_phase(checkout_exists);
    if results.len() == 0 {
        assert(run(p0, results) == p0);
        assert(false);
    }
    let s1 = results.drop_first();
    let p1 = next_phase(p0, results[0]);
    assert(run(p0, results) == run(p1, s1));
    if s1.len() == 0 {
        assert(run(p1, s1) == p1);
        assert(false);
    }
    assert(s1[0] == results[1]);
    let s2 = s1.drop_first();
    let p2 = next_phase(p1, results[1]);
    assert(run(p1, s1) == run(p2, s2));
    if s2.len() == 0 {
        assert(run(p2, s2) == p2);
        assert(!results[1]);
        return;
    }
    assert(s2[0] == results[2]);
    let s3 = s2.drop_first();
    let p3 = next_phase(p2, results[2]);
    assert(run(p2, s2) == run(p3, s3));
    if s3.len() == 0 {
        assert(run(p3, s3) == p3);
        assert(!results[2]);
        return;
    }
    assert(s3[0] == results[3]);
    let s4 = s3.drop_first();
    let p4 = next_phase(p3, results[3]);
    assert(run(p3, s3) == run(p4, s4));
    assert(s4.len() == 0);
    assert(run(p4, s4) == p4);
    assert(!results[3]);
}

/// Once finished, the machine stays finished with the same outcome.
proof fn lemma_finished_stays(phase: SyncPhase, results: Seq<bool>)
    requires
        phase is Finished,
    ensures
        run(phase, results) == phase,
    decreases results.len(),
{
    if results.len() > 0 {
        lemma_finished_stays(next_phase(phase, results[0]), results.drop_first());
    }
}

/// Running on a sequence is running on its first `n` results, then on the rest.
proof fn lemma_run_split(phase: SyncPhase, results: Seq<bool>, n: int)
    requires
        0 <= n <= results.len(),
    ensures
        run(phase, results) == run(run(phase, results.subrange(0, n)), results.subrange(n, results.len() as int)),
    decreases n,
{
    if n == 0 {
        assert(results.subrange(0, 0).len() == 0);
        assert(results.subrange(0, results.len() as int) =~= results);
    } else {
        let rest = results.drop_first();
        lemma_run_split(next_phase(phase, results[0]), rest, n - 1);
        assert(results.subrange(0, n).drop_first() =~= rest.subrange(0, n - 1));
        assert(results.subrange(0, n)[0] == results[0]);
        assert(rest.subrange(n - 1, rest.len() as int) =~= results.subrange(n, results.len() as int));
    }
}

} // verus!
