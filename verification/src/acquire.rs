//! Binding a directory to its repository: clone it, or failing that open
//! what is there and bring it up to date as far as that goes.
//!
//! The steps are run by the caller, one at a time; this module decides
//! which step comes next from how the last one ended. Whatever fails, the
//! directory ends up bound and usable.

use crate::error::RepositoryError;
use vstd::prelude::*;

verus! {

/// The remote that an update fetches from.
pub const UPDATE_REMOTE: &'static str = "origin";

/// The branch that an update merges.
pub const UPDATE_BRANCH: &'static str = "origin/main";

/// How a directory came to be bound.
#[derive(Clone, Copy, Debug, PartialEq, Eq, Structural)]
pub enum Binding {
    /// The remote was cloned into it.
    Cloned,
    /// It held a repository, which was fetched and merged.
    Updated,
    /// It held a repository, which could not be brought up to date.
    Stale,
    /// It holds no repository: a local store with nothing in it yet.
    LocalOnly,
}

/// Where the binding of a directory stands: the step to run next, or the
/// end.
#[derive(Clone, Copy, Debug, PartialEq, Eq, Structural)]
pub enum AcquireState {
    /// Clone the remote into the directory.
    Cloning,
    /// Open the repository that the directory holds.
    Opening,
    /// Fetch from the remote.
    Fetching,
    /// Merge what was fetched.
    Merging,
    /// Nothing is left to do.
    Bound(Binding),
}

/// The state in which binding begins: with a clone where the remote URL
/// is valid, else with opening what is there, as after a clone that
/// failed.
pub open spec fn acquire_start(remote_url_valid: bool) -> AcquireState {
    if remote_url_valid {
        AcquireState::Cloning
    } else {
        AcquireState::Opening
    }
}

/// The state that follows `state` when its step succeeded or failed. A
/// failed clone falls back to opening; a directory that cannot be opened
/// is bound as a local store; a failed fetch or merge leaves the
/// repository bound as it is.
pub open spec fn acquire_next(state: AcquireState, succeeded: bool) -> AcquireState {
    match state {
        AcquireState::Cloning => if succeeded {
            AcquireState::Bound(Binding::Cloned)
        } else {
            AcquireState::Opening
        },
        AcquireState::Opening => if succeeded {
            AcquireState::Fetching
        } else {
            AcquireState::Bound(Binding::LocalOnly)
        },
        AcquireState::Fetching => if succeeded {
            AcquireState::Merging
        } else {
            AcquireState::Bound(Binding::Stale)
        },
        AcquireState::Merging => if succeeded {
            AcquireState::Bound(Binding::Updated)
        } else {
            AcquireState::Bound(Binding::Stale)
        },
        AcquireState::Bound(binding) => AcquireState::Bound(binding),
    }
}

/// Whatever the four steps report, binding has ended after them: no
/// failure of the remote, of the network or of the directory keeps the
/// store from being used.
pub proof fn lemma_acquire_ends(
    remote_url_valid: bool,
    first: bool,
    second: bool,
    third: bool,
    fourth: bool,
)
    ensures
        acquire_next(
            acquire_next(
                acquire_next(acquire_next(acquire_start(remote_url_valid), first), second),
                third,
            ),
            fourth,
        ) is Bound,
{
}

/// The state in which binding begins.
pub fn begin_acquire(remote_url_valid: bool) -> (state: AcquireState)
    ensures
        state == acquire_start(remote_url_valid),
{
    if remote_url_valid {
        AcquireState::Cloning
    } else {
        AcquireState::Opening
    }
}

/// The state that follows `state` when its step ended in `outcome`.
pub fn advance_acquire(state: AcquireState, outcome: Result<(), RepositoryError>) -> (next:
    AcquireState)
    ensures
        next == acquire_next(state, outcome is Ok),
{
    let succeeded = outcome.is_ok();
    match state {
        AcquireState::Cloning => if succeeded {
            AcquireState::Bound(Binding::Cloned)
        } else {
            AcquireState::Opening
        },
        AcquireState::Opening => if succeeded {
            AcquireState::Fetching
        } else {
            AcquireState::Bound(Binding::LocalOnly)
        },
        AcquireState::Fetching => if succeeded {
            AcquireState::Merging
        } else {
            AcquireState::Bound(Binding::Stale)
        },
        AcquireState::Merging => if succeeded {
            AcquireState::Bound(Binding::Updated)
        } else {
            AcquireState::Bound(Binding::Stale)
        },
        AcquireState::Bound(binding) => AcquireState::Bound(binding),
    }
}

} // verus!
