//! Non-fatal notifications surfaced to the user.  Every failure the
//! core handles degrades to one of these; none of them ends the
//! process.

use vstd::prelude::*;

verus! {

/// A condition the user is told about, best-effort, through the
/// surrounding program's notification collaborator.
pub enum Notice {
    /// The configuration was missing or malformed; defaults are in use.
    ConfigInvalid,
    /// The directory at the path could not be enumerated.
    ReadFailed(String),
    /// The entry at the path could not be removed.
    DeleteFailed(String),
    /// The entry at the path could not be handed to the default
    /// application.
    LaunchFailed(String),
    /// The confirmation utility itself failed to run; its answer is
    /// taken as declined.
    ConfirmUnavailable(String),
}

} // verus!
