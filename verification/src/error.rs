//! Typed failures of the polling operations. Each variant names the actual
//! condition it reports.

use vstd::prelude::*;

verus! {

/// Failure set of the poll engine.
#[derive(Debug, Clone, Copy, PartialEq, Eq)]
pub enum PollError {
    /// Validation failure: a new poll was given more than the allowed number
    /// of options.
    TooManyOptions,
    /// The referenced poll does not exist.
    PollNotFound,
    /// The vote targets an option label absent from the poll.
    InvalidOption,
    /// The requested operation (poll deletion, vote revocation) is not
    /// supported.
    NotSupported,
}

} // verus!
