//! Verified core of a small on-chain polling application: creating polls,
//! casting and changing votes, and read queries over poll and ballot state.
//!
//! The persistent key-value store of the host is modelled by [`state::PollStore`],
//! an ordered table of polls plus a table of ballots, kept well-formed by every
//! operation. The host glue (message decoding, address validation, response
//! envelopes) lives outside this crate and hands in plain values.

pub mod engine;
pub mod error;
pub mod laws;
pub mod lemmas;
pub mod model;
pub mod msg;
pub mod order;
pub mod query;
pub mod state;

use vstd::prelude::*;

verus! {

/// Resolve the administrator of a new deployment: the explicitly supplied
/// principal when there is one, otherwise the sender of the message.
pub fn resolve_admin(admin: Option<String>, sender: String) -> (r: String)
    ensures
        r@ == match admin {
            Option::Some(a) => a@,
            Option::None => sender@,
        },
{
    match admin {
        Option::Some(a) => a,
        Option::None => sender,
    }
}

} // verus!
