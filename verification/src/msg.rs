//! Message surface of the contract: execute and query requests as plain
//! values, with the dispatchers that the entry facade calls.

use vstd::prelude::*;

use crate::error::PollError;
use crate::model::{can_vote, cast_vote_next, create_poll_next, find_option, lookup_ballot, lookup_poll};
use crate::state::{Ballot, Poll, PollStore};

verus! {

/// State-changing requests. Deleting a poll and revoking a vote appear on
/// the message surface but are not supported operations.
pub enum ExecuteMsg {
    CreatePoll { poll_id: String, question: String, options: Vec<String> },
    Vote { poll_id: String, vote: String },
    Delete { poll_id: String },
    Revoke { poll_id: String, vote: String },
}

/// Read-only requests.
pub enum QueryMsg {
    AllPolls {},
    Poll { poll_id: String },
    Vote { address: String, poll_id: String },
}

/// Answer to `QueryMsg::AllPolls`.
pub struct AllPollsResponse {
    pub polls: Vec<Poll>,
}

/// Answer to `QueryMsg::Poll`.
pub struct PollResponse {
    pub poll: Option<Poll>,
}

/// Answer to `QueryMsg::Vote`.
pub struct VoteResponse {
    pub vote: Option<Ballot>,
}

/// The answer to a read-only request.
pub enum QueryAnswer {
    AllPolls(AllPollsResponse),
    Poll(PollResponse),
    Vote(VoteResponse),
}

/// Dispatch a state-changing request from `sender`. Unsupported requests are
/// rejected with a typed failure instead of aborting.
pub fn execute(store: &mut PollStore, sender: String, msg: ExecuteMsg) -> (r: Result<
    (),
    PollError,
>)
    requires
        old(store).wf(),
    ensures
        final(store).wf(),
        match msg {
            ExecuteMsg::CreatePoll { poll_id, question, options } => {
                &&& (options@.len() > 10 <==> r is Err)
                &&& r is Err ==> r == Result::<(), PollError>::Err(PollError::TooManyOptions)
                    && final(store)@ == old(store)@
                &&& r is Ok ==> final(store)@ == create_poll_next(
                    old(store)@,
                    sender@,
                    poll_id@,
                    question@,
                    options@.map_values(|s: String| s@),
                )
            },
            ExecuteMsg::Vote { poll_id, vote } => {
                &&& (r is Ok <==> can_vote(old(store)@, poll_id@, vote@))
                &&& r is Err ==> final(store)@ == old(store)@
                &&& (lookup_poll(old(store)@.polls, poll_id@) is None <==> r == Result::<(),
                    PollError,
                >::Err(PollError::PollNotFound))
                &&& ((lookup_poll(old(store)@.polls, poll_id@) is Some && find_option(
                    lookup_poll(old(store)@.polls, poll_id@)->Some_0.options,
                    vote@,
                ) is None) <==> r == Result::<(), PollError>::Err(PollError::InvalidOption))
                &&& r is Ok ==> final(store)@ == cast_vote_next(
                    old(store)@,
                    sender@,
                    poll_id@,
                    vote@,
                )
            },
            ExecuteMsg::Delete { .. } => r == Result::<(), PollError>::Err(
                PollError::NotSupported,
            ) && final(store)@ == old(store)@,
            ExecuteMsg::Revoke { .. } => r == Result::<(), PollError>::Err(
                PollError::NotSupported,
            ) && final(store)@ == old(store)@,
        },
{
    match msg {
        ExecuteMsg::CreatePoll { poll_id, question, options } => store.create_poll(
            sender,
            poll_id,
            question,
            options,
        ),
        ExecuteMsg::Vote { poll_id, vote } => store.cast_vote(sender, poll_id, vote),
        ExecuteMsg::Delete { .. } => Result::Err(PollError::NotSupported),
        ExecuteMsg::Revoke { .. } => Result::Err(PollError::NotSupported),
    }
}

/// Dispatch a read-only request.
pub fn query(store: &PollStore, msg: QueryMsg) -> (r: QueryAnswer)
    ensures
        match msg {
            QueryMsg::AllPolls {} => r matches QueryAnswer::AllPolls(a) && a.polls@.len()
                == store@.polls.len() && (forall|i: int|
                0 <= i < a.polls@.len() ==> a.polls@[i]@ == store@.polls[i].poll),
            QueryMsg::Poll { poll_id } => r matches QueryAnswer::Poll(a) && (match a.poll {
                Option::Some(p) => lookup_poll(store@.polls, poll_id@) == Option::Some(p@),
                Option::None => lookup_poll(store@.polls, poll_id@) is None,
            }),
            QueryMsg::Vote { address, poll_id } => r matches QueryAnswer::Vote(a) && (match a.vote {
                Option::Some(b) => lookup_ballot(store@.ballots, address@, poll_id@)
                    == Option::Some(b@),
                Option::None => lookup_ballot(store@.ballots, address@, poll_id@) is None,
            }),
        },
{
    match msg {
        QueryMsg::AllPolls {} => QueryAnswer::AllPolls(
            AllPollsResponse { polls: store.list_polls() },
        ),
        QueryMsg::Poll { poll_id } => QueryAnswer::Poll(
            PollResponse { poll: store.get_poll(poll_id) },
        ),
        QueryMsg::Vote { address, poll_id } => QueryAnswer::Vote(
            VoteResponse { vote: store.get_vote(address, poll_id) },
        ),
    }
}

} // verus!
