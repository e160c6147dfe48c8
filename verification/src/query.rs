//! Read-only projections over stored polls and ballots.

use vstd::prelude::*;

use crate::engine::{ballot_index, poll_index};
use crate::model::{lookup_ballot, lookup_poll};
use crate::state::{Ballot, Poll, PollStore};

verus! {

impl PollStore {
    /// Every stored poll, in ascending key order (the order of the table).
    pub fn list_polls(&self) -> (r: Vec<Poll>)
        ensures
            r@.len() == self@.polls.len(),
            forall|i: int| 0 <= i < r@.len() ==> r@[i]@ == self@.polls[i].poll,
    {
        let mut r: Vec<Poll> = Vec::new();
        let mut i: usize = 0;
        while i < self.polls.len()
            invariant
                i <= self.polls@.len(),
                r@.len() == i,
                forall|j: int| 0 <= j < i ==> r@[j]@ == self@.polls[j].poll,
            decreases self.polls@.len() - i,
        {
            r.push(self.polls[i].poll.cloned());
            i += 1;
        }
        r
    }

    /// The poll stored under `poll_id`, if any: absence is not a failure.
    pub fn get_poll(&self, poll_id: String) -> (r: Option<Poll>)
        ensures
            match r {
                Option::Some(p) => lookup_poll(self@.polls, poll_id@) == Option::Some(p@),
                Option::None => lookup_poll(self@.polls, poll_id@) is None,
            },
    {
        match poll_index(&self.polls, &poll_id) {
            Option::Some(i) => Option::Some(self.polls[i].poll.cloned()),
            Option::None => Option::None,
        }
    }

    /// The ballot `voter` currently holds for `poll_id`, if any: a voter who
    /// never voted gets absence, not a failure.
    pub fn get_vote(&self, voter: String, poll_id: String) -> (r: Option<Ballot>)
        ensures
            match r {
                Option::Some(b) => lookup_ballot(self@.ballots, voter@, poll_id@) == Option::Some(
                    b@,
                ),
                Option::None => lookup_ballot(self@.ballots, voter@, poll_id@) is None,
            },
    {
        match ballot_index(&self.ballots, &voter, &poll_id) {
            Option::Some(k) => Option::Some(self.ballots[k].ballot.cloned()),
            Option::None => Option::None,
        }
    }
}

} // verus!
