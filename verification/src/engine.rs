//! The poll engine: creating polls and casting or changing votes, specified
//! against the transition functions of the model.

use vstd::prelude::*;

use crate::error::PollError;
use crate::lemmas::{
    lemma_find_option_props, lemma_lookup_ballot_props, lemma_lookup_poll_props,
    lemma_set_ballot_push, lemma_set_ballot_update, lemma_sorted_insert, lemma_sorted_update,
    lemma_store_poll_insert, lemma_store_poll_update,
};
use crate::model::{
    ballots_unique, bump_down, bump_up, can_vote, cast_vote_next, create_poll_next, find_option,
    lex_lt, lookup_ballot, lookup_poll, zero_options, BallotV, OptionV,
    PollEntryV, PollV,
};
use crate::order::{lemma_lex_lt_total, str_lt};
use crate::state::{
    ballots_view, opts_view, polls_view, Ballot, BallotRow, Poll, PollOption, PollRow, PollStore,
};

verus! {

/// Index of the row holding `id`, together with what that means for the
/// model-level lookup.
pub(crate) fn poll_index(polls: &Vec<PollRow>, id: &String) -> (r: Option<usize>)
    ensures
        match r {
            Option::Some(i) => i < polls@.len() && polls@[i as int]@.id == id@ && (forall|j: int|
                0 <= j < i ==> polls@[j]@.id != id@) && lookup_poll(polls_view(polls@), id@)
                == Option::Some(polls@[i as int]@.poll),
            Option::None => lookup_poll(polls_view(polls@), id@) is None && (forall|j: int|
                0 <= j < polls@.len() ==> polls@[j]@.id != id@),
        },
{
    let ghost pv = polls_view(polls@);
    let mut i: usize = 0;
    while i < polls.len()
        invariant
            i <= polls@.len(),
            pv == polls_view(polls@),
            forall|j: int| 0 <= j < i ==> polls@[j]@.id != id@,
        decreases polls@.len() - i,
    {
        if polls[i].id == *id {
            proof {
                lemma_lookup_poll_props(pv, id@);
                assert(pv[i as int] == polls@[i as int]@);
            }
            return Option::Some(i);
        }
        i += 1;
    }
    proof {
        lemma_lookup_poll_props(pv, id@);
        if lookup_poll(pv, id@) is Some {
            let w = choose|k: int|
                0 <= k < pv.len() && pv[k].id == id@ && pv[k].poll == lookup_poll(
                    pv,
                    id@,
                )->Some_0 && (forall|j: int| 0 <= j < k ==> pv[j].id != id@);
            assert(polls@[w]@.id != id@);
        }
    }
    Option::None
}

/// Index of the first option carrying `label`, mirroring `find_option`.
pub(crate) fn option_index(options: &Vec<PollOption>, label: &String) -> (r: Option<usize>)
    ensures
        match r {
            Option::Some(i) => i < options@.len() && options@[i as int]@.label == label@
                && find_option(opts_view(options@), label@) == Option::Some(i as int),
            Option::None => find_option(opts_view(options@), label@) is None,
        },
{
    let ghost ov = opts_view(options@);
    let mut i: usize = 0;
    while i < options.len()
        invariant
            i <= options@.len(),
            ov == opts_view(options@),
            forall|j: int| 0 <= j < i ==> options@[j]@.label != label@,
        decreases options@.len() - i,
    {
        if options[i].label == *label {
            proof {
                lemma_find_option_props(ov, label@);
                assert(ov[i as int] == options@[i as int]@);
            }
            return Option::Some(i);
        }
        i += 1;
    }
    proof {
        lemma_find_option_props(ov, label@);
        if find_option(ov, label@) is Some {
            let w = find_option(ov, label@)->Some_0;
            assert(options@[w]@.label != label@);
        }
    }
    Option::None
}

/// Index of the ballot row keyed `(voter, poll_id)`, mirroring
/// `lookup_ballot`.
pub(crate) fn ballot_index(ballots: &Vec<BallotRow>, voter: &String, poll_id: &String) -> (r:
    Option<usize>)
    ensures
        match r {
            Option::Some(k) => k < ballots@.len() && ballots@[k as int]@.voter == voter@
                && ballots@[k as int]@.poll_id == poll_id@ && (forall|j: int|
                0 <= j < k ==> !(ballots@[j]@.voter == voter@ && ballots@[j]@.poll_id == poll_id@))
                && lookup_ballot(ballots_view(ballots@), voter@, poll_id@) == Option::Some(
                ballots@[k as int]@.option,
            ),
            Option::None => lookup_ballot(ballots_view(ballots@), voter@, poll_id@) is None && (
            forall|j: int|
                0 <= j < ballots@.len() ==> !(ballots@[j]@.voter == voter@ && ballots@[j]@.poll_id
                    == poll_id@)),
        },
{
    let ghost bv = ballots_view(ballots@);
    let mut k: usize = 0;
    while k < ballots.len()
        invariant
            k <= ballots@.len(),
            bv == ballots_view(ballots@),
            forall|j: int|
                0 <= j < k ==> !(ballots@[j]@.voter == voter@ && ballots@[j]@.poll_id == poll_id@),
        decreases ballots@.len() - k,
    {
        if ballots[k].voter == *voter && ballots[k].poll_id == *poll_id {
            proof {
                lemma_lookup_ballot_props(bv, voter@, poll_id@);
                assert(bv[k as int] == ballots@[k as int]@);
            }
            return Option::Some(k);
        }
        k += 1;
    }
    proof {
        lemma_lookup_ballot_props(bv, voter@, poll_id@);
        if lookup_ballot(bv, voter@, poll_id@) is Some {
            let w = choose|i: int|
                0 <= i < bv.len() && bv[i].voter == voter@ && bv[i].poll_id == poll_id@
                    && bv[i].option == lookup_ballot(bv, voter@, poll_id@)->Some_0 && (forall|
                    j: int,
                |
                    0 <= j < i ==> !(bv[j].voter == voter@ && bv[j].poll_id == poll_id@));
            assert(!(ballots@[w]@.voter == voter@ && ballots@[w]@.poll_id == poll_id@));
        }
    }
    Option::None
}

/// First position whose key does not sort strictly before `id`: the ordered
/// slot for saving a record under `id`.
fn insert_pos(polls: &Vec<PollRow>, id: &String) -> (pos: usize)
    ensures
        pos <= polls@.len(),
        forall|j: int| 0 <= j < pos ==> lex_lt(polls@[j]@.id, id@),
        pos < polls@.len() ==> !lex_lt(polls@[pos as int]@.id, id@),
{
    let mut pos: usize = 0;
    while pos < polls.len()
        invariant
            pos <= polls@.len(),
            forall|j: int| 0 <= j < pos ==> lex_lt(polls@[j]@.id, id@),
        decreases polls@.len() - pos,
    {
        if !str_lt(polls[pos].id.as_str(), id.as_str()) {
            return pos;
        }
        pos += 1;
    }
    pos
}

/// A copy of the option table with the tally at `up` incremented and, when
/// `down` names an index, the tally there decremented first. Both changes
/// guard the integer bounds.
fn adjust_options(options: &Vec<PollOption>, up: usize, down: Option<usize>) -> (r: Vec<PollOption>)
    requires
        up < options@.len(),
        match down {
            Option::Some(d) => d < options@.len(),
            Option::None => true,
        },
    ensures
        opts_view(r@) =~= (match down {
            Option::None => bump_up(opts_view(options@), up as int),
            Option::Some(d) => bump_up(bump_down(opts_view(options@), d as int), up as int),
        }),
{
    let ghost ov = opts_view(options@);
    let mut r: Vec<PollOption> = Vec::new();
    let mut i: usize = 0;
    while i < options.len()
        invariant
            i <= options@.len(),
            r@.len() == i,
            forall|j: int| 0 <= j < i ==> r@[j]@ == options@[j]@,
        decreases options@.len() - i,
    {
        r.push(options[i].cloned());
        i += 1;
    }
    proof {
        assert(opts_view(r@) =~= ov);
    }
    if let Option::Some(d) = down {
        let ghost before = opts_view(r@);
        let t = r[d].tally;
        let lab = r[d].label.clone();
        r[d] = PollOption { label: lab, tally: if t > 0 { t - 1 } else { t } };
        proof {
            assert(opts_view(r@) =~= bump_down(before, d as int));
        }
    }
    let ghost mid = opts_view(r@);
    let t = r[up].tally;
    let lab = r[up].label.clone();
    r[up] = PollOption { label: lab, tally: if t < u64::MAX { t + 1 } else { t } };
    proof {
        assert(opts_view(r@) =~= bump_up(mid, up as int));
    }
    r
}

impl PollStore {
    /// Create a poll under `poll_id`, storing every supplied option label
    /// with tally zero in input order. Fails exactly when more than ten
    /// options are supplied; a reused `poll_id` silently overwrites the old
    /// record.
    pub fn create_poll(
        &mut self,
        creator: String,
        poll_id: String,
        question: String,
        options: Vec<String>,
    ) -> (r: Result<(), PollError>)
        requires
            old(self).wf(),
        ensures
            final(self).wf(),
            options@.len() > 10 <==> r is Err,
            r is Err ==> r == Result::<(), PollError>::Err(PollError::TooManyOptions)
                && final(self)@ == old(self)@,
            r is Ok ==> final(self)@ == create_poll_next(
                old(self)@,
                creator@,
                poll_id@,
                question@,
                options@.map_values(|s: String| s@),
            ),
    {
        if options.len() > 10 {
            return Result::Err(PollError::TooManyOptions);
        }
        let ghost s0 = self@;
        let ghost labels = options@.map_values(|s: String| s@);
        let ghost pv = PollV { creator: creator@, question: question@, options: zero_options(labels) };
        let mut opts: Vec<PollOption> = Vec::new();
        let mut k: usize = 0;
        while k < options.len()
            invariant
                k <= options@.len(),
                opts@.len() == k,
                forall|j: int| 0 <= j < k ==> opts@[j]@ == (OptionV { label: options@[j]@, tally: 0u64 }),
            decreases options@.len() - k,
        {
            opts.push(PollOption { label: options[k].clone(), tally: 0 });
            k += 1;
        }
        proof {
            assert(opts_view(opts@) =~= zero_options(labels));
        }
        let poll = Poll { creator, question, options: opts };
        let pos = insert_pos(&self.polls, &poll_id);
        let ghost entry = PollEntryV { id: poll_id@, poll: pv };
        if pos < self.polls.len() && self.polls[pos].id == poll_id {
            proof {
                assert(poll@ == pv);
                lemma_store_poll_update(s0.polls, poll_id@, pv, pos as int);
                lemma_sorted_update(s0.polls, pos as int, entry);
            }
            self.polls[pos] = PollRow { id: poll_id, poll };
            proof {
                assert(polls_view(self.polls@) =~= s0.polls.update(pos as int, entry));
                assert(self@ =~= create_poll_next(s0, pv.creator, entry.id, pv.question, labels));
            }
        } else {
            proof {
                if pos < self.polls@.len() {
                    lemma_lex_lt_total(s0.polls[pos as int].id, poll_id@);
                }
                assert(poll@ == pv);
                lemma_store_poll_insert(s0.polls, poll_id@, pv, pos as int);
                lemma_sorted_insert(s0.polls, pos as int, entry);
            }
            self.polls.insert(pos, PollRow { id: poll_id, poll });
            proof {
                assert(polls_view(self.polls@) =~= s0.polls.insert(pos as int, entry));
                assert(self@ =~= create_poll_next(s0, pv.creator, entry.id, pv.question, labels));
            }
        }
        Result::Ok(())
    }

    /// Cast or change a vote. Fails with `PollNotFound` when no poll exists
    /// under `poll_id`, with `InvalidOption` when the poll has no option
    /// labelled `option_label`; both failures leave the store unchanged. On
    /// success the voter's ballot records `option_label` and the tallies move
    /// as the model transition says: first vote increments the chosen option,
    /// a changed vote also decrements the option voted before, and a repeated
    /// vote for the same option changes no tally.
    pub fn cast_vote(&mut self, voter: String, poll_id: String, option_label: String) -> (r:
        Result<(), PollError>)
        requires
            old(self).wf(),
        ensures
            final(self).wf(),
            r is Err ==> final(self)@ == old(self)@,
            lookup_poll(old(self)@.polls, poll_id@) is None <==> r == Result::<(),
                PollError,
            >::Err(PollError::PollNotFound),
            (lookup_poll(old(self)@.polls, poll_id@) is Some && find_option(
                lookup_poll(old(self)@.polls, poll_id@)->Some_0.options,
                option_label@,
            ) is None) <==> r == Result::<(), PollError>::Err(PollError::InvalidOption),
            r is Ok <==> can_vote(old(self)@, poll_id@, option_label@),
            r is Ok ==> final(self)@ == cast_vote_next(old(self)@, voter@, poll_id@, option_label@),
    {
        let ghost s0 = self@;
        let pi = match poll_index(&self.polls, &poll_id) {
            Option::None => {
                return Result::Err(PollError::PollNotFound);
            },
            Option::Some(i) => i,
        };
        let ghost p = s0.polls[pi as int].poll;
        let oi = match option_index(&self.polls[pi].poll.options, &option_label) {
            Option::None => {
                return Result::Err(PollError::InvalidOption);
            },
            Option::Some(i) => i,
        };
        let bi = ballot_index(&self.ballots, &voter, &poll_id);
        let ghost prior = lookup_ballot(s0.ballots, voter@, poll_id@);
        let mut down: Option<usize> = Option::None;
        let mut same = false;
        if let Option::Some(b) = bi {
            if self.ballots[b].ballot.option == option_label {
                same = true;
            } else {
                down = option_index(&self.polls[pi].poll.options, &self.ballots[b].ballot.option);
            }
        }
        proof {
            assert(forall|j: int|
                0 <= j < pi ==> lex_lt(s0.polls[j].id, s0.polls[pi as int].id));
        }
        if same {
            let b = bi.unwrap();
            proof {
                let entry = BallotV { voter: voter@, poll_id: poll_id@, option: option_label@ };
                lemma_set_ballot_update(s0.ballots, voter@, poll_id@, option_label@, b as int);
                assert(s0.ballots.update(b as int, entry) =~= s0.ballots);
                lemma_store_poll_update(s0.polls, poll_id@, p, pi as int);
                assert(s0.polls.update(pi as int, PollEntryV { id: poll_id@, poll: p })
                    =~= s0.polls);
                assert(self@ =~= cast_vote_next(s0, voter@, poll_id@, option_label@));
            }
            return Result::Ok(());
        }
        // read-modify-write: compute the updated poll record, then persist it
        let new_options = adjust_options(&self.polls[pi].poll.options, oi, down);
        let creator = self.polls[pi].poll.creator.clone();
        let question = self.polls[pi].poll.question.clone();
        let ghost np = PollV { creator: p.creator, question: p.question, options: opts_view(new_options@) };
        let new_poll = Poll { creator, question, options: new_options };
        proof {
            lemma_store_poll_update(s0.polls, poll_id@, np, pi as int);
            lemma_sorted_update(s0.polls, pi as int, PollEntryV { id: poll_id@, poll: np });
        }
        self.polls[pi] = PollRow { id: poll_id.clone(), poll: new_poll };
        let ghost entry = BallotV { voter: voter@, poll_id: poll_id@, option: option_label@ };
        match bi {
            Option::None => {
                proof {
                    lemma_set_ballot_push(s0.ballots, voter@, poll_id@, option_label@);
                }
                self.ballots.push(BallotRow { voter, poll_id, ballot: Ballot { option: option_label } });
                proof {
                    assert(ballots_view(self.ballots@) =~= s0.ballots.push(entry));
                }
            },
            Option::Some(b) => {
                proof {
                    lemma_set_ballot_update(s0.ballots, voter@, poll_id@, option_label@, b as int);
                }
                self.ballots[b] = BallotRow { voter, poll_id, ballot: Ballot { option: option_label } };
                proof {
                    assert(ballots_view(self.ballots@) =~= s0.ballots.update(b as int, entry));
                }
            },
        }
        proof {
            assert(polls_view(self.polls@) =~= s0.polls.update(
                pi as int,
                PollEntryV { id: poll_id@, poll: np },
            ));
            assert(ballots_unique(self@.ballots));
            assert(self@ =~= cast_vote_next(s0, voter@, poll_id@, option_label@));
        }
        Result::Ok(())
    }
}

} // verus!
