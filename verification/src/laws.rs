//! The tally invariant of the poll engine and its preservation by the state
//! transitions: every tally counts exactly the ballots selecting its option,
//! and the tallies of a poll sum to the number of distinct voters holding a
//! ballot on it.

use vstd::prelude::*;

use crate::lemmas::{lemma_find_option_props, lemma_lookup_ballot_props};
use crate::model::{
    can_vote, cast_vote_next, create_poll_next, find_option, lookup_ballot, lookup_poll,
    store_poll, store_wf, zero_options, BallotV, OptionV, PollEntryV, PollV, StoreV,
};

verus! {

/// Number of ballots recorded for poll `pid`; since at most one ballot per
/// `(voter, poll)` pair exists, this is the number of distinct voters who
/// have ever voted on the poll.
pub open spec fn count_ballots_for(ballots: Seq<BallotV>, pid: Seq<char>) -> nat
    decreases ballots.len(),
{
    if ballots.len() == 0 {
        0
    } else {
        count_ballots_for(ballots.drop_last(), pid) + (if ballots.last().poll_id == pid {
            1nat
        } else {
            0nat
        })
    }
}

/// Number of ballots for `pid` currently selecting `label`.
pub open spec fn count_votes(ballots: Seq<BallotV>, pid: Seq<char>, label: Seq<char>) -> nat
    decreases ballots.len(),
{
    if ballots.len() == 0 {
        0
    } else {
        count_votes(ballots.drop_last(), pid, label) + (if ballots.last().poll_id == pid
            && ballots.last().option == label {
            1nat
        } else {
            0nat
        })
    }
}

/// Sum of the tallies of an option table.
pub open spec fn sum_tallies(options: Seq<OptionV>) -> int
    decreases options.len(),
{
    if options.len() == 0 {
        0
    } else {
        sum_tallies(options.drop_last()) + options.last().tally
    }
}

/// Whether index `i` is the first row of the table carrying its label.
/// Ballots accumulate on first rows; a later row with a duplicated label
/// keeps tally zero.
pub open spec fn is_first_label(options: Seq<OptionV>, i: int) -> bool {
    find_option(options, options[i].label) == Option::Some(i)
}

/// The tally invariant of one poll: each first-of-its-label row counts the
/// ballots selecting that label, duplicated rows stay at zero, every ballot
/// for the poll selects an existing option, and the tallies sum to the
/// number of voters on the poll. A poll that does not exist imposes nothing.
pub open spec fn poll_consistent(s: StoreV, pid: Seq<char>) -> bool {
    match lookup_poll(s.polls, pid) {
        Option::None => true,
        Option::Some(p) => {
            &&& forall|i: int|
                0 <= i < p.options.len() ==> (#[trigger] p.options[i]).tally == (
                if is_first_label(p.options, i) {
                    count_votes(s.ballots, pid, p.options[i].label)
                } else {
                    0nat
                })
            &&& forall|j: int|
                0 <= j < s.ballots.len() && (#[trigger] s.ballots[j]).poll_id == pid
                    ==> find_option(p.options, s.ballots[j].option) is Some
            &&& sum_tallies(p.options) == count_ballots_for(s.ballots, pid)
        },
    }
}

proof fn lemma_count_votes_update(b: Seq<BallotV>, k: int, e: BallotV, pid: Seq<char>, label: Seq<char>)
    requires
        0 <= k < b.len(),
    ensures
        count_votes(b.update(k, e), pid, label) == count_votes(b, pid, label) - (
        if b[k].poll_id == pid && b[k].option == label {
            1int
        } else {
            0int
        }) + (if e.poll_id == pid && e.option == label {
            1int
        } else {
            0int
        }),
    decreases b.len(),
{
    if k == b.len() - 1 {
        assert(b.update(k, e).drop_last() =~= b.drop_last());
    } else {
        assert(b.update(k, e).drop_last() =~= b.drop_last().update(k, e));
        lemma_count_votes_update(b.drop_last(), k, e, pid, label);
    }
}

proof fn lemma_count_votes_push(b: Seq<BallotV>, e: BallotV, pid: Seq<char>, label: Seq<char>)
    ensures
        count_votes(b.push(e), pid, label) == count_votes(b, pid, label) + (if e.poll_id == pid
            && e.option == label {
            1int
        } else {
            0int
        }),
{
    assert(b.push(e).drop_last() =~= b);
}

proof fn lemma_count_for_update(b: Seq<BallotV>, k: int, e: BallotV, pid: Seq<char>)
    requires
        0 <= k < b.len(),
    ensures
        count_ballots_for(b.update(k, e), pid) == count_ballots_for(b, pid) - (
        if b[k].poll_id == pid {
            1int
        } else {
            0int
        }) + (if e.poll_id == pid {
            1int
        } else {
            0int
        }),
    decreases b.len(),
{
    if k == b.len() - 1 {
        assert(b.update(k, e).drop_last() =~= b.drop_last());
    } else {
        assert(b.update(k, e).drop_last() =~= b.drop_last().update(k, e));
        lemma_count_for_update(b.drop_last(), k, e, pid);
    }
}

proof fn lemma_count_for_push(b: Seq<BallotV>, e: BallotV, pid: Seq<char>)
    ensures
        count_ballots_for(b.push(e), pid) == count_ballots_for(b, pid) + (if e.poll_id == pid {
            1int
        } else {
            0int
        }),
{
    assert(b.push(e).drop_last() =~= b);
}

proof fn lemma_count_votes_le_len(b: Seq<BallotV>, pid: Seq<char>, label: Seq<char>)
    ensures
        count_votes(b, pid, label) <= b.len(),
    decreases b.len(),
{
    if b.len() > 0 {
        lemma_count_votes_le_len(b.drop_last(), pid, label);
    }
}

proof fn lemma_count_votes_at_least_one(b: Seq<BallotV>, k: int, pid: Seq<char>, label: Seq<char>)
    requires
        0 <= k < b.len(),
        b[k].poll_id == pid,
        b[k].option == label,
    ensures
        count_votes(b, pid, label) >= 1,
    decreases b.len(),
{
    if k < b.len() - 1 {
        lemma_count_votes_at_least_one(b.drop_last(), k, pid, label);
    }
}

proof fn lemma_count_votes_none(b: Seq<BallotV>, pid: Seq<char>, label: Seq<char>)
    requires
        forall|j: int| 0 <= j < b.len() ==> (#[trigger] b[j]).poll_id != pid,
    ensures
        count_votes(b, pid, label) == 0,
    decreases b.len(),
{
    if b.len() > 0 {
        lemma_count_votes_none(b.drop_last(), pid, label);
    }
}

proof fn lemma_count_for_none(b: Seq<BallotV>, pid: Seq<char>)
    requires
        forall|j: int| 0 <= j < b.len() ==> (#[trigger] b[j]).poll_id != pid,
    ensures
        count_ballots_for(b, pid) == 0,
    decreases b.len(),
{
    if b.len() > 0 {
        lemma_count_for_none(b.drop_last(), pid);
    }
}

proof fn lemma_sum_update(options: Seq<OptionV>, i: int, e: OptionV)
    requires
        0 <= i < options.len(),
    ensures
        sum_tallies(options.update(i, e)) == sum_tallies(options) - options[i].tally + e.tally,
    decreases options.len(),
{
    if i == options.len() - 1 {
        assert(options.update(i, e).drop_last() =~= options.drop_last());
    } else {
        assert(options.update(i, e).drop_last() =~= options.drop_last().update(i, e));
        lemma_sum_update(options.drop_last(), i, e);
    }
}

proof fn lemma_sum_zero_options(labels: Seq<Seq<char>>)
    ensures
        sum_tallies(zero_options(labels)) == 0,
    decreases labels.len(),
{
    if labels.len() > 0 {
        assert(zero_options(labels).drop_last() =~= zero_options(labels.drop_last()));
        lemma_sum_zero_options(labels.drop_last());
    }
}

proof fn lemma_lookup_store_poll(polls: Seq<PollEntryV>, id: Seq<char>, poll: PollV, qid: Seq<char>)
    ensures
        lookup_poll(store_poll(polls, id, poll), qid) == (if qid == id {
            Option::Some(poll)
        } else {
            lookup_poll(polls, qid)
        }),
    decreases polls.len(),
{
    let entry = PollEntryV { id, poll };
    let res = store_poll(polls, id, poll);
    if polls.len() == 0 {
        assert(res == seq![entry]);
        assert(res[0] == entry);
        assert(res.drop_first() =~= Seq::<PollEntryV>::empty());
        if qid == id {
            assert(lookup_poll(res, qid) == Option::Some(poll));
        } else {
            assert(lookup_poll(res, qid) == lookup_poll(res.drop_first(), qid));
        }
    } else if crate::model::lex_lt(id, polls[0].id) {
        assert(res == seq![entry] + polls);
        assert(res[0] == entry);
        assert(res.drop_first() =~= polls);
        if qid == id {
            assert(lookup_poll(res, qid) == Option::Some(poll));
        } else {
            assert(lookup_poll(res, qid) == lookup_poll(polls, qid));
        }
    } else if polls[0].id == id {
        assert(res == seq![entry] + polls.drop_first());
        assert(res[0] == entry);
        assert(res.drop_first() =~= polls.drop_first());
        if qid == id {
            assert(lookup_poll(res, qid) == Option::Some(poll));
        } else {
            lemma_lookup_drop_first_frame(polls, qid);
            assert(lookup_poll(res, qid) == lookup_poll(polls.drop_first(), qid));
        }
    } else {
        let rest = store_poll(polls.drop_first(), id, poll);
        assert(res == seq![polls[0]] + rest);
        assert(res[0] == polls[0]);
        assert(res.drop_first() =~= rest);
        lemma_lookup_store_poll(polls.drop_first(), id, poll, qid);
        if polls[0].id == qid {
            assert(qid != id);
            assert(lookup_poll(res, qid) == Option::Some(polls[0].poll));
            assert(lookup_poll(polls, qid) == Option::Some(polls[0].poll));
        } else {
            assert(lookup_poll(res, qid) == lookup_poll(rest, qid));
            assert(lookup_poll(polls, qid) == lookup_poll(polls.drop_first(), qid));
        }
    }
}

proof fn lemma_lookup_drop_first_frame(polls: Seq<PollEntryV>, qid: Seq<char>)
    requires
        polls.len() > 0,
        polls[0].id != qid,
    ensures
        lookup_poll(polls, qid) == lookup_poll(polls.drop_first(), qid),
{
}

/// Option labels are untouched by a tally update, so first-of-label indices
/// are too.
proof fn lemma_labels_preserved(o1: Seq<OptionV>, o2: Seq<OptionV>)
    requires
        o1.len() == o2.len(),
        forall|i: int| 0 <= i < o1.len() ==> (#[trigger] o1[i]).label == o2[i].label,
    ensures
        forall|l: Seq<char>| #[trigger] find_option(o1, l) == find_option(o2, l),
{
    assert forall|l: Seq<char>| #[trigger] find_option(o1, l) == find_option(o2, l) by {
        crate::lemmas::lemma_find_option_labels(o1, o2, l);
    }
}

/// Law: creating a poll for which no ballots exist establishes the tally
/// invariant for it, and does not disturb the invariant of any other poll.
pub proof fn law_create_poll_consistent(
    s: StoreV,
    creator: Seq<char>,
    pid: Seq<char>,
    question: Seq<char>,
    labels: Seq<Seq<char>>,
    qid: Seq<char>,
)
    requires
        poll_consistent(s, qid),
        forall|j: int| 0 <= j < s.ballots.len() ==> (#[trigger] s.ballots[j]).poll_id != pid,
    ensures
        poll_consistent(create_poll_next(s, creator, pid, question, labels), pid),
        qid != pid ==> poll_consistent(create_poll_next(s, creator, pid, question, labels), qid),
{
    let next = create_poll_next(s, creator, pid, question, labels);
    let np = PollV { creator, question, options: zero_options(labels) };
    lemma_lookup_store_poll(s.polls, pid, np, pid);
    assert(lookup_poll(next.polls, pid) == Option::Some(np));
    assert forall|l: Seq<char>| #[trigger] count_votes(s.ballots, pid, l) == 0 by {
        lemma_count_votes_none(s.ballots, pid, l);
    }
    lemma_count_for_none(s.ballots, pid);
    lemma_sum_zero_options(labels);
    assert(poll_consistent(next, pid));
    if qid != pid {
        lemma_lookup_store_poll(s.polls, pid, np, qid);
        assert(lookup_poll(next.polls, qid) == lookup_poll(s.polls, qid));
        assert(poll_consistent(next, qid));
    }
}

/// Law: casting or changing a vote preserves the tally invariant of every
/// poll. Together with `law_create_poll_consistent` this shows that after
/// any sequence of votes on polls created fresh, each tally counts exactly
/// the ballots selecting its option and the tallies of a poll sum to the
/// number of distinct voters who have voted on it.
pub proof fn law_cast_vote_consistent(
    s: StoreV,
    voter: Seq<char>,
    pid: Seq<char>,
    label: Seq<char>,
    qid: Seq<char>,
)
    requires
        store_wf(s),
        can_vote(s, pid, label),
        poll_consistent(s, qid),
        s.ballots.len() < u64::MAX,
    ensures
        poll_consistent(cast_vote_next(s, voter, pid, label), qid),
{
    let next = cast_vote_next(s, voter, pid, label);
    let p = lookup_poll(s.polls, pid)->Some_0;
    let ni = find_option(p.options, label)->Some_0;
    let prior = lookup_ballot(s.ballots, voter, pid);
    let np = PollV {
        creator: p.creator,
        question: p.question,
        options: crate::model::recast_options(p.options, prior, ni),
    };
    let entry = BallotV { voter, poll_id: pid, option: label };
    lemma_find_option_props(p.options, label);
    lemma_lookup_ballot_props(s.ballots, voter, pid);
    lemma_lookup_store_poll(s.polls, pid, np, qid);

    if qid != pid {
        match lookup_poll(s.polls, qid) {
            Option::None => {},
            Option::Some(q) => {
                match prior {
                    Option::None => {
                        crate::lemmas::lemma_set_ballot_push(s.ballots, voter, pid, label);
                        assert forall|l: Seq<char>| #[trigger] count_votes(next.ballots, qid, l)
                            == count_votes(s.ballots, qid, l) by {
                            lemma_count_votes_push(s.ballots, entry, qid, l);
                        }
                        lemma_count_for_push(s.ballots, entry, qid);
                        assert forall|j: int|
                            0 <= j < next.ballots.len() && (#[trigger] next.ballots[j]).poll_id
                                == qid implies find_option(q.options, next.ballots[j].option)
                            is Some by {
                            assert(next.ballots[j] == s.ballots[j]);
                        }
                        assert(poll_consistent(next, qid));
                    },
                    Option::Some(old_l) => {
                        let k = choose|k: int|
                            0 <= k < s.ballots.len() && s.ballots[k].voter == voter
                                && s.ballots[k].poll_id == pid && s.ballots[k].option == old_l && (
                            forall|j: int|
                                0 <= j < k ==> !(s.ballots[j].voter == voter && s.ballots[j].poll_id
                                    == pid));
                        crate::lemmas::lemma_set_ballot_update(s.ballots, voter, pid, label, k);
                        assert forall|l: Seq<char>| #[trigger] count_votes(next.ballots, qid, l)
                            == count_votes(s.ballots, qid, l) by {
                            lemma_count_votes_update(s.ballots, k, entry, qid, l);
                        }
                        lemma_count_for_update(s.ballots, k, entry, qid);
                        assert forall|j: int|
                            0 <= j < next.ballots.len() && (#[trigger] next.ballots[j]).poll_id
                                == qid implies find_option(q.options, next.ballots[j].option)
                            is Some by {
                            assert(next.ballots[j] == s.ballots[j]);
                        }
                        assert(poll_consistent(next, qid));
                    },
                }
            },
        }
    } else {
        // qid == pid: the poll voted on
        assert(lookup_poll(next.polls, pid) == Option::Some(np));
        assert(p.options[ni].label == label);
        match prior {
            Option::None => {
                // first vote: ballot appended, chosen tally incremented
                crate::lemmas::lemma_set_ballot_push(s.ballots, voter, pid, label);
                let t = p.options[ni].tally;
                assert(is_first_label(p.options, ni));
                assert(t == count_votes(s.ballots, pid, label));
                lemma_count_votes_le_len(s.ballots, pid, label);
                assert(t < u64::MAX);
                assert(np.options == crate::model::bump_up(p.options, ni));
                lemma_labels_preserved(p.options, np.options);
                assert forall|i: int|
                    0 <= i < np.options.len() implies (#[trigger] np.options[i]).tally == (
                if is_first_label(np.options, i) {
                    count_votes(next.ballots, pid, np.options[i].label)
                } else {
                    0nat
                }) by {
                    lemma_count_votes_push(s.ballots, entry, pid, np.options[i].label);
                    assert(is_first_label(np.options, i) == is_first_label(p.options, i));
                    if is_first_label(p.options, i) && i != ni {
                        assert(p.options[i].label != label);
                    }
                }
                assert forall|j: int|
                    0 <= j < next.ballots.len() && (#[trigger] next.ballots[j]).poll_id == pid
                        implies find_option(np.options, next.ballots[j].option) is Some by {
                    if j < s.ballots.len() {
                        assert(next.ballots[j] == s.ballots[j]);
                        assert(find_option(p.options, s.ballots[j].option) is Some);
                    } else {
                        assert(next.ballots[j] == entry);
                    }
                }
                lemma_sum_update(
                    p.options,
                    ni,
                    OptionV { label, tally: (t + 1) as u64 },
                );
                lemma_count_for_push(s.ballots, entry, pid);
                assert(poll_consistent(next, pid));
            },
            Option::Some(old_l) => {
                let k = choose|k: int|
                    0 <= k < s.ballots.len() && s.ballots[k].voter == voter && s.ballots[k].poll_id
                        == pid && s.ballots[k].option == old_l && (forall|j: int|
                        0 <= j < k ==> !(s.ballots[j].voter == voter && s.ballots[j].poll_id
                            == pid));
                crate::lemmas::lemma_set_ballot_update(s.ballots, voter, pid, label, k);
                if old_l == label {
                    // revote for the same option: nothing changes
                    assert(next.ballots =~= s.ballots);
                    assert(np.options == p.options);
                    assert(np =~= p);
                    assert(poll_consistent(next, pid));
                } else {
                    // changed vote: old option decremented, new incremented
                    assert(find_option(p.options, old_l) is Some);
                    let oi = find_option(p.options, old_l)->Some_0;
                    lemma_find_option_props(p.options, old_l);
                    assert(p.options[oi].label == old_l);
                    assert(oi != ni);
                    let told = p.options[oi].tally;
                    assert(is_first_label(p.options, oi));
                    assert(told == count_votes(s.ballots, pid, old_l));
                    lemma_count_votes_at_least_one(s.ballots, k, pid, old_l);
                    assert(told >= 1);
                    let mid = crate::model::bump_down(p.options, oi);
                    assert(np.options == crate::model::bump_up(mid, ni));
                    let t = p.options[ni].tally;
                    assert(mid[ni].tally == t);
                    assert(is_first_label(p.options, ni));
                    assert(t == count_votes(s.ballots, pid, label));
                    lemma_count_votes_le_len(s.ballots, pid, label);
                    assert(t < u64::MAX);
                    lemma_labels_preserved(p.options, mid);
                    lemma_labels_preserved(mid, np.options);
                    assert forall|i: int|
                        0 <= i < np.options.len() implies (#[trigger] np.options[i]).tally == (
                    if is_first_label(np.options, i) {
                        count_votes(next.ballots, pid, np.options[i].label)
                    } else {
                        0nat
                    }) by {
                        lemma_count_votes_update(s.ballots, k, entry, pid, np.options[i].label);
                        assert(np.options[i].label == p.options[i].label);
                        assert(is_first_label(np.options, i) == is_first_label(p.options, i));
                        if is_first_label(p.options, i) {
                            if i == oi {
                                assert(np.options[i].tally == told - 1);
                            } else if i == ni {
                                assert(np.options[i].tally == t + 1);
                            } else {
                                assert(p.options[i].label != label);
                                assert(p.options[i].label != old_l);
                            }
                        }
                    }
                    assert forall|j: int|
                        0 <= j < next.ballots.len() && (#[trigger] next.ballots[j]).poll_id == pid
                            implies find_option(np.options, next.ballots[j].option) is Some by {
                        if j != k {
                            assert(next.ballots[j] == s.ballots[j]);
                            assert(find_option(p.options, s.ballots[j].option) is Some);
                        } else {
                            assert(next.ballots[j] == entry);
                        }
                    }
                    lemma_sum_update(
                        p.options,
                        oi,
                        OptionV { label: old_l, tally: (told - 1) as u64 },
                    );
                    lemma_sum_update(
                        mid,
                        ni,
                        OptionV { label, tally: (t + 1) as u64 },
                    );
                    lemma_count_for_update(s.ballots, k, entry, pid);
                    assert(poll_consistent(next, pid));
                }
            },
        }
    }
}

/// Law: in a well-formed store the poll table stands in strictly ascending
/// key order, so `list_polls`, which returns the records in table order,
/// lists them ascending by key.
pub proof fn law_polls_listed_in_key_order(s: StoreV)
    requires
        store_wf(s),
    ensures
        forall|i: int, j: int|
            0 <= i < j < s.polls.len() ==> crate::model::lex_lt(s.polls[i].id, s.polls[j].id),
{
}

/// Law: in a consistent store the tallies of an existing poll sum to the
/// number of distinct voters holding a ballot on it.
pub proof fn law_tallies_sum_to_voters(s: StoreV, pid: Seq<char>)
    requires
        poll_consistent(s, pid),
        lookup_poll(s.polls, pid) is Some,
    ensures
        sum_tallies(lookup_poll(s.polls, pid)->Some_0.options) == count_ballots_for(
            s.ballots,
            pid,
        ),
{
}

} // verus!
