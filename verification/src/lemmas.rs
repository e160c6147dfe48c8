//! Facts connecting the recursive table functions of the model with
//! positional reasoning over the underlying sequences.

use vstd::prelude::*;

use crate::model::{
    find_option, lex_lt, lookup_ballot, lookup_poll, polls_sorted, set_ballot, store_poll,
    BallotV, OptionV, PollEntryV, PollV,
};
use crate::order::{lemma_lex_lt_total, lemma_lex_lt_trans};

verus! {

/// `lookup_poll` returns the first entry whose key matches, if any.
pub proof fn lemma_lookup_poll_props(polls: Seq<PollEntryV>, id: Seq<char>)
    ensures
        match lookup_poll(polls, id) {
            Option::None => forall|j: int| 0 <= j < polls.len() ==> polls[j].id != id,
            Option::Some(p) => exists|i: int|
                0 <= i < polls.len() && polls[i].id == id && polls[i].poll == p && (forall|j: int|
                    0 <= j < i ==> polls[j].id != id),
        },
    decreases polls.len(),
{
    if polls.len() > 0 && polls[0].id != id {
        lemma_lookup_poll_props(polls.drop_first(), id);
        match lookup_poll(polls, id) {
            Option::None => {
                assert forall|j: int| 0 <= j < polls.len() implies polls[j].id != id by {
                    if j > 0 {
                        assert(polls.drop_first()[j - 1].id != id);
                    }
                }
            },
            Option::Some(p) => {
                let i0 = choose|i: int|
                    0 <= i < polls.drop_first().len() && polls.drop_first()[i].id == id
                        && polls.drop_first()[i].poll == p && (forall|j: int|
                        0 <= j < i ==> polls.drop_first()[j].id != id);
                assert forall|j: int| 0 <= j < i0 + 1 implies polls[j].id != id by {
                    if j > 0 {
                        assert(polls.drop_first()[j - 1].id != id);
                    }
                }
                assert(polls[i0 + 1].id == id && polls[i0 + 1].poll == p);
            },
        }
    }
}

/// `find_option` returns the first index carrying the label, if any.
pub proof fn lemma_find_option_props(options: Seq<OptionV>, label: Seq<char>)
    ensures
        match find_option(options, label) {
            Option::None => forall|j: int| 0 <= j < options.len() ==> options[j].label != label,
            Option::Some(i) => 0 <= i < options.len() && options[i].label == label && (forall|
                j: int,
            |
                0 <= j < i ==> options[j].label != label),
        },
    decreases options.len(),
{
    if options.len() > 0 && options[0].label != label {
        lemma_find_option_props(options.drop_first(), label);
        match find_option(options, label) {
            Option::None => {
                assert forall|j: int| 0 <= j < options.len() implies options[j].label != label by {
                    if j > 0 {
                        assert(options.drop_first()[j - 1].label != label);
                    }
                }
            },
            Option::Some(i) => {
                assert(options.drop_first()[i - 1].label == label);
                assert forall|j: int| 0 <= j < i implies options[j].label != label by {
                    if j > 0 {
                        assert(options.drop_first()[j - 1].label != label);
                    }
                }
            },
        }
    }
}

/// `find_option` looks only at the labels: two option tables with equal
/// labels give equal results.
pub proof fn lemma_find_option_labels(o1: Seq<OptionV>, o2: Seq<OptionV>, label: Seq<char>)
    requires
        o1.len() == o2.len(),
        forall|j: int| 0 <= j < o1.len() ==> o1[j].label == o2[j].label,
    ensures
        find_option(o1, label) == find_option(o2, label),
    decreases o1.len(),
{
    if o1.len() > 0 {
        assert(o1[0].label == o2[0].label);
        lemma_find_option_labels(o1.drop_first(), o2.drop_first(), label);
    }
}

/// `lookup_ballot` returns the option of the first entry with the key, if any.
pub proof fn lemma_lookup_ballot_props(ballots: Seq<BallotV>, voter: Seq<char>, poll_id: Seq<char>)
    ensures
        match lookup_ballot(ballots, voter, poll_id) {
            Option::None => forall|j: int|
                0 <= j < ballots.len() ==> !(ballots[j].voter == voter && ballots[j].poll_id
                    == poll_id),
            Option::Some(l) => exists|k: int|
                0 <= k < ballots.len() && ballots[k].voter == voter && ballots[k].poll_id == poll_id
                    && ballots[k].option == l && (forall|j: int|
                    0 <= j < k ==> !(ballots[j].voter == voter && ballots[j].poll_id == poll_id)),
        },
    decreases ballots.len(),
{
    if ballots.len() > 0 && !(ballots[0].voter == voter && ballots[0].poll_id == poll_id) {
        lemma_lookup_ballot_props(ballots.drop_first(), voter, poll_id);
        match lookup_ballot(ballots, voter, poll_id) {
            Option::None => {
                assert forall|j: int| 0 <= j < ballots.len() implies !(ballots[j].voter == voter
                    && ballots[j].poll_id == poll_id) by {
                    if j > 0 {
                        assert(!(ballots.drop_first()[j - 1].voter == voter
                            && ballots.drop_first()[j - 1].poll_id == poll_id));
                    }
                }
            },
            Option::Some(l) => {
                let k0 = choose|k: int|
                    0 <= k < ballots.drop_first().len() && ballots.drop_first()[k].voter == voter
                        && ballots.drop_first()[k].poll_id == poll_id
                        && ballots.drop_first()[k].option == l && (forall|j: int|
                        0 <= j < k ==> !(ballots.drop_first()[j].voter == voter
                            && ballots.drop_first()[j].poll_id == poll_id));
                assert forall|j: int| 0 <= j < k0 + 1 implies !(ballots[j].voter == voter
                    && ballots[j].poll_id == poll_id) by {
                    if j > 0 {
                        assert(!(ballots.drop_first()[j - 1].voter == voter
                            && ballots.drop_first()[j - 1].poll_id == poll_id));
                    }
                }
                assert(ballots[k0 + 1].voter == voter && ballots[k0 + 1].poll_id == poll_id
                    && ballots[k0 + 1].option == l);
            },
        }
    }
}

/// Saving under a key already present at index `i` replaces that entry.
pub proof fn lemma_store_poll_update(polls: Seq<PollEntryV>, id: Seq<char>, poll: PollV, i: int)
    requires
        0 <= i < polls.len(),
        polls[i].id == id,
        forall|j: int| 0 <= j < i ==> lex_lt(polls[j].id, id),
    ensures
        store_poll(polls, id, poll) =~= polls.update(i, PollEntryV { id, poll }),
    decreases i,
{
    if i == 0 {
        lemma_lex_lt_total(id, polls[0].id);
    } else {
        lemma_lex_lt_total(polls[0].id, id);
        assert(lex_lt(polls[0].id, id));
        lemma_store_poll_update(polls.drop_first(), id, poll, i - 1);
    }
}

/// Saving under a fresh key inserts the entry at its ordered position `i`.
pub proof fn lemma_store_poll_insert(polls: Seq<PollEntryV>, id: Seq<char>, poll: PollV, i: int)
    requires
        0 <= i <= polls.len(),
        forall|j: int| 0 <= j < i ==> lex_lt(polls[j].id, id),
        i == polls.len() || lex_lt(id, polls[i].id),
    ensures
        store_poll(polls, id, poll) =~= polls.insert(i, PollEntryV { id, poll }),
    decreases i,
{
    if i == 0 {
        if polls.len() > 0 {
            lemma_lex_lt_total(id, polls[0].id);
        }
    } else {
        lemma_lex_lt_total(polls[0].id, id);
        assert(lex_lt(polls[0].id, id));
        lemma_store_poll_insert(polls.drop_first(), id, poll, i - 1);
    }
}

/// Replacing an entry without changing its key keeps the table sorted.
pub proof fn lemma_sorted_update(polls: Seq<PollEntryV>, i: int, entry: PollEntryV)
    requires
        polls_sorted(polls),
        0 <= i < polls.len(),
        entry.id == polls[i].id,
    ensures
        polls_sorted(polls.update(i, entry)),
{
}

/// Inserting an entry at its ordered position keeps the table sorted.
pub proof fn lemma_sorted_insert(polls: Seq<PollEntryV>, i: int, entry: PollEntryV)
    requires
        polls_sorted(polls),
        0 <= i <= polls.len(),
        forall|j: int| 0 <= j < i ==> lex_lt(polls[j].id, entry.id),
        i == polls.len() || lex_lt(entry.id, polls[i].id),
    ensures
        polls_sorted(polls.insert(i, entry)),
{
    let next = polls.insert(i, entry);
    assert forall|p: int, q: int| 0 <= p < q < next.len() implies lex_lt(next[p].id, next[q].id) by {
        if p < i && q == i {
        } else if p == i && q > i {
            if q - 1 > i {
                lemma_lex_lt_trans(entry.id, polls[i].id, polls[q - 1].id);
            }
        } else if p < i && q > i {
            assert(lex_lt(polls[p].id, polls[q - 1].id));
        } else if p > i && q > i {
            assert(lex_lt(polls[p - 1].id, polls[q - 1].id));
        }
    }
}

/// Recording a ballot whose key is present at index `k` replaces that entry.
pub proof fn lemma_set_ballot_update(
    ballots: Seq<BallotV>,
    voter: Seq<char>,
    poll_id: Seq<char>,
    option: Seq<char>,
    k: int,
)
    requires
        0 <= k < ballots.len(),
        ballots[k].voter == voter && ballots[k].poll_id == poll_id,
        forall|j: int|
            0 <= j < k ==> !(ballots[j].voter == voter && ballots[j].poll_id == poll_id),
    ensures
        set_ballot(ballots, voter, poll_id, option) =~= ballots.update(
            k,
            BallotV { voter, poll_id, option },
        ),
    decreases k,
{
    if k > 0 {
        lemma_set_ballot_update(ballots.drop_first(), voter, poll_id, option, k - 1);
    }
}

/// Recording a ballot under a fresh key appends it.
pub proof fn lemma_set_ballot_push(
    ballots: Seq<BallotV>,
    voter: Seq<char>,
    poll_id: Seq<char>,
    option: Seq<char>,
)
    requires
        forall|j: int|
            0 <= j < ballots.len() ==> !(ballots[j].voter == voter && ballots[j].poll_id
                == poll_id),
    ensures
        set_ballot(ballots, voter, poll_id, option) =~= ballots.push(
            BallotV { voter, poll_id, option },
        ),
    decreases ballots.len(),
{
    if ballots.len() > 0 {
        assert forall|j: int| 0 <= j < ballots.drop_first().len() implies !(
        ballots.drop_first()[j].voter == voter && ballots.drop_first()[j].poll_id == poll_id) by {
            assert(ballots.drop_first()[j] == ballots[j + 1]);
        }
        lemma_set_ballot_push(ballots.drop_first(), voter, poll_id, option);
    }
}

} // verus!
