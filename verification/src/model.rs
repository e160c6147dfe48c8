//! Mathematical model of the poll store: ghost images of the records and
//! spec-level transition functions that the executable operations are
//! specified against.

use vstd::prelude::*;

verus! {

/// Image of one poll option: a label and the tally of ballots selecting it.
#[verifier::ext_equal]
pub ghost struct OptionV {
    pub label: Seq<char>,
    pub tally: u64,
}

/// Image of a poll record.
#[verifier::ext_equal]
pub ghost struct PollV {
    pub creator: Seq<char>,
    pub question: Seq<char>,
    pub options: Seq<OptionV>,
}

/// One row of the poll table: the caller-supplied key and the record.
#[verifier::ext_equal]
pub ghost struct PollEntryV {
    pub id: Seq<char>,
    pub poll: PollV,
}

/// One row of the ballot table, keyed by `(voter, poll_id)`.
#[verifier::ext_equal]
pub ghost struct BallotV {
    pub voter: Seq<char>,
    pub poll_id: Seq<char>,
    pub option: Seq<char>,
}

/// Image of the whole store: the singleton configuration, the ordered poll
/// table and the ballot table.
#[verifier::ext_equal]
pub ghost struct StoreV {
    pub admin: Option<Seq<char>>,
    pub polls: Seq<PollEntryV>,
    pub ballots: Seq<BallotV>,
}

/// Strict lexicographic order on code points. Keys are compared character by
/// character; since UTF-8 encoding preserves code-point order, this is also
/// the byte order of the encoded keys.
pub open spec fn lex_lt(a: Seq<char>, b: Seq<char>) -> bool
    decreases a.len(),
{
    if b.len() == 0 {
        false
    } else if a.len() == 0 {
        true
    } else if a[0] == b[0] {
        lex_lt(a.drop_first(), b.drop_first())
    } else {
        a[0] < b[0]
    }
}

/// The poll table is kept strictly ascending by key, which also makes keys
/// unique.
pub open spec fn polls_sorted(polls: Seq<PollEntryV>) -> bool {
    forall|i: int, j: int|
        0 <= i < j < polls.len() ==> lex_lt(polls[i].id, polls[j].id)
}

/// At most one ballot per `(voter, poll)` pair.
pub open spec fn ballots_unique(ballots: Seq<BallotV>) -> bool {
    forall|i: int, j: int|
        0 <= i < j < ballots.len() ==> !(ballots[i].voter == ballots[j].voter
            && ballots[i].poll_id == ballots[j].poll_id)
}

/// Well-formedness of a store image.
pub open spec fn store_wf(s: StoreV) -> bool {
    polls_sorted(s.polls) && ballots_unique(s.ballots)
}

/// First-match lookup of a poll by key.
pub open spec fn lookup_poll(polls: Seq<PollEntryV>, id: Seq<char>) -> Option<PollV>
    decreases polls.len(),
{
    if polls.len() == 0 {
        Option::None
    } else if polls[0].id == id {
        Option::Some(polls[0].poll)
    } else {
        lookup_poll(polls.drop_first(), id)
    }
}

/// Ordered insert-or-replace: the image of saving a record under its key in
/// the ordered poll table.
pub open spec fn store_poll(polls: Seq<PollEntryV>, id: Seq<char>, poll: PollV) -> Seq<PollEntryV>
    decreases polls.len(),
{
    let entry = PollEntryV { id, poll };
    if polls.len() == 0 {
        seq![entry]
    } else if lex_lt(id, polls[0].id) {
        seq![entry] + polls
    } else if polls[0].id == id {
        seq![entry] + polls.drop_first()
    } else {
        seq![polls[0]] + store_poll(polls.drop_first(), id, poll)
    }
}

/// First index carrying `label`, if any.
pub open spec fn find_option(options: Seq<OptionV>, label: Seq<char>) -> Option<int>
    decreases options.len(),
{
    if options.len() == 0 {
        Option::None
    } else if options[0].label == label {
        Option::Some(0int)
    } else {
        match find_option(options.drop_first(), label) {
            Option::Some(i) => Option::Some(i + 1),
            Option::None => Option::None,
        }
    }
}

/// The option a voter's ballot currently records for a poll, if any.
pub open spec fn lookup_ballot(ballots: Seq<BallotV>, voter: Seq<char>, poll_id: Seq<char>) -> Option<
    Seq<char>,
>
    decreases ballots.len(),
{
    if ballots.len() == 0 {
        Option::None
    } else if ballots[0].voter == voter && ballots[0].poll_id == poll_id {
        Option::Some(ballots[0].option)
    } else {
        lookup_ballot(ballots.drop_first(), voter, poll_id)
    }
}

/// Record a ballot: replace the first entry with the same key, else append.
pub open spec fn set_ballot(
    ballots: Seq<BallotV>,
    voter: Seq<char>,
    poll_id: Seq<char>,
    option: Seq<char>,
) -> Seq<BallotV>
    decreases ballots.len(),
{
    let entry = BallotV { voter, poll_id, option };
    if ballots.len() == 0 {
        seq![entry]
    } else if ballots[0].voter == voter && ballots[0].poll_id == poll_id {
        seq![entry] + ballots.drop_first()
    } else {
        seq![ballots[0]] + set_ballot(ballots.drop_first(), voter, poll_id, option)
    }
}

/// Tally increment at index `i`, capped at the integer bound.
pub open spec fn bump_up(options: Seq<OptionV>, i: int) -> Seq<OptionV> {
    let t = options[i].tally;
    options.update(
        i,
        OptionV { label: options[i].label, tally: if t < u64::MAX { (t + 1) as u64 } else { t } },
    )
}

/// Tally decrement at index `i`, stopping at zero.
pub open spec fn bump_down(options: Seq<OptionV>, i: int) -> Seq<OptionV> {
    let t = options[i].tally;
    options.update(
        i,
        OptionV { label: options[i].label, tally: if t > 0 { (t - 1) as u64 } else { t } },
    )
}

/// Fresh options for a new poll: every supplied label with tally zero, in
/// input order.
pub open spec fn zero_options(labels: Seq<Seq<char>>) -> Seq<OptionV> {
    labels.map_values(|l: Seq<char>| OptionV { label: l, tally: 0u64 })
}

/// Whether a vote for `option` on `poll_id` can succeed on store `s`.
pub open spec fn can_vote(s: StoreV, poll_id: Seq<char>, option: Seq<char>) -> bool {
    match lookup_poll(s.polls, poll_id) {
        Option::Some(p) => find_option(p.options, option) is Some,
        Option::None => false,
    }
}

/// The options of a poll after a voter's vote is recast from the prior
/// recorded option (if any) to the option at index `ni`. A revote for the
/// option already recorded leaves every tally unchanged.
pub open spec fn recast_options(options: Seq<OptionV>, prior: Option<Seq<char>>, ni: int) -> Seq<
    OptionV,
> {
    match prior {
        Option::None => bump_up(options, ni),
        Option::Some(old_label) => if old_label == options[ni].label {
            options
        } else {
            match find_option(options, old_label) {
                Option::Some(oi) => bump_up(bump_down(options, oi), ni),
                Option::None => bump_up(options, ni),
            }
        },
    }
}

/// The whole store after a successful vote.
pub open spec fn cast_vote_next(s: StoreV, voter: Seq<char>, poll_id: Seq<char>, option: Seq<char>) -> StoreV
    recommends
        can_vote(s, poll_id, option),
{
    let p = lookup_poll(s.polls, poll_id)->Some_0;
    let ni = find_option(p.options, option)->Some_0;
    let prior = lookup_ballot(s.ballots, voter, poll_id);
    let np = PollV {
        creator: p.creator,
        question: p.question,
        options: recast_options(p.options, prior, ni),
    };
    StoreV {
        admin: s.admin,
        polls: store_poll(s.polls, poll_id, np),
        ballots: set_ballot(s.ballots, voter, poll_id, option),
    }
}

/// The store after creating (or silently overwriting) a poll.
pub open spec fn create_poll_next(
    s: StoreV,
    creator: Seq<char>,
    poll_id: Seq<char>,
    question: Seq<char>,
    labels: Seq<Seq<char>>,
) -> StoreV {
    StoreV {
        admin: s.admin,
        polls: store_poll(
            s.polls,
            poll_id,
            PollV { creator, question, options: zero_options(labels) },
        ),
        ballots: s.ballots,
    }
}

} // verus!
