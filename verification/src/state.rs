//! Executable records of the polling application and the in-memory image of
//! the host's ordered key-value store.

use vstd::prelude::*;

use crate::model::{
    store_wf, BallotV, OptionV, PollEntryV, PollV, StoreV,
};

verus! {

/// Singleton configuration record: the administrator principal.
pub struct Config {
    pub admin: String,
}

/// One selectable option of a poll together with its current tally.
pub struct PollOption {
    pub label: String,
    pub tally: u64,
}

/// A poll record: its creator, the question asked, and the ordered options.
pub struct Poll {
    pub creator: String,
    pub question: String,
    pub options: Vec<PollOption>,
}

/// A voter's current selection for one poll.
pub struct Ballot {
    pub option: String,
}

/// One row of the poll table: the caller-supplied key and the record.
pub struct PollRow {
    pub id: String,
    pub poll: Poll,
}

/// One row of the ballot table, keyed by `(voter, poll_id)`.
pub struct BallotRow {
    pub voter: String,
    pub poll_id: String,
    pub ballot: Ballot,
}

/// The store: the configuration singleton, the poll table kept strictly
/// ascending by key, and the ballot table with unique `(voter, poll)` keys.
pub struct PollStore {
    pub config: Option<Config>,
    pub polls: Vec<PollRow>,
    pub ballots: Vec<BallotRow>,
}

impl View for PollOption {
    type V = OptionV;

    open spec fn view(&self) -> OptionV {
        OptionV { label: self.label@, tally: self.tally }
    }
}

impl View for Poll {
    type V = PollV;

    open spec fn view(&self) -> PollV {
        PollV {
            creator: self.creator@,
            question: self.question@,
            options: opts_view(self.options@),
        }
    }
}

impl View for Ballot {
    type V = Seq<char>;

    open spec fn view(&self) -> Seq<char> {
        self.option@
    }
}

impl View for PollRow {
    type V = PollEntryV;

    open spec fn view(&self) -> PollEntryV {
        PollEntryV { id: self.id@, poll: self.poll@ }
    }
}

impl View for BallotRow {
    type V = BallotV;

    open spec fn view(&self) -> BallotV {
        BallotV { voter: self.voter@, poll_id: self.poll_id@, option: self.ballot.option@ }
    }
}

/// The images of a sequence of option rows.
pub open spec fn opts_view(options: Seq<PollOption>) -> Seq<OptionV> {
    options.map_values(|o: PollOption| o@)
}

/// The images of a sequence of poll rows.
pub open spec fn polls_view(rows: Seq<PollRow>) -> Seq<PollEntryV> {
    rows.map_values(|r: PollRow| r@)
}

/// The images of a sequence of ballot rows.
pub open spec fn ballots_view(rows: Seq<BallotRow>) -> Seq<BallotV> {
    rows.map_values(|r: BallotRow| r@)
}

impl View for PollStore {
    type V = StoreV;

    open spec fn view(&self) -> StoreV {
        StoreV {
            admin: match self.config {
                Option::Some(ref c) => Option::Some(c.admin@),
                Option::None => Option::None,
            },
            polls: polls_view(self.polls@),
            ballots: ballots_view(self.ballots@),
        }
    }
}

impl PollStore {
    /// Well-formedness: the poll table is strictly ascending by key and the
    /// ballot table has unique `(voter, poll)` keys. Every operation of the
    /// store preserves it.
    pub open spec fn wf(&self) -> bool {
        store_wf(self@)
    }

    /// An empty store: no configuration, no polls, no ballots.
    pub fn new() -> (s: PollStore)
        ensures
            s.wf(),
            s@.admin is None,
            s@.polls == Seq::<PollEntryV>::empty(),
            s@.ballots == Seq::<BallotV>::empty(),
    {
        let s = PollStore { config: Option::None, polls: Vec::new(), ballots: Vec::new() };
        proof {
            assert(s@.polls =~= Seq::<PollEntryV>::empty());
            assert(s@.ballots =~= Seq::<BallotV>::empty());
        }
        s
    }

    /// Record the administrator chosen at instantiation. A repeated call
    /// overwrites the configuration, leaving polls and ballots untouched.
    pub fn instantiate(&mut self, admin: String)
        requires
            old(self).wf(),
        ensures
            final(self).wf(),
            final(self)@ == (StoreV {
                admin: Option::Some(admin@),
                polls: old(self)@.polls,
                ballots: old(self)@.ballots,
            }),
    {
        self.config = Option::Some(Config { admin });
    }

    /// The administrator recorded at instantiation, if the store has been
    /// instantiated.
    pub fn admin(&self) -> (r: Option<&String>)
        ensures
            match r {
                Option::Some(a) => self@.admin == Option::Some(a@),
                Option::None => self@.admin is None,
            },
    {
        match &self.config {
            Option::Some(c) => Option::Some(&c.admin),
            Option::None => Option::None,
        }
    }
}

impl PollOption {
    /// An equal copy of this option row.
    pub fn cloned(&self) -> (r: PollOption)
        ensures
            r@ == self@,
    {
        PollOption { label: self.label.clone(), tally: self.tally }
    }
}

impl Poll {
    /// An equal copy of this poll record.
    pub fn cloned(&self) -> (r: Poll)
        ensures
            r@ == self@,
    {
        let mut options: Vec<PollOption> = Vec::new();
        let mut i: usize = 0;
        while i < self.options.len()
            invariant
                i <= self.options@.len(),
                options@.len() == i,
                forall|j: int| 0 <= j < i ==> options@[j]@ == self.options@[j]@,
            decreases self.options@.len() - i,
        {
            options.push(self.options[i].cloned());
            i += 1;
        }
        let r = Poll {
            creator: self.creator.clone(),
            question: self.question.clone(),
            options,
        };
        proof {
            assert(opts_view(r.options@) =~= opts_view(self.options@));
        }
        r
    }
}

impl Ballot {
    /// An equal copy of this ballot.
    pub fn cloned(&self) -> (r: Ballot)
        ensures
            r@ == self@,
    {
        Ballot { option: self.option.clone() }
    }
}

} // verus!
