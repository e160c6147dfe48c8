use cw_polls::error::PollError;
use cw_polls::msg::{ExecuteMsg, QueryAnswer, QueryMsg};
use cw_polls::resolve_admin;
use cw_polls::state::PollStore;

pub const ADDR1: &str = "addr1";
pub const ADDR2: &str = "addr2";

fn create(
    store: &mut PollStore,
    sender: &str,
    poll_id: &str,
    question: &str,
    options: &[&str],
) -> Result<(), PollError> {
    store.create_poll(
        sender.to_string(),
        poll_id.to_string(),
        question.to_string(),
        options.iter().map(|o| o.to_string()).collect(),
    )
}

fn vote(store: &mut PollStore, sender: &str, poll_id: &str, option: &str) -> Result<(), PollError> {
    store.cast_vote(sender.to_string(), poll_id.to_string(), option.to_string())
}

fn tallies(store: &PollStore, poll_id: &str) -> Vec<(String, u64)> {
    let poll = store.get_poll(poll_id.to_string()).expect("poll should exist");
    poll.options.iter().map(|o| (o.label.clone(), o.tally)).collect()
}

#[test]
fn test_instantiate() {
    let mut store = PollStore::new();
    let admin = resolve_admin(None, ADDR1.to_string());
    assert_eq!(admin, ADDR1.to_string());
    store.instantiate(admin);
    assert_eq!(store.admin(), Some(&ADDR1.to_string()));
}

#[test]
fn test_instantiate_with_admin() {}

#[test]
fn test_execute_create_poll_valid() {
    let mut store = PollStore::new();
    store.instantiate(resolve_admin(None, ADDR1.to_string()));

    let msg = ExecuteMsg::CreatePoll {
        poll_id: "some_id".to_string(),
        question: "What's your favourite Cosmos coin?".to_string(),
        options: vec![
            "Cosmos Hub".to_string(),
            "Juno".to_string(),
            "Osmosis".to_string(),
        ],
    };
    cw_polls::msg::execute(&mut store, ADDR1.to_string(), msg).unwrap();
}

#[test]
fn test_execute_vote_invalid() {
    let mut store = PollStore::new();
    store.instantiate(resolve_admin(None, ADDR1.to_string()));

    // Vote on a poll that is not created yet.
    let msg = ExecuteMsg::Vote {
        poll_id: "some_id".to_string(),
        vote: "Juno".to_string(),
    };
    let err = cw_polls::msg::execute(&mut store, ADDR1.to_string(), msg).unwrap_err();
    assert_eq!(err, PollError::PollNotFound);

    // Create the poll.
    let msg = ExecuteMsg::CreatePoll {
        poll_id: "some_id".to_string(),
        question: "What's your favourite Cosmos coin?".to_string(),
        options: vec![
            "Cosmos Hub".to_string(),
            "Juno".to_string(),
            "Osmosis".to_string(),
        ],
    };
    cw_polls::msg::execute(&mut store, ADDR1.to_string(), msg).unwrap();

    // Vote on the now existing poll, but the option "DVPN" does not exist.
    let msg = ExecuteMsg::Vote {
        poll_id: "some_id".to_string(),
        vote: "DVPN".to_string(),
    };
    let err = cw_polls::msg::execute(&mut store, ADDR1.to_string(), msg).unwrap_err();
    assert_eq!(err, PollError::InvalidOption);
}

#[test]
fn create_poll_option_limit() {
    let mut store = PollStore::new();
    let eleven: Vec<&str> = vec![
        "o1", "o2", "o3", "o4", "o5", "o6", "o7", "o8", "o9", "o10", "o11",
    ];
    let err = create(&mut store, ADDR1, "p", "q", &eleven).unwrap_err();
    assert_eq!(err, PollError::TooManyOptions);
    assert!(store.get_poll("p".to_string()).is_none());

    let ten = &eleven[..10];
    create(&mut store, ADDR1, "p", "q", ten).unwrap();
    let poll = store.get_poll("p".to_string()).unwrap();
    assert_eq!(poll.options.len(), 10);
}

#[test]
fn vote_on_missing_poll_changes_nothing() {
    let mut store = PollStore::new();
    create(&mut store, ADDR1, "p1", "q", &["A", "B"]).unwrap();
    let err = vote(&mut store, ADDR2, "nope", "A").unwrap_err();
    assert_eq!(err, PollError::PollNotFound);
    assert_eq!(tallies(&store, "p1"), vec![("A".to_string(), 0), ("B".to_string(), 0)]);
    assert!(store.get_vote(ADDR2.to_string(), "nope".to_string()).is_none());
}

#[test]
fn vote_for_absent_option_changes_nothing() {
    let mut store = PollStore::new();
    create(&mut store, ADDR1, "p1", "q", &["A", "B"]).unwrap();
    let err = vote(&mut store, ADDR2, "p1", "C").unwrap_err();
    assert_eq!(err, PollError::InvalidOption);
    assert_eq!(tallies(&store, "p1"), vec![("A".to_string(), 0), ("B".to_string(), 0)]);
    assert!(store.get_vote(ADDR2.to_string(), "p1".to_string()).is_none());
}

#[test]
fn revote_scenario() {
    let mut store = PollStore::new();
    create(&mut store, ADDR1, "p1", "q", &["A", "B"]).unwrap();

    vote(&mut store, "v1", "p1", "A").unwrap();
    assert_eq!(tallies(&store, "p1"), vec![("A".to_string(), 1), ("B".to_string(), 0)]);

    vote(&mut store, "v1", "p1", "B").unwrap();
    assert_eq!(tallies(&store, "p1"), vec![("A".to_string(), 0), ("B".to_string(), 1)]);

    // A repeated vote for the same option must not drift the tally.
    vote(&mut store, "v1", "p1", "B").unwrap();
    assert_eq!(tallies(&store, "p1"), vec![("A".to_string(), 0), ("B".to_string(), 1)]);
    let ballot = store.get_vote("v1".to_string(), "p1".to_string()).unwrap();
    assert_eq!(ballot.option, "B".to_string());
}

#[test]
fn tallies_sum_to_distinct_voters() {
    let mut store = PollStore::new();
    create(&mut store, ADDR1, "p1", "q", &["A", "B", "C"]).unwrap();
    vote(&mut store, "v1", "p1", "A").unwrap();
    vote(&mut store, "v2", "p1", "A").unwrap();
    vote(&mut store, "v3", "p1", "C").unwrap();
    vote(&mut store, "v1", "p1", "B").unwrap();
    vote(&mut store, "v2", "p1", "A").unwrap();
    let total: u64 = tallies(&store, "p1").iter().map(|t| t.1).sum();
    assert_eq!(total, 3);
}

#[test]
fn list_polls_empty_then_ascending() {
    let mut store = PollStore::new();
    assert!(store.list_polls().is_empty());

    create(&mut store, ADDR1, "zeta", "q1", &["A"]).unwrap();
    create(&mut store, ADDR1, "alpha", "q2", &["B"]).unwrap();
    let polls = store.list_polls();
    assert_eq!(polls.len(), 2);
    // Ascending key order: "alpha" sorts before "zeta".
    assert_eq!(polls[0].question, "q2".to_string());
    assert_eq!(polls[1].question, "q1".to_string());
}

#[test]
fn get_poll_present_and_absent() {
    let mut store = PollStore::new();
    create(&mut store, ADDR1, "p1", "the question", &["A"]).unwrap();
    let poll = store.get_poll("p1".to_string()).unwrap();
    assert_eq!(poll.question, "the question".to_string());
    assert_eq!(poll.creator, ADDR1.to_string());
    assert!(store.get_poll("p2".to_string()).is_none());
}

#[test]
fn get_vote_absent_is_not_a_failure() {
    let mut store = PollStore::new();
    create(&mut store, ADDR1, "p1", "q", &["A"]).unwrap();
    assert!(store.get_vote("nobody".to_string(), "p1".to_string()).is_none());
}

#[test]
fn create_poll_overwrites_same_id() {
    let mut store = PollStore::new();
    create(&mut store, ADDR1, "p1", "q1", &["A", "B"]).unwrap();
    vote(&mut store, "v1", "p1", "A").unwrap();
    create(&mut store, ADDR2, "p1", "q2", &["X"]).unwrap();
    let poll = store.get_poll("p1".to_string()).unwrap();
    assert_eq!(poll.question, "q2".to_string());
    assert_eq!(poll.creator, ADDR2.to_string());
    assert_eq!(tallies(&store, "p1"), vec![("X".to_string(), 0)]);
    assert_eq!(store.list_polls().len(), 1);
}

#[test]
fn delete_and_revoke_are_not_supported() {
    let mut store = PollStore::new();
    create(&mut store, ADDR1, "p1", "q", &["A"]).unwrap();
    let err = cw_polls::msg::execute(
        &mut store,
        ADDR1.to_string(),
        ExecuteMsg::Delete { poll_id: "p1".to_string() },
    )
    .unwrap_err();
    assert_eq!(err, PollError::NotSupported);
    let err = cw_polls::msg::execute(
        &mut store,
        ADDR1.to_string(),
        ExecuteMsg::Revoke { poll_id: "p1".to_string(), vote: "A".to_string() },
    )
    .unwrap_err();
    assert_eq!(err, PollError::NotSupported);
    assert_eq!(store.list_polls().len(), 1);
}

#[test]
fn query_dispatch() {
    let mut store = PollStore::new();
    create(&mut store, ADDR1, "p1", "q", &["A"]).unwrap();
    vote(&mut store, "v1", "p1", "A").unwrap();

    match cw_polls::msg::query(&store, QueryMsg::AllPolls {}) {
        QueryAnswer::AllPolls(a) => assert_eq!(a.polls.len(), 1),
        _ => panic!("wrong answer variant"),
    }
    match cw_polls::msg::query(&store, QueryMsg::Poll { poll_id: "p1".to_string() }) {
        QueryAnswer::Poll(a) => assert_eq!(a.poll.unwrap().question, "q".to_string()),
        _ => panic!("wrong answer variant"),
    }
    match cw_polls::msg::query(
        &store,
        QueryMsg::Vote { address: "v1".to_string(), poll_id: "p1".to_string() },
    ) {
        QueryAnswer::Vote(a) => assert_eq!(a.vote.unwrap().option, "A".to_string()),
        _ => panic!("wrong answer variant"),
    }
    match cw_polls::msg::query(
        &store,
        QueryMsg::Vote { address: "v2".to_string(), poll_id: "p1".to_string() },
    ) {
        QueryAnswer::Vote(a) => assert!(a.vote.is_none()),
        _ => panic!("wrong answer variant"),
    }
}

#[test]
fn resolve_admin_prefers_explicit() {
    assert_eq!(
        resolve_admin(Some("boss".to_string()), ADDR1.to_string()),
        "boss".to_string()
    );
    assert_eq!(resolve_admin(None, ADDR2.to_string()), ADDR2.to_string());
}

#[test]
fn voters_vote_independently_across_polls() {
    let mut store = PollStore::new();
    create(&mut store, ADDR1, "p1", "q1", &["A", "B"]).unwrap();
    create(&mut store, ADDR1, "p2", "q2", &["A", "B"]).unwrap();
    vote(&mut store, "v1", "p1", "A").unwrap();
    vote(&mut store, "v1", "p2", "B").unwrap();
    assert_eq!(tallies(&store, "p1"), vec![("A".to_string(), 1), ("B".to_string(), 0)]);
    assert_eq!(tallies(&store, "p2"), vec![("A".to_string(), 0), ("B".to_string(), 1)]);
    assert_eq!(store.get_vote("v1".to_string(), "p1".to_string()).unwrap().option, "A");
    assert_eq!(store.get_vote("v1".to_string(), "p2".to_string()).unwrap().option, "B");
}
