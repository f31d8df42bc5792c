use raft_visualizer::state::MessageInfo;
use raft_visualizer::text::push_decimal;
use raft_visualizer::ui::{election_timer_restarts, node_label, node_role};
use raft_visualizer::widgets::node::NodeRole;
use std::collections::HashSet;

fn dec(n: u64) -> String {
    let mut s = String::new();
    push_decimal(&mut s, n);
    s
}

#[test]
fn decimal_of_small_and_large_numbers() {
    assert_eq!(dec(0), "0");
    assert_eq!(dec(7), "7");
    assert_eq!(dec(10), "10");
    assert_eq!(dec(12345), "12345");
    assert_eq!(dec(u64::MAX), "18446744073709551615");
}

#[test]
fn decimal_appends_to_existing_text() {
    let mut s = String::from("id=");
    push_decimal(&mut s, 42);
    assert_eq!(s, "id=42");
}

#[test]
fn message_info_of_each_kind() {
    assert_eq!(MessageInfo::VoteRequest { candidate_id: 2 }.info(), "VoteRequest(2)");
    assert_eq!(MessageInfo::VoteResponse { vote_granted: true }.info(), "VoteResponse(true)");
    assert_eq!(MessageInfo::PreVoteRequest { candidate_id: 0 }.info(), "PreVoteRequest(0)");
    assert_eq!(MessageInfo::PreVoteResponse { vote_granted: false }.info(), "PreVoteResponse(false)");
    assert_eq!(
        MessageInfo::AppendEntriesRequest { prev_log_index: 41, entries: 3 }.info(),
        "AppendEntriesRequest(41, 3)"
    );
    assert_eq!(MessageInfo::AppendEntriesResponse { success: true }.info(), "AppendEntriesResponse(true)");
    assert_eq!(MessageInfo::InstallSnapshotRequest { done: false }.info(), "InstallSnapshotRequest(false)");
    assert_eq!(MessageInfo::InstallSnapshotResponse.info(), "InstallSnapshotResponse");
    assert_eq!(MessageInfo::SetMembers { ids: 3, fault_tolerance: 1 }.info(), "SetMembers(3, 1)");
    assert_eq!(MessageInfo::SetLearners { ids: 0 }.info(), "SetLearners(0)");
}

#[test]
fn client_request_info_quotes_and_escapes_the_text() {
    assert_eq!(
        MessageInfo::ClientRequest { msg: "hi".to_string() }.info(),
        "ClientRequest(\"hi\")"
    );
    assert_eq!(
        MessageInfo::ClientRequest { msg: "a\"b\n".to_string() }.info(),
        "ClientRequest(\"a\\\"b\\n\")"
    );
    assert_eq!(MessageInfo::ClientRequest { msg: String::new() }.info(), "ClientRequest(\"\")");
}

#[test]
fn node_label_lists_log_term_commit_and_vote() {
    assert_eq!(node_label(3, 2, 1, Some(0)), "Log: 3\nTerm: 2\nCommit: 1\nVoted: 0");
    assert_eq!(node_label(0, 0, 0, None), "Log: 0\nTerm: 0\nCommit: 0\nVoted: -");
    assert_eq!(node_label(120, 9, 118, Some(4)), "Log: 120\nTerm: 9\nCommit: 118\nVoted: 4");
}

#[test]
fn node_role_prefers_leadership() {
    let learners: HashSet<u64> = [1u64].into_iter().collect();
    assert_eq!(node_role(1, Some(1), true, &learners), NodeRole::Leader);
    assert_eq!(node_role(0, Some(1), false, &learners), NodeRole::Member);
    assert_eq!(node_role(0, None, false, &learners), NodeRole::Member);
    assert_eq!(node_role(1, Some(2), true, &learners), NodeRole::Learner);
    assert_eq!(node_role(3, None, true, &learners), NodeRole::NoRole);
}

#[test]
fn election_timer_restarts_only_on_a_new_deadline() {
    assert!(!election_timer_restarts(None, None));
    assert!(!election_timer_restarts(Some(5), Some(5)));
    assert!(election_timer_restarts(Some(5), Some(6)));
    assert!(election_timer_restarts(None, Some(6)));
    assert!(election_timer_restarts(Some(5), None));
}
