use raft_visualizer::background::{DummyLogData, DummyState};
use raft_visualizer::state::{LogEntry, LogPayload, NodeState};
use raft_visualizer::storage::LogRangeOrSnapshot;

type Entry = LogEntry<DummyLogData, Vec<u64>>;
type Node = NodeState<DummyLogData, Vec<u64>>;

fn app(term: u64, msg: &str) -> Entry {
    LogEntry { term, payload: LogPayload::Application(DummyLogData { msg: msg.to_string() }) }
}

fn blank(term: u64) -> Entry {
    LogEntry { term, payload: LogPayload::Blank }
}

fn terms(node: &Node) -> Vec<u64> {
    node.log.iter().map(|e| e.term).collect()
}

fn node_with_terms(compacted: u64, applied: u64, ts: &[u64]) -> Node {
    let mut node: Node = NodeState::new(vec![0]);
    node.log = ts.iter().map(|t| blank(*t)).collect();
    node.compacted = compacted;
    node.applied = applied;
    node
}

#[test]
fn new_node_holds_the_initial_blank_entry() {
    let node: Node = NodeState::new(vec![0, 1]);
    assert_eq!(terms(&node), vec![0]);
    assert!(matches!(node.log[0].payload, LogPayload::Blank));
    assert_eq!(node.applied, 0);
    assert_eq!(node.compacted, 0);
    assert!(node.snapshots.is_empty());
    assert_eq!(node.current_snapshot, 0);
    assert_eq!(node.state.num_requests, 0);
    assert_eq!(node.state.membership, vec![0, 1]);
}

#[test]
fn log_state_reports_last_index_and_membership() {
    let node = node_with_terms(10, 11, &[1, 1, 2]);
    let st = node.get_log_state();
    assert_eq!(st.last_log_applied, 11);
    assert_eq!(st.last_log_index, 12);
    assert_eq!(st.last_membership_applied, vec![0]);
}

#[test]
fn range_before_compaction_point_is_the_snapshot() {
    let mut node = node_with_terms(4, 4, &[3, 3]);
    node.current_snapshot = 2;
    match node.get_log_range(4, 6) {
        LogRangeOrSnapshot::Snapshot { id, last_log_index, last_log_term } => {
            assert_eq!((id, last_log_index, last_log_term), (2, 4, 3));
        }
        _ => panic!("expected snapshot"),
    }
    assert!(matches!(node.get_log_range(1, 2), LogRangeOrSnapshot::Snapshot { .. }));
}

#[test]
fn range_returns_entries_after_the_previous_one() {
    let node = node_with_terms(0, 0, &[0, 1, 1, 2, 3]);
    match node.get_log_range(2, 4) {
        LogRangeOrSnapshot::LogRange { entries, prev_log_index, prev_log_term } => {
            assert_eq!(entries.iter().map(|e| e.term).collect::<Vec<_>>(), vec![1, 2]);
            assert_eq!(prev_log_index, 1);
            assert_eq!(prev_log_term, 1);
        }
        _ => panic!("expected entries"),
    }
}

#[test]
fn range_is_cut_at_the_end_of_the_log() {
    let node = node_with_terms(5, 5, &[2, 2, 3]);
    match node.get_log_range(7, 100) {
        LogRangeOrSnapshot::LogRange { entries, prev_log_index, prev_log_term } => {
            assert_eq!(entries.iter().map(|e| e.term).collect::<Vec<_>>(), vec![3]);
            assert_eq!(prev_log_index, 6);
            assert_eq!(prev_log_term, 2);
        }
        _ => panic!("expected entries"),
    }
    match node.get_log_range(8, 8) {
        LogRangeOrSnapshot::LogRange { entries, prev_log_index, prev_log_term } => {
            assert!(entries.is_empty());
            assert_eq!((prev_log_index, prev_log_term), (7, 3));
        }
        _ => panic!("expected entries"),
    }
}

#[test]
fn appended_entry_reads_back() {
    let mut node: Node = NodeState::new(vec![]);
    node.append_entry_to_log(app(1, "x"));
    assert_eq!(terms(&node), vec![0, 1]);
    match node.get_log_range(1, 2) {
        LogRangeOrSnapshot::LogRange { entries, prev_log_index, prev_log_term } => {
            assert_eq!(entries.len(), 1);
            assert_eq!(entries[0].term, 1);
            match &entries[0].payload {
                LogPayload::Application(d) => assert_eq!(d.msg, "x"),
                _ => panic!("expected application entry"),
            }
            assert_eq!((prev_log_index, prev_log_term), (0, 0));
        }
        _ => panic!("expected entries"),
    }
}

#[test]
fn replicate_replaces_what_follows_the_previous_index() {
    let mut node = node_with_terms(0, 0, &[0, 1, 1, 1]);
    node.replicate_to_log(1, vec![blank(2), blank(2)]);
    assert_eq!(terms(&node), vec![0, 1, 2, 2]);
    match node.get_log_range(2, 4) {
        LogRangeOrSnapshot::LogRange { entries, prev_log_index, prev_log_term } => {
            assert_eq!(entries.iter().map(|e| e.term).collect::<Vec<_>>(), vec![2, 2]);
            assert_eq!((prev_log_index, prev_log_term), (1, 1));
        }
        _ => panic!("expected entries"),
    }
}

#[test]
fn replicate_past_the_end_only_appends() {
    let mut node = node_with_terms(3, 3, &[1, 1]);
    node.replicate_to_log(9, vec![blank(4)]);
    assert_eq!(terms(&node), vec![1, 1, 4]);
    node.replicate_to_log(2, vec![blank(5)]);
    assert_eq!(terms(&node), vec![5]);
}

#[test]
fn applying_counts_requests_and_takes_memberships() {
    let mut node: Node = NodeState::new(vec![0]);
    assert!(!node.apply_to_state_machine(1, &app(1, "a")));
    assert_eq!(node.state.num_requests, 1);
    assert_eq!(node.applied, 1);
    let change: Entry = LogEntry { term: 1, payload: LogPayload::MembershipChange(vec![0, 1]) };
    assert!(!node.apply_to_state_machine(2, &change));
    assert_eq!(node.state.membership, vec![0, 1]);
    assert_eq!(node.state.num_requests, 1);
    assert!(!node.apply_to_state_machine(3, &blank(1)));
    assert_eq!(node.state.num_requests, 1);
    assert_eq!(node.applied, 3);
}

#[test]
fn long_log_asks_for_compaction() {
    let mut node = node_with_terms(0, 0, &[0, 1, 1, 1, 1, 1]);
    assert!(node.apply_to_state_machine(1, &blank(1)));
    let mut short = node_with_terms(0, 0, &[0, 1, 1, 1, 1]);
    assert!(!short.apply_to_state_machine(1, &blank(1)));
}

#[test]
fn compaction_keeps_the_log_end_and_stores_the_state() {
    let mut node = node_with_terms(2, 5, &[1, 1, 2, 2, 3, 3]);
    node.snapshots.push(Some(vec![9]));
    node.compact_log(vec![1, 2, 3]);
    assert_eq!(node.compacted, 5);
    assert_eq!(node.applied, 5);
    assert_eq!(terms(&node), vec![2, 3, 3]);
    assert_eq!(node.current_snapshot, 1);
    assert_eq!(node.snapshots, vec![Some(vec![9]), Some(vec![1, 2, 3])]);
    assert_eq!(node.get_log_state().last_log_index, 7);
    match node.get_log_range(3, 9) {
        LogRangeOrSnapshot::Snapshot { id, last_log_index, last_log_term } => {
            assert_eq!((id, last_log_index, last_log_term), (1, 5, 2));
        }
        _ => panic!("expected snapshot"),
    }
}

#[test]
fn compaction_without_new_applied_entries_changes_nothing() {
    let mut node = node_with_terms(4, 4, &[1, 2]);
    node.compact_log(vec![7]);
    assert_eq!(terms(&node), vec![1, 2]);
    assert!(node.snapshots.is_empty());
    assert_eq!(node.compacted, 4);
}

#[test]
fn snapshot_matching_the_log_keeps_the_tail() {
    let mut node = node_with_terms(0, 1, &[0, 1, 1, 2]);
    node.snapshots.push(Some(vec![0]));
    node.install_snapshot(0, 2, 1, DummyState { num_requests: 7, membership: vec![3] });
    assert_eq!(terms(&node), vec![1, 2]);
    assert_eq!((node.applied, node.compacted, node.current_snapshot), (2, 2, 0));
    assert_eq!(node.state.num_requests, 7);
    assert_eq!(node.state.membership, vec![3]);
}

#[test]
fn snapshot_not_matching_the_log_replaces_it() {
    let mut node = node_with_terms(0, 1, &[0, 1, 1]);
    node.snapshots.push(None);
    node.snapshots.push(Some(vec![0]));
    node.install_snapshot(1, 2, 5, DummyState { num_requests: 1, membership: vec![] });
    assert_eq!(terms(&node), vec![5]);
    assert!(matches!(node.log[0].payload, LogPayload::Blank));
    assert_eq!((node.applied, node.compacted, node.current_snapshot), (2, 2, 1));
    let mut far = node_with_terms(0, 0, &[0]);
    far.snapshots.push(Some(vec![]));
    far.install_snapshot(0, 10, 3, DummyState { num_requests: 0, membership: vec![] });
    assert_eq!(terms(&far), vec![3]);
    assert_eq!(far.compacted, 10);
}

#[test]
fn written_snapshot_reads_back() {
    let mut node: Node = NodeState::new(vec![]);
    let a = node.new_snapshot_slot();
    let b = node.new_snapshot_slot();
    assert_eq!((a, b), (0, 1));
    assert_eq!(node.snapshots, vec![None, None]);
    node.finish_snapshot(b, vec![4, 5, 6]);
    assert_eq!(node.read_snapshot(b), vec![4, 5, 6]);
    assert_eq!(node.snapshots[a], None);
}

#[test]
fn reinstalling_the_own_latest_snapshot_changes_nothing() {
    let mut node = node_with_terms(2, 5, &[1, 1, 2, 2, 3, 3]);
    node.state.num_requests = 4;
    node.compact_log(vec![7, 7]);
    let id = node.current_snapshot;
    let term = node.log[0].term;
    let before_terms = terms(&node);
    let (applied, compacted) = (node.applied, node.compacted);
    let state = DummyState { num_requests: node.state.num_requests, membership: node.state.membership.clone() };
    node.install_snapshot(id, compacted, term, state);
    assert_eq!(terms(&node), before_terms);
    assert_eq!((node.applied, node.compacted, node.current_snapshot), (applied, compacted, id));
    assert_eq!(node.state.num_requests, 4);
    assert_eq!(node.snapshots, vec![Some(vec![7, 7])]);
}
