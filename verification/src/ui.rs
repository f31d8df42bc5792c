//! What the cluster view decides and writes about a node.

use std::collections::HashSet;
use vstd::prelude::*;
use crate::text::{decimal, push_decimal};
use crate::widgets::node::NodeRole;

verus! {

broadcast use vstd::std_specs::hash::group_hash_axioms;

/// The role that the view shows for node `node_id`: leader when the node
/// believes it leads, else member when it votes, else learner when it is
/// among the learners, else none.
pub open spec fn role_of(node_id: u64, leader_id: Option<u64>, learner_or_unknown: bool, learners: Set<u64>) -> NodeRole {
    if leader_id == Some(node_id) {
        NodeRole::Leader
    } else if learner_or_unknown {
        if learners.contains(node_id) { NodeRole::Learner } else { NodeRole::NoRole }
    } else {
        NodeRole::Member
    }
}

/// The role of node `node_id`, given the leader it knows of, whether its
/// membership configuration counts it among the learners or not at all
/// (`learner_or_unknown`), and the learners of that configuration.
pub fn node_role(node_id: u64, leader_id: Option<u64>, learner_or_unknown: bool, learners: &HashSet<u64>) -> (r: NodeRole)
    ensures
        r == role_of(node_id, leader_id, learner_or_unknown, learners@),
{
    let leads: bool = match leader_id {
        Some(l) => l == node_id,
        None => false,
    };
    if leads {
        NodeRole::Leader
    } else if learner_or_unknown {
        if learners.contains(&node_id) {
            NodeRole::Learner
        } else {
            NodeRole::NoRole
        }
    } else {
        NodeRole::Member
    }
}

/// The text inside a node's disc.
pub open spec fn label_of(last_log_index: u64, current_term: u64, committed_index: u64, voted_for: Option<u64>) -> Seq<char> {
    "Log: "@ + decimal(last_log_index as nat) + "\nTerm: "@ + decimal(current_term as nat) + "\nCommit: "@
        + decimal(committed_index as nat) + "\nVoted: "@ + match voted_for {
        Some(v) => decimal(v as nat),
        None => "-"@,
    }
}

/// The text inside a node's disc: its last log index, current term,
/// commit index and the node it voted for (`-` when none).
pub fn node_label(last_log_index: u64, current_term: u64, committed_index: u64, voted_for: Option<u64>) -> (r: String)
    ensures
        r@ == label_of(last_log_index, current_term, committed_index, voted_for),
{
    let mut s: String = String::new();
    s.append("Log: ");
    push_decimal(&mut s, last_log_index);
    s.append("\nTerm: ");
    push_decimal(&mut s, current_term);
    s.append("\nCommit: ");
    push_decimal(&mut s, committed_index);
    s.append("\nVoted: ");
    match voted_for {
        Some(v) => push_decimal(&mut s, v),
        None => s.append("-"),
    }
    s
}

/// Whether a node's election timer starts again when it reports a new
/// state: exactly when its election deadline changed. Deadlines are given
/// in nanoseconds from a fixed instant (negative before it).
pub fn election_timer_restarts(old_deadline: Option<i128>, new_deadline: Option<i128>) -> (r: bool)
    ensures
        r == (old_deadline != new_deadline),
{
    match (old_deadline, new_deadline) {
        (Some(a), Some(b)) => a != b,
        (None, None) => false,
        _ => true,
    }
}

} // verus!
