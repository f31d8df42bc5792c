//! The state of the simulated cluster: each node's log and the messages
//! in flight between nodes.

use std::collections::VecDeque;
use vstd::prelude::*;
use crate::background::DummyState;
use crate::text::{bool_text, decimal, push_bool, push_debug_str, push_decimal, str_debug};

verus! {

/// What a log entry carries: nothing (an entry that a leader writes at the
/// start of its term, or that stands for a snapshot's last entry), a
/// client's request, or a new membership configuration.
pub enum LogPayload<P, M> {
    Blank,
    Application(P),
    MembershipChange(M),
}

/// One entry of a node's log.
pub struct LogEntry<P, M> {
    pub term: u64,
    pub payload: LogPayload<P, M>,
}

/// `b` is a copy of `a`: same variant, each field a clone of its counterpart.
pub open spec fn payload_cloned<P: Clone, M: Clone>(a: LogPayload<P, M>, b: LogPayload<P, M>) -> bool {
    match (a, b) {
        (LogPayload::Blank, LogPayload::Blank) => true,
        (LogPayload::Application(x), LogPayload::Application(y)) => cloned(x, y),
        (LogPayload::MembershipChange(x), LogPayload::MembershipChange(y)) => cloned(x, y),
        _ => false,
    }
}

/// `b` is a copy of the entry `a`.
pub open spec fn entry_cloned<P: Clone, M: Clone>(a: LogEntry<P, M>, b: LogEntry<P, M>) -> bool {
    a.term == b.term && payload_cloned(a.payload, b.payload)
}

impl<P: Clone, M: Clone> Clone for LogPayload<P, M> {
    fn clone(&self) -> (r: Self)
        ensures
            payload_cloned(*self, r),
    {
        match self {
            LogPayload::Blank => LogPayload::Blank,
            LogPayload::Application(p) => LogPayload::Application(p.clone()),
            LogPayload::MembershipChange(m) => LogPayload::MembershipChange(m.clone()),
        }
    }
}

impl<P: Clone, M: Clone> Clone for LogEntry<P, M> {
    fn clone(&self) -> (r: Self)
        ensures
            entry_cloned(*self, r),
    {
        LogEntry { term: self.term, payload: self.payload.clone() }
    }
}

/// One node's persistent state as the storage layer keeps it: the log from
/// the last compaction on (its first entry stands at index `compacted`),
/// the state machine, the index of the last applied entry, and the
/// snapshots taken or received so far (`None` while one is being written).
pub struct NodeState<P, M> {
    pub state: DummyState<M>,
    pub log: Vec<LogEntry<P, M>>,
    pub applied: u64,
    pub compacted: u64,
    pub snapshots: Vec<Option<Vec<u8>>>,
    pub current_snapshot: usize,
}

impl<P, M> NodeState<P, M> {
    /// A fresh node: a log holding only the blank entry of term 0 at index
    /// 0, nothing applied or compacted, no snapshot, and a state machine
    /// with no request and the given membership.
    pub fn new(membership: M) -> (r: Self)
        ensures
            r.log@ == seq![LogEntry::<P, M> { term: 0, payload: LogPayload::Blank }],
            r.applied == 0,
            r.compacted == 0,
            r.snapshots@ == Seq::<Option<Vec<u8>>>::empty(),
            r.current_snapshot == 0,
            r.state.num_requests == 0,
            r.state.membership == membership,
    {
        let mut log: Vec<LogEntry<P, M>> = Vec::new();
        log.push(LogEntry { term: 0, payload: LogPayload::Blank });
        NodeState {
            state: DummyState { num_requests: 0, membership },
            log,
            applied: 0,
            compacted: 0,
            snapshots: Vec::new(),
            current_snapshot: 0,
        }
    }
}

/// A message on its way between two nodes, or from the control panel
/// (`from` is `None`) to a node; `sent_at` is when it was sent, in
/// nanoseconds since the cluster started.
pub struct InFlightMessage<P> {
    pub sent_at: u64,
    pub from: Option<u64>,
    pub to: u64,
    pub msg: P,
}

/// The link from one node to another; a disabled link loses what it carries.
pub struct ChannelState {
    pub enabled: bool,
}

/// The simulated network and the control panel's state: messages in the
/// order they were sent, one link per ordered pair of nodes (the link from
/// `from` to `to` at position `from * num_nodes + to`), the selected node,
/// and the text typed into the panel.
pub struct ClusterState<P> {
    pub num_nodes: usize,
    pub messages: VecDeque<InFlightMessage<P>>,
    pub channels: Vec<ChannelState>,
    pub selected_index: usize,
    pub request_args: String,
}

/// What one step of message delivery does with the oldest message.
pub enum Delivery<P> {
    /// No message is due yet.
    Idle,
    /// The oldest message was due but its link is disabled: it is lost.
    Dropped(InFlightMessage<P>),
    /// The oldest message was due and reaches its destination.
    Deliver(InFlightMessage<P>),
}

/// Where the link from `from` to `to` stands among `n * n` links.
pub open spec fn channel_slot(n: int, from: int, to: int) -> int {
    from * n + to
}

/// The slot of a link between two nodes lies among the `n * n` links.
pub proof fn lemma_link_slot(n: int, from: int, to: int)
    requires
        0 <= from < n,
        0 <= to < n,
    ensures
        0 <= channel_slot(n, from, to) < n * n,
{
    assert(0 <= from * n + to < n * n) by (nonlinear_arith)
        requires
            0 <= from < n,
            0 <= to < n,
    ;
}

impl<P> ClusterState<P> {
    /// One link per ordered pair of nodes.
    pub open spec fn wf(&self) -> bool {
        self.channels@.len() == self.num_nodes * self.num_nodes
    }

    /// Whether the link from `from` to `to` carries messages; a pair that
    /// names no link counts as enabled.
    pub open spec fn link_enabled(&self, from: int, to: int) -> bool {
        if 0 <= from < self.num_nodes && 0 <= to < self.num_nodes {
            self.channels@[channel_slot(self.num_nodes as int, from, to)].enabled
        } else {
            true
        }
    }

    /// A cluster of `num_nodes` nodes with every link enabled, no message
    /// in flight, the first node selected and an empty panel.
    pub fn new(num_nodes: usize) -> (r: Self)
        requires
            num_nodes * num_nodes <= usize::MAX,
        ensures
            r.wf(),
            r.num_nodes == num_nodes,
            r.messages@.len() == 0,
            forall|k: int| 0 <= k < r.channels@.len() ==> (#[trigger] r.channels@[k]).enabled,
            r.selected_index == 0,
            r.request_args@ == Seq::<char>::empty(),
    {
        let total: usize = num_nodes * num_nodes;
        let mut channels: Vec<ChannelState> = Vec::new();
        let mut k: usize = 0;
        while k < total
            invariant
                k <= total,
                channels@.len() == k,
                forall|j: int| 0 <= j < k ==> (#[trigger] channels@[j]).enabled,
            decreases total - k,
        {
            channels.push(ChannelState { enabled: true });
            k = k + 1;
        }
        ClusterState {
            num_nodes,
            messages: VecDeque::new(),
            channels,
            selected_index: 0,
            request_args: String::new(),
        }
    }

    /// Puts `msg` from `from` to `to`, sent at `sent_at`, behind every
    /// message already in flight.
    pub fn send_message(&mut self, from: Option<u64>, to: u64, sent_at: u64, msg: P)
        ensures
            final(self).messages@ == old(self).messages@.push(
                InFlightMessage { sent_at, from, to, msg },
            ),
            final(self).num_nodes == old(self).num_nodes,
            final(self).channels@ == old(self).channels@,
            final(self).selected_index == old(self).selected_index,
            final(self).request_args@ == old(self).request_args@,
    {
        self.messages.push_back(InFlightMessage { sent_at, from, to, msg });
    }

    fn slot_of(&self, from: u64, to: u64) -> (slot: usize)
        requires
            self.wf(),
            from < self.num_nodes,
            to < self.num_nodes,
        ensures
            slot == channel_slot(self.num_nodes as int, from as int, to as int),
            slot < self.channels@.len(),
    {
        let n: usize = self.num_nodes;
        let total: usize = self.channels.len();
        proof {
            lemma_link_slot(n as int, from as int, to as int);
        }
        let f: usize = from as usize;
        let t: usize = to as usize;
        assert(f * n + t < total);
        f * n + t
    }

    /// Whether the link from `from` to `to` carries messages (a pair that
    /// names no link counts as enabled).
    pub fn is_channel_enabled(&self, from: u64, to: u64) -> (r: bool)
        requires
            self.wf(),
        ensures
            r == self.link_enabled(from as int, to as int),
    {
        let n: usize = self.num_nodes;
        if from < n as u64 && to < n as u64 {
            let slot: usize = self.slot_of(from, to);
            self.channels[slot].enabled
        } else {
            true
        }
    }

    /// Enables or disables the link from `from` to `to`.
    pub fn set_channel_enabled(&mut self, from: u64, to: u64, enabled: bool)
        requires
            old(self).wf(),
            from < old(self).num_nodes,
            to < old(self).num_nodes,
        ensures
            final(self).wf(),
            final(self).channels@ == old(self).channels@.update(
                channel_slot(old(self).num_nodes as int, from as int, to as int),
                ChannelState { enabled },
            ),
            final(self).num_nodes == old(self).num_nodes,
            final(self).messages@ == old(self).messages@,
            final(self).selected_index == old(self).selected_index,
            final(self).request_args@ == old(self).request_args@,
    {
        let slot: usize = self.slot_of(from, to);
        self.channels.set(slot, ChannelState { enabled });
    }

    /// The node selected after a frame in which the nodes reported clicks
    /// `clicked` (one flag per node, in order): the last clicked node, or
    /// the one selected before when none was clicked.
    pub open spec fn selected_after(selected: usize, clicked: Seq<bool>) -> usize
        decreases clicked.len(),
    {
        if clicked.len() == 0 {
            selected
        } else if clicked.last() {
            (clicked.len() - 1) as usize
        } else {
            Self::selected_after(selected, clicked.drop_last())
        }
    }

    /// Selects the last node whose disc was clicked in this frame; keeps
    /// the selection when no node was clicked.
    pub fn select_clicked(&mut self, clicked: &Vec<bool>)
        ensures
            final(self).selected_index == Self::selected_after(old(self).selected_index, clicked@),
            final(self).num_nodes == old(self).num_nodes,
            final(self).messages@ == old(self).messages@,
            final(self).channels@ == old(self).channels@,
            final(self).request_args@ == old(self).request_args@,
    {
        let ghost start = self.selected_index;
        let mut i: usize = 0;
        while i < clicked.len()
            invariant
                i <= clicked@.len(),
                self.selected_index == Self::selected_after(start, clicked@.take(i as int)),
                self.num_nodes == old(self).num_nodes,
                self.messages@ == old(self).messages@,
                self.channels@ == old(self).channels@,
                self.request_args@ == old(self).request_args@,
            decreases clicked@.len() - i,
        {
            assert(clicked@.take(i + 1).drop_last() =~= clicked@.take(i as int));
            if clicked[i] {
                self.selected_index = i;
            }
            i = i + 1;
        }
        assert(clicked@.take(i as int) =~= clicked@);
    }

    /// The oldest message, when it was sent at or before `cutoff`, leaves
    /// the network: it is lost when it travels between two nodes over a
    /// disabled link, and delivered otherwise.
    pub fn deliver_next(&mut self, cutoff: u64) -> (d: Delivery<P>)
        requires
            old(self).wf(),
            old(self).messages@.len() > 0 && old(self).messages@[0].sent_at <= cutoff
                ==> match old(self).messages@[0].from {
                Some(f) => f < old(self).num_nodes && old(self).messages@[0].to < old(self).num_nodes,
                None => true,
            },
        ensures
            final(self).num_nodes == old(self).num_nodes,
            final(self).channels@ == old(self).channels@,
            final(self).selected_index == old(self).selected_index,
            final(self).request_args@ == old(self).request_args@,
            old(self).messages@.len() == 0 || old(self).messages@[0].sent_at > cutoff ==> {
                &&& d is Idle
                &&& final(self).messages@ == old(self).messages@
            },
            old(self).messages@.len() > 0 && old(self).messages@[0].sent_at <= cutoff ==> {
                let m = old(self).messages@[0];
                let lost = match m.from {
                    Some(f) => !old(self).link_enabled(f as int, m.to as int),
                    None => false,
                };
                &&& final(self).messages@ == old(self).messages@.drop_first()
                &&& lost ==> d == Delivery::Dropped(m)
                &&& !lost ==> d == Delivery::Deliver(m)
            },
    {
        let due: bool = self.messages.len() > 0 && self.messages[0].sent_at <= cutoff;
        if !due {
            return Delivery::Idle;
        }
        let m = match self.messages.pop_front() {
            Some(m) => m,
            None => {
                return Delivery::Idle;
            },
        };
        let lost: bool = match m.from {
            Some(f) => !self.is_channel_enabled(f, m.to),
            None => false,
        };
        if lost {
            Delivery::Dropped(m)
        } else {
            Delivery::Deliver(m)
        }
    }
}

/// What the view writes next to a message in flight: its kind and the one
/// or two facts about it that matter most.
pub enum MessageInfo {
    VoteRequest { candidate_id: u64 },
    VoteResponse { vote_granted: bool },
    PreVoteRequest { candidate_id: u64 },
    PreVoteResponse { vote_granted: bool },
    AppendEntriesRequest { prev_log_index: u64, entries: usize },
    AppendEntriesResponse { success: bool },
    InstallSnapshotRequest { done: bool },
    InstallSnapshotResponse,
    ClientRequest { msg: String },
    SetMembers { ids: usize, fault_tolerance: u64 },
    SetLearners { ids: usize },
}

impl MessageInfo {
    /// The label of the message, such as `VoteRequest(2)` or
    /// `AppendEntriesRequest(4, 1)`.
    pub open spec fn info_text(&self) -> Seq<char> {
        match self {
            MessageInfo::VoteRequest { candidate_id } => "VoteRequest("@ + decimal(*candidate_id as nat) + ")"@,
            MessageInfo::VoteResponse { vote_granted } => "VoteResponse("@ + bool_text(*vote_granted) + ")"@,
            MessageInfo::PreVoteRequest { candidate_id } => "PreVoteRequest("@ + decimal(*candidate_id as nat) + ")"@,
            MessageInfo::PreVoteResponse { vote_granted } => "PreVoteResponse("@ + bool_text(*vote_granted) + ")"@,
            MessageInfo::AppendEntriesRequest { prev_log_index, entries } => "AppendEntriesRequest("@
                + decimal(*prev_log_index as nat) + ", "@ + decimal(*entries as nat) + ")"@,
            MessageInfo::AppendEntriesResponse { success } => "AppendEntriesResponse("@ + bool_text(*success) + ")"@,
            MessageInfo::InstallSnapshotRequest { done } => "InstallSnapshotRequest("@ + bool_text(*done) + ")"@,
            MessageInfo::InstallSnapshotResponse => "InstallSnapshotResponse"@,
            MessageInfo::ClientRequest { msg } => "ClientRequest("@ + str_debug(msg@) + ")"@,
            MessageInfo::SetMembers { ids, fault_tolerance } => "SetMembers("@ + decimal(*ids as nat) + ", "@
                + decimal(*fault_tolerance as nat) + ")"@,
            MessageInfo::SetLearners { ids } => "SetLearners("@ + decimal(*ids as nat) + ")"@,
        }
    }

    /// The label of the message, as `info_text` spells it.
    pub fn info(&self) -> (r: String)
        ensures
            r@ == self.info_text(),
    {
        let mut s: String = String::new();
        match self {
            MessageInfo::VoteRequest { candidate_id } => {
                s.append("VoteRequest(");
                push_decimal(&mut s, *candidate_id);
            },
            MessageInfo::VoteResponse { vote_granted } => {
                s.append("VoteResponse(");
                push_bool(&mut s, *vote_granted);
            },
            MessageInfo::PreVoteRequest { candidate_id } => {
                s.append("PreVoteRequest(");
                push_decimal(&mut s, *candidate_id);
            },
            MessageInfo::PreVoteResponse { vote_granted } => {
                s.append("PreVoteResponse(");
                push_bool(&mut s, *vote_granted);
            },
            MessageInfo::AppendEntriesRequest { prev_log_index, entries } => {
                s.append("AppendEntriesRequest(");
                push_decimal(&mut s, *prev_log_index);
                s.append(", ");
                push_decimal(&mut s, *entries as u64);
            },
            MessageInfo::AppendEntriesResponse { success } => {
                s.append("AppendEntriesResponse(");
                push_bool(&mut s, *success);
            },
            MessageInfo::InstallSnapshotRequest { done } => {
                s.append("InstallSnapshotRequest(");
                push_bool(&mut s, *done);
            },
            MessageInfo::InstallSnapshotResponse => {
                s.append("InstallSnapshotResponse");
                return s;
            },
            MessageInfo::ClientRequest { msg } => {
                s.append("ClientRequest(");
                push_debug_str(&mut s, msg.as_str());
            },
            MessageInfo::SetMembers { ids, fault_tolerance } => {
                s.append("SetMembers(");
                push_decimal(&mut s, *ids as u64);
                s.append(", ");
                push_decimal(&mut s, *fault_tolerance);
            },
            MessageInfo::SetLearners { ids } => {
                s.append("SetLearners(");
                push_decimal(&mut s, *ids as u64);
            },
        }
        s.append(")");
        s
    }
}

} // verus!
