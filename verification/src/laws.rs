//! Properties that relate several operations of the library.

use vstd::prelude::*;
use crate::background::DummyState;
use crate::state::{channel_slot, entry_cloned, ChannelState, ClusterState, Delivery, InFlightMessage, LogEntry, LogPayload, NodeState};
use crate::storage::applied_state;
use crate::storage::LogRangeOrSnapshot;
use crate::text::{decimal, digit_char, str_debug};
use crate::toolbox::{panel_outcome, parse_piece, parse_pieces, PanelRequestView};
use crate::ui::{label_of, role_of};
use crate::widgets::node::NodeRole;
use crate::state::MessageInfo;
use crate::toolbox::{all_digits, digits_value, is_whitespace, node_ids_of, parse_u64, split_commas, trim, trim_end, trim_start};

verus! {

/// Reading back an appended entry: once `entry` is appended, a request for
/// the range that starts at its index answers with one copy of it.
pub proof fn law_read_after_append<P: Clone, M: Clone>(
    before: NodeState<P, M>,
    after: NodeState<P, M>,
    entry: LogEntry<P, M>,
    end: u64,
    r: LogRangeOrSnapshot<P, M>,
)
    requires
        before.log@.len() >= 1,
        after.log@ == before.log@.push(entry),
        after.compacted == before.compacted,
        after.last_index() < end,
        after.is_log_range(after.last_index() as u64, end, r),
    ensures
        match r {
            LogRangeOrSnapshot::LogRange { entries, prev_log_index, prev_log_term } => {
                &&& entries@.len() == 1
                &&& entry_cloned(entry, entries@[0])
                &&& prev_log_index == before.last_index()
                &&& prev_log_term == before.entry_at(before.last_index()).term
            },
            _ => false,
        },
{
    let start = after.last_index();
    let offset = start - after.compacted - 1;
    assert(offset == before.log@.len() - 1);
    assert(after.log@[offset + 1] == entry);
}

/// Reading back replicated entries: once `entries` replace what followed
/// the held index `prev`, a request for as many entries from `prev + 1` on
/// answers with copies of them, placed after the entry at `prev`.
pub proof fn law_read_after_replicate<P: Clone, M: Clone>(
    before: NodeState<P, M>,
    after: NodeState<P, M>,
    prev: u64,
    entries: Seq<LogEntry<P, M>>,
    r: LogRangeOrSnapshot<P, M>,
)
    requires
        before.holds_index(prev as int),
        prev + 1 + entries.len() <= u64::MAX,
        after.compacted == before.compacted,
        after.last_index() == prev + entries.len(),
        forall|i: int| #[trigger] before.holds_index(i) && i <= prev ==> after.entry_at(i) == before.entry_at(i),
        forall|k: int| 0 <= k < entries.len() ==> after.entry_at(prev + 1 + k) == #[trigger] entries[k],
        after.is_log_range((prev + 1) as u64, (prev + 1 + entries.len()) as u64, r),
    ensures
        match r {
            LogRangeOrSnapshot::LogRange { entries: got, prev_log_index, prev_log_term } => {
                &&& got@.len() == entries.len()
                &&& forall|k: int| 0 <= k < entries.len() ==> entry_cloned(entries[k], #[trigger] got@[k])
                &&& prev_log_index == prev
                &&& prev_log_term == before.entry_at(prev as int).term
            },
            _ => false,
        },
{
    assert(before.holds_index(prev as int) && prev <= prev);
    let offset = prev - after.compacted;
    match r {
        LogRangeOrSnapshot::LogRange { entries: got, prev_log_index, prev_log_term } => {
            assert(after.entry_at(prev as int) == after.log@[offset]);
            assert forall|k: int| 0 <= k < entries.len() implies entry_cloned(entries[k], #[trigger] got@[k]) by {
                assert(after.entry_at(prev + 1 + k) == after.log@[offset + 1 + k]);
            }
        },
        _ => {},
    }
}

/// Compaction answers for what it removed: after the log is compacted up
/// to the last applied entry, a request that starts at or before that
/// entry answers with the new snapshot, which ends at that entry.
pub proof fn law_compacted_range_is_new_snapshot<P: Clone, M: Clone>(
    before: NodeState<P, M>,
    after: NodeState<P, M>,
    start: u64,
    end: u64,
    r: LogRangeOrSnapshot<P, M>,
)
    requires
        before.compacted < before.applied <= before.last_index(),
        after.current_snapshot == before.snapshots@.len(),
        after.compacted == before.applied,
        after.last_index() == before.last_index(),
        forall|i: int| #[trigger] after.holds_index(i) ==> before.holds_index(i) && after.entry_at(i)
            == before.entry_at(i),
        start <= before.applied,
        after.is_log_range(start, end, r),
    ensures
        r == (LogRangeOrSnapshot::<P, M>::Snapshot {
            id: before.snapshots@.len() as usize,
            last_log_index: before.applied,
            last_log_term: before.entry_at(before.applied as int).term,
        }),
{
    assert(after.holds_index(before.applied as int));
    assert(after.entry_at(after.compacted as int) == after.log@[0]);
}

/// A finished snapshot reads back as written: once an id is reserved and
/// `data` is stored under it, the snapshot under that id is `data`, and
/// the snapshots taken before are untouched.
pub proof fn law_read_after_snapshot_write<P, M>(
    before: NodeState<P, M>,
    reserved: NodeState<P, M>,
    after: NodeState<P, M>,
    id: usize,
    data: Vec<u8>,
)
    requires
        id == before.snapshots@.len(),
        reserved.snapshots@ == before.snapshots@.push(None),
        after.snapshots@ == reserved.snapshots@.update(id as int, Some(data)),
    ensures
        after.snapshots@.len() == before.snapshots@.len() + 1,
        after.snapshots@[id as int] == Some(data),
        forall|k: int| 0 <= k < before.snapshots@.len() ==> #[trigger] after.snapshots@[k] == before.snapshots@[k],
{
}

/// A new cluster delivers over every link.
pub proof fn law_new_cluster_links_enabled<P>(c: ClusterState<P>, from: int, to: int)
    requires
        c.wf(),
        forall|k: int| 0 <= k < c.channels@.len() ==> (#[trigger] c.channels@[k]).enabled,
    ensures
        c.link_enabled(from, to),
{
    if 0 <= from < c.num_nodes && 0 <= to < c.num_nodes {
        crate::state::lemma_link_slot(c.num_nodes as int, from, to);
    }
}

/// Messages leave in the order they were sent: after a message is put on a
/// network that already carries messages, the next message to leave is
/// still the oldest one, and the new one waits behind all the others.
pub proof fn law_oldest_leaves_first<P>(
    before: ClusterState<P>,
    sent: ClusterState<P>,
    after: ClusterState<P>,
    m: InFlightMessage<P>,
    cutoff: u64,
    d: Delivery<P>,
)
    requires
        before.messages@.len() > 0,
        before.messages@[0].sent_at <= cutoff,
        sent.messages@ == before.messages@.push(m),
        after.messages@ == sent.messages@.drop_first(),
        d == Delivery::Deliver(sent.messages@[0]) || d == Delivery::Dropped(sent.messages@[0]),
    ensures
        d == Delivery::Deliver(before.messages@[0]) || d == Delivery::Dropped(before.messages@[0]),
        after.messages@ == before.messages@.drop_first().push(m),
        after.messages@.last() == m,
{
    assert(after.messages@ =~= before.messages@.drop_first().push(m));
}

proof fn lemma_digit_char(d: nat)
    requires
        d < 10,
    ensures
        digit_char(d) as u32 == '0' as u32 + d,
        crate::toolbox::is_digit(digit_char(d)),
{
}

proof fn lemma_decimal_digits(n: nat)
    ensures
        decimal(n).len() >= 1,
        all_digits(decimal(n)),
        digits_value(decimal(n)) == n,
        forall|i: int| 0 <= i < decimal(n).len() ==> !is_whitespace(#[trigger] decimal(n)[i])
            && decimal(n)[i] != ',' && decimal(n)[i] != '+',
    decreases n,
{
    lemma_digit_char(n % 10);
    if n < 10 {
        let d = decimal(n);
        assert(d == seq![digit_char(n)]);
        assert(d.drop_last() =~= Seq::<char>::empty());
        assert(d.last() == digit_char(n));
        assert(digits_value(d) == digits_value(d.drop_last()) * 10 + (d.last() as u32 - '0' as u32) as nat);
    } else {
        lemma_decimal_digits(n / 10);
        let d = decimal(n);
        assert(d == decimal(n / 10).push(digit_char(n % 10)));
        assert(d.drop_last() =~= decimal(n / 10));
        assert(d.last() == digit_char(n % 10));
        assert(digits_value(d) == digits_value(d.drop_last()) * 10 + (d.last() as u32 - '0' as u32) as nat);
        assert((n / 10) * 10 + n % 10 == n);
        assert forall|i: int| 0 <= i < d.len() implies crate::toolbox::is_digit(#[trigger] d[i]) by {
            if i < d.len() - 1 {
                assert(d[i] == decimal(n / 10)[i]);
            }
        }
        assert forall|i: int| 0 <= i < d.len() implies !is_whitespace(#[trigger] d[i]) && d[i] != ','
            && d[i] != '+' by {
            if i < d.len() - 1 {
                assert(d[i] == decimal(n / 10)[i]);
            }
        }
    }
}

proof fn lemma_split_without_commas(s: Seq<char>)
    requires
        forall|i: int| 0 <= i < s.len() ==> #[trigger] s[i] != ',',
    ensures
        split_commas(s) == seq![s],
    decreases s.len(),
{
    if s.len() == 0 {
        assert(s =~= Seq::<char>::empty());
    } else {
        let init = s.drop_last();
        assert(s[s.len() - 1] != ',');
        assert forall|i: int| 0 <= i < init.len() implies #[trigger] init[i] != ',' by {
            assert(init[i] == s[i]);
        }
        lemma_split_without_commas(init);
        assert(init.push(s.last()) =~= s);
        assert(seq![init].update(0, init.push(s.last())) =~= seq![s]);
    }
}

/// A node id as the view writes it parses back to that id alone: the
/// decimal text of `n` is read by the control panel as the set `{n}`.
pub proof fn law_written_id_parses_back(n: u64)
    ensures
        parse_u64(decimal(n as nat)) == Some(n),
        node_ids_of(decimal(n as nat)) == Some(Set::<u64>::empty().insert(n)),
{
    let d = decimal(n as nat);
    lemma_decimal_digits(n as nat);
    assert(!is_whitespace(d[0]));
    assert(trim_start(d) == d);
    assert(!is_whitespace(d.last()));
    assert(trim_end(d) == d);
    assert(trim(d) == d);
    lemma_split_without_commas(d);
    let ps = split_commas(d);
    assert(ps.drop_last() =~= Seq::<Seq<char>>::empty());
    assert(ps.last() == d);
    assert(parse_u64(d) == Some(n));
    assert(crate::toolbox::parse_piece(d) == Some(Some(n)));
    assert(crate::toolbox::parse_pieces(ps.drop_last()) == Some(Set::<u64>::empty()));
}

proof fn lemma_slot_injective(n: int, f: int, t: int, g: int, u: int)
    requires
        0 <= f < n,
        0 <= t < n,
        0 <= g < n,
        0 <= u < n,
        channel_slot(n, f, t) == channel_slot(n, g, u),
    ensures
        f == g && t == u,
{
    assert(f == g && t == u) by (nonlinear_arith)
        requires
            0 <= f < n,
            0 <= t < n,
            0 <= g < n,
            0 <= u < n,
            f * n + t == g * n + u,
    ;
}

/// A link reads back as it was set, and setting it leaves every other link
/// as it was.
pub proof fn law_link_reads_back<P>(
    before: ClusterState<P>,
    after: ClusterState<P>,
    from: int,
    to: int,
    enabled: bool,
)
    requires
        before.wf(),
        0 <= from < before.num_nodes,
        0 <= to < before.num_nodes,
        after.num_nodes == before.num_nodes,
        after.channels@ == before.channels@.update(
            channel_slot(before.num_nodes as int, from, to),
            ChannelState { enabled },
        ),
    ensures
        after.wf(),
        after.link_enabled(from, to) == enabled,
        forall|f: int, t: int| (f != from || t != to) ==> #[trigger] after.link_enabled(f, t)
            == before.link_enabled(f, t),
{
    let n = before.num_nodes as int;
    crate::state::lemma_link_slot(n, from, to);
    assert forall|f: int, t: int| (f != from || t != to) implies #[trigger] after.link_enabled(f, t)
        == before.link_enabled(f, t) by {
        if 0 <= f < n && 0 <= t < n {
            crate::state::lemma_link_slot(n, f, t);
            if channel_slot(n, f, t) == channel_slot(n, from, to) {
                lemma_slot_injective(n, f, t, from, to);
            }
        }
    }
}

/// The number of client requests among `entries`.
pub open spec fn count_requests<P, M>(entries: Seq<LogEntry<P, M>>) -> nat
    decreases entries.len(),
{
    if entries.len() == 0 {
        0
    } else {
        count_requests(entries.drop_last()) + if entries.last().payload is Application { 1nat } else { 0nat }
    }
}

/// Applying entries one after the other counts exactly the client requests
/// among them: `states[i + 1]` is `states[i]` with `entries[i]` applied.
pub proof fn law_requests_counted<P, M: Clone>(states: Seq<DummyState<M>>, entries: Seq<LogEntry<P, M>>)
    requires
        states.len() == entries.len() + 1,
        forall|i: int| 0 <= i < entries.len() ==> applied_state(states[i], #[trigger] states[i + 1], entries[i]),
    ensures
        states.last().num_requests == states[0].num_requests + count_requests(entries),
    decreases entries.len(),
{
    if entries.len() > 0 {
        let k = entries.len() - 1;
        let s2 = states.drop_last();
        let e2 = entries.drop_last();
        assert forall|i: int| 0 <= i < e2.len() implies applied_state(s2[i], #[trigger] s2[i + 1], e2[i]) by {
            assert(applied_state(states[i], states[i + 1], entries[i]));
        }
        law_requests_counted(s2, e2);
        assert(applied_state(states[k], states[k + 1], entries[k]));
        assert(s2.last() == states[k]);
    }
}

/// Reinstalling a node's own latest snapshot changes nothing: when nothing
/// was applied since the last compaction and the snapshot is the current
/// one, ending at the compaction point with the term of the log's first
/// entry, and its decoded state is the node's state machine, installing it
/// leaves the log, the state machine, the indices and the snapshots as
/// they were.
pub proof fn law_reinstalling_own_snapshot_changes_nothing<P, M>(
    before: NodeState<P, M>,
    after: NodeState<P, M>,
    snapshot_state: DummyState<M>,
)
    requires
        before.applied == before.compacted,
        before.log@.len() > 0,
        before.current_snapshot < before.snapshots@.len(),
        snapshot_state == before.state,
        ({
            let offset = before.compacted - before.compacted;
            if offset < before.log@.len() && before.log@[offset].term == before.log@[0].term {
                after.log@ == before.log@.skip(offset)
            } else {
                after.log@ == seq![LogEntry::<P, M> { term: before.log@[0].term, payload: LogPayload::Blank }]
            }
        }),
        after.state == snapshot_state,
        after.applied == before.compacted,
        after.compacted == before.compacted,
        after.current_snapshot == before.current_snapshot,
        after.snapshots@ == before.snapshots@,
    ensures
        after.log@ == before.log@,
        after.state == before.state,
        after.applied == before.applied,
        after.compacted == before.compacted,
        after.current_snapshot == before.current_snapshot,
        after.snapshots@ == before.snapshots@,
{
    assert(before.log@.skip(0) =~= before.log@);
}

/// `t` is the usual decimal numeral of `n`: decimal digits only, denoting
/// `n`, with no leading zero.
pub open spec fn is_numeral_of(t: Seq<char>, n: nat) -> bool {
    &&& t.len() > 0
    &&& all_digits(t)
    &&& digits_value(t) == n
    &&& (t[0] == '0' ==> t.len() == 1)
}

proof fn lemma_decimal_lead(n: nat)
    requires
        n >= 1,
    ensures
        decimal(n).len() >= 1,
        decimal(n)[0] != '0',
    decreases n,
{
    lemma_digit_char(n % 10);
    if n < 10 {
        assert(decimal(n) == seq![digit_char(n)]);
    } else {
        lemma_decimal_lead(n / 10);
        assert(decimal(n) == decimal(n / 10).push(digit_char(n % 10)));
        assert(decimal(n)[0] == decimal(n / 10)[0]);
    }
}

proof fn lemma_decimal_is_numeral(n: nat)
    ensures
        is_numeral_of(decimal(n), n),
{
    lemma_decimal_digits(n);
    if n >= 1 {
        lemma_decimal_lead(n);
    } else {
        lemma_digit_char(0);
        assert(decimal(0) == seq![digit_char(0)]);
    }
}

/// A node's role follows from what it knows: it is drawn as leader exactly
/// when it names itself as leader; otherwise as a member exactly when its
/// configuration counts it as a voter, as a learner exactly when it is
/// neither a voter nor the leader but among the learners, and with no role
/// in the remaining case.
pub proof fn law_role_of_node(node_id: u64, leader_id: Option<u64>, learner_or_unknown: bool, learners: Set<u64>)
    ensures
        ({
            let role = role_of(node_id, leader_id, learner_or_unknown, learners);
            let leads = leader_id == Some(node_id);
            &&& (role == NodeRole::Leader) == leads
            &&& (role == NodeRole::Member) == (!leads && !learner_or_unknown)
            &&& (role == NodeRole::Learner) == (!leads && learner_or_unknown && learners.contains(node_id))
            &&& (role == NodeRole::NoRole) == (!leads && learner_or_unknown && !learners.contains(node_id))
        }),
{
}

/// A click on a node's disc selects it, whatever its position, unless a
/// node after it was clicked too: when `k` is the last clicked node, the
/// selection becomes `k`.
pub proof fn law_last_click_selects<P>(selected: usize, clicked: Seq<bool>, k: int)
    requires
        clicked.len() <= usize::MAX,
        0 <= k < clicked.len(),
        clicked[k],
        forall|j: int| k < j < clicked.len() ==> !#[trigger] clicked[j],
    ensures
        ClusterState::<P>::selected_after(selected, clicked) == k,
    decreases clicked.len(),
{
    if k < clicked.len() - 1 {
        let init = clicked.drop_last();
        assert(!clicked[clicked.len() - 1]);
        assert forall|j: int| k < j < init.len() implies !#[trigger] init[j] by {
            assert(init[j] == clicked[j]);
        }
        assert(init[k] == clicked[k]);
        law_last_click_selects::<P>(selected, init, k);
    }
}

/// Without a click, the selection stays.
pub proof fn law_no_click_keeps_selection<P>(selected: usize, clicked: Seq<bool>)
    requires
        forall|j: int| 0 <= j < clicked.len() ==> !#[trigger] clicked[j],
    ensures
        ClusterState::<P>::selected_after(selected, clicked) == selected,
    decreases clicked.len(),
{
    if clicked.len() > 0 {
        let init = clicked.drop_last();
        assert(!clicked[clicked.len() - 1]);
        assert forall|j: int| 0 <= j < init.len() implies !#[trigger] init[j] by {
            assert(init[j] == clicked[j]);
        }
        law_no_click_keeps_selection::<P>(selected, init);
    }
}

/// `text` is `prefix`, the numeral of `n`, and a closing parenthesis.
pub open spec fn shows_number(text: Seq<char>, prefix: Seq<char>, n: nat) -> bool {
    exists|t: Seq<char>| #[trigger] is_numeral_of(t, n) && text == prefix + t + ")"@
}

/// `text` is `prefix`, the numerals of `a` and `b` separated by a comma and
/// a space, and a closing parenthesis.
pub open spec fn shows_pair(text: Seq<char>, prefix: Seq<char>, a: nat, b: nat) -> bool {
    exists|t: Seq<char>, u: Seq<char>|
        #![trigger is_numeral_of(t, a), is_numeral_of(u, b)]
        is_numeral_of(t, a) && is_numeral_of(u, b) && text == prefix + t + ", "@ + u + ")"@
}

/// `text` is `prefix`, the word `true` or `false` for `b`, and a closing
/// parenthesis.
pub open spec fn shows_flag(text: Seq<char>, prefix: Seq<char>, b: bool) -> bool {
    text == prefix + (if b { "true"@ } else { "false"@ }) + ")"@
}

/// A message's label names its kind and shows its own fields: each number
/// as its decimal numeral, each flag as `true` or `false`, the request text
/// in its quoted form.
pub proof fn law_message_label_shows_fields(m: MessageInfo)
    ensures
        match m {
            MessageInfo::VoteRequest { candidate_id } => shows_number(m.info_text(), "VoteRequest("@, candidate_id as nat),
            MessageInfo::VoteResponse { vote_granted } => shows_flag(m.info_text(), "VoteResponse("@, vote_granted),
            MessageInfo::PreVoteRequest { candidate_id } => shows_number(m.info_text(), "PreVoteRequest("@, candidate_id as nat),
            MessageInfo::PreVoteResponse { vote_granted } => shows_flag(m.info_text(), "PreVoteResponse("@, vote_granted),
            MessageInfo::AppendEntriesRequest { prev_log_index, entries } => shows_pair(
                m.info_text(),
                "AppendEntriesRequest("@,
                prev_log_index as nat,
                entries as nat,
            ),
            MessageInfo::AppendEntriesResponse { success } => shows_flag(m.info_text(), "AppendEntriesResponse("@, success),
            MessageInfo::InstallSnapshotRequest { done } => shows_flag(m.info_text(), "InstallSnapshotRequest("@, done),
            MessageInfo::InstallSnapshotResponse => m.info_text() == "InstallSnapshotResponse"@,
            MessageInfo::ClientRequest { msg } => m.info_text() == "ClientRequest("@ + str_debug(msg@) + ")"@,
            MessageInfo::SetMembers { ids, fault_tolerance } => shows_pair(
                m.info_text(),
                "SetMembers("@,
                ids as nat,
                fault_tolerance as nat,
            ),
            MessageInfo::SetLearners { ids } => shows_number(m.info_text(), "SetLearners("@, ids as nat),
        },
{
    match m {
        MessageInfo::VoteRequest { candidate_id } => {
            lemma_decimal_is_numeral(candidate_id as nat);
        },
        MessageInfo::PreVoteRequest { candidate_id } => {
            lemma_decimal_is_numeral(candidate_id as nat);
        },
        MessageInfo::AppendEntriesRequest { prev_log_index, entries } => {
            lemma_decimal_is_numeral(prev_log_index as nat);
            lemma_decimal_is_numeral(entries as nat);
        },
        MessageInfo::SetMembers { ids, fault_tolerance } => {
            lemma_decimal_is_numeral(ids as nat);
            lemma_decimal_is_numeral(fault_tolerance as nat);
        },
        MessageInfo::SetLearners { ids } => {
            lemma_decimal_is_numeral(ids as nat);
        },
        _ => {},
    }
}

/// Flags are told apart: two messages of the same kind that differ in
/// their flag get different labels.
pub proof fn law_flag_labels_differ()
    ensures
        (MessageInfo::VoteResponse { vote_granted: true }).info_text()
            != (MessageInfo::VoteResponse { vote_granted: false }).info_text(),
        (MessageInfo::PreVoteResponse { vote_granted: true }).info_text()
            != (MessageInfo::PreVoteResponse { vote_granted: false }).info_text(),
        (MessageInfo::AppendEntriesResponse { success: true }).info_text()
            != (MessageInfo::AppendEntriesResponse { success: false }).info_text(),
        (MessageInfo::InstallSnapshotRequest { done: true }).info_text()
            != (MessageInfo::InstallSnapshotRequest { done: false }).info_text(),
{
    reveal_strlit("true");
    reveal_strlit("false");
    reveal_strlit(")");
    assert(("VoteResponse("@ + "true"@ + ")"@).len() != ("VoteResponse("@ + "false"@ + ")"@).len());
    assert(("PreVoteResponse("@ + "true"@ + ")"@).len() != ("PreVoteResponse("@ + "false"@ + ")"@).len());
    assert(("AppendEntriesResponse("@ + "true"@ + ")"@).len() != ("AppendEntriesResponse("@ + "false"@ + ")"@).len());
    assert(("InstallSnapshotRequest("@ + "true"@ + ")"@).len() != ("InstallSnapshotRequest("@ + "false"@ + ")"@).len());
}

/// How the vote appears in a node's label: the voted-for node's numeral,
/// or `-` when the node voted for nobody.
pub open spec fn shows_vote(e: Seq<char>, voted_for: Option<u64>) -> bool {
    match voted_for {
        Some(v) => is_numeral_of(e, v as nat),
        None => e == "-"@,
    }
}

/// A node's label reads back: it is made of the numerals of its last log
/// index, its term and its commit index, each after its caption, and then
/// its vote.
pub proof fn law_node_label_reads_back(last_log_index: u64, current_term: u64, committed_index: u64, voted_for: Option<u64>)
    ensures
        exists|a: Seq<char>, b: Seq<char>, c: Seq<char>, e: Seq<char>|
            #![trigger is_numeral_of(a, last_log_index as nat), is_numeral_of(b, current_term as nat), is_numeral_of(c, committed_index as nat), shows_vote(e, voted_for)]
            is_numeral_of(a, last_log_index as nat) && is_numeral_of(b, current_term as nat) && is_numeral_of(
                c,
                committed_index as nat,
            ) && shows_vote(e, voted_for) && label_of(last_log_index, current_term, committed_index, voted_for)
                == "Log: "@ + a + "\nTerm: "@ + b + "\nCommit: "@ + c + "\nVoted: "@ + e,
{
    lemma_decimal_is_numeral(last_log_index as nat);
    lemma_decimal_is_numeral(current_term as nat);
    lemma_decimal_is_numeral(committed_index as nat);
    let e = match voted_for {
        Some(v) => decimal(v as nat),
        None => "-"@,
    };
    match voted_for {
        Some(v) => lemma_decimal_is_numeral(v as nat),
        None => {},
    }
    assert(shows_vote(e, voted_for));
}

/// Empty text names no node: it parses to the empty set.
pub proof fn law_empty_text_names_no_node()
    ensures
        node_ids_of(Seq::<char>::empty()) == Some(Set::<u64>::empty()),
{
    let e = Seq::<char>::empty();
    let ps = split_commas(e);
    assert(ps == seq![e]);
    assert(ps.drop_last() =~= Seq::<Seq<char>>::empty());
    assert(ps.last() == e);
    assert(trim_start(e) == e);
    assert(trim_end(e) == e);
    assert(crate::toolbox::parse_piece(e) == Some(None::<u64>));
    assert(crate::toolbox::parse_pieces(ps.drop_last()) == Some(Set::<u64>::empty()));
}

/// What the panel sends: "Set Learners" sends the typed ids exactly when
/// the text parses (an empty list included) and then clears the text;
/// "Set Members" does the same with what the text is by then, asking for a
/// fault tolerance of one; "Client Request" sends, last, the text as it is
/// at the end; nothing else is sent.
pub proof fn law_panel_sends_what_parses(args: Seq<char>, learners_clicked: bool, members_clicked: bool, request_clicked: bool)
    ensures
        ({
            let (text, reqs) = panel_outcome(args, learners_clicked, members_clicked, request_clicked);
            let sent_learners = learners_clicked && node_ids_of(args) is Some;
            let after_learners = if sent_learners { Seq::<char>::empty() } else { args };
            let sent_members = members_clicked && node_ids_of(after_learners) is Some;
            let nl: int = if sent_learners { 1 } else { 0 };
            let nm: int = if sent_members { 1 } else { 0 };
            let nc: int = if request_clicked { 1 } else { 0 };
            &&& reqs.len() == nl + nm + nc
            &&& sent_learners ==> reqs[0] == PanelRequestView::SetLearners { ids: node_ids_of(args)->Some_0 }
            &&& sent_members ==> reqs[nl] == PanelRequestView::SetMembers {
                ids: node_ids_of(after_learners)->Some_0,
                fault_tolerance: 1,
            }
            &&& request_clicked ==> reqs[nl + nm] == PanelRequestView::ClientRequest { msg: text }
            &&& text == if sent_learners || sent_members { Seq::<char>::empty() } else { args }
        }),
{
}

proof fn lemma_split_len(s: Seq<char>)
    ensures
        split_commas(s).len() >= 1,
    decreases s.len(),
{
    if s.len() > 0 {
        lemma_split_len(s.drop_last());
    }
}

proof fn lemma_split_join(a: Seq<char>, b: Seq<char>)
    ensures
        split_commas(a.push(',') + b) == split_commas(a) + split_commas(b),
    decreases b.len(),
{
    let s = a.push(',') + b;
    if b.len() == 0 {
        assert(s =~= a.push(','));
        assert(s.drop_last() =~= a);
        assert(split_commas(a).push(Seq::<char>::empty()) =~= split_commas(a) + seq![Seq::<char>::empty()]);
    } else {
        lemma_split_join(a, b.drop_last());
        lemma_split_len(b.drop_last());
        assert(s.drop_last() =~= a.push(',') + b.drop_last());
        assert(s.last() == b.last());
        let x = split_commas(a);
        let y = split_commas(b.drop_last());
        if b.last() == ',' {
            assert((x + y).push(Seq::<char>::empty()) =~= x + y.push(Seq::<char>::empty()));
        } else {
            let xy = x + y;
            assert(xy.last() == y.last());
            assert(xy.update(xy.len() - 1, xy.last().push(b.last())) =~= x + y.update(
                y.len() - 1,
                y.last().push(b.last()),
            ));
        }
    }
}

proof fn lemma_parse_pieces_join(x: Seq<Seq<char>>, y: Seq<Seq<char>>)
    ensures
        parse_pieces(x + y) == match (parse_pieces(x), parse_pieces(y)) {
            (Some(s), Some(t)) => Some(s.union(t)),
            _ => None,
        },
    decreases y.len(),
{
    if y.len() == 0 {
        assert(x + y =~= x);
        match parse_pieces(x) {
            Some(s) => {
                assert(s.union(Set::<u64>::empty()) =~= s);
            },
            None => {},
        }
    } else {
        lemma_parse_pieces_join(x, y.drop_last());
        assert((x + y).drop_last() =~= x + y.drop_last());
        assert((x + y).last() == y.last());
        match (parse_pieces(x), parse_pieces(y.drop_last()), parse_piece(y.last())) {
            (Some(s), Some(t), Some(Some(v))) => {
                assert(s.union(t).insert(v) =~= s.union(t.insert(v)));
            },
            _ => {},
        }
    }
}

/// Joining two lists with a comma joins what they name: the result names
/// the ids of both, and it is rejected exactly when either part is.
pub proof fn law_joined_lists_name_both(a: Seq<char>, b: Seq<char>)
    ensures
        node_ids_of(a.push(',') + b) == match (node_ids_of(a), node_ids_of(b)) {
            (Some(s), Some(t)) => Some(s.union(t)),
            _ => None,
        },
{
    lemma_split_join(a, b);
    lemma_parse_pieces_join(split_commas(a), split_commas(b));
}

} // verus!
