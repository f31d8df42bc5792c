//! The storage operations of a node: reading and writing its log,
//! applying entries to the state machine, compaction and snapshots.

use vstd::prelude::*;
use crate::background::DummyState;
use crate::state::{entry_cloned, LogEntry, LogPayload, NodeState};

verus! {

/// What a node reports about its log when it starts.
pub struct LogState<M> {
    pub last_log_applied: u64,
    pub last_log_index: u64,
    pub last_membership_applied: M,
}

/// The answer to a request for log entries: either the entries themselves
/// with the index and term of the entry just before them, or, when the
/// entries asked for were compacted away, the snapshot that replaces them.
pub enum LogRangeOrSnapshot<P, M> {
    Snapshot { id: usize, last_log_index: u64, last_log_term: u64 },
    LogRange { entries: Vec<LogEntry<P, M>>, prev_log_index: u64, prev_log_term: u64 },
}

/// The number of entries that a range request for `start..end` receives
/// from a log of `len` entries whose entry before `start` sits at `offset`.
pub open spec fn range_count(len: int, offset: int, start: int, end: int) -> int {
    let avail = len - offset - 1;
    if end - start <= avail { end - start } else { avail }
}

/// The state machine after applying `entry`.
pub open spec fn applied_state<P, M: Clone>(old_state: DummyState<M>, new_state: DummyState<M>, entry: LogEntry<P, M>) -> bool {
    match entry.payload {
        LogPayload::Application(_) => new_state.num_requests == old_state.num_requests + 1
            && new_state.membership == old_state.membership,
        LogPayload::MembershipChange(m) => new_state.num_requests == old_state.num_requests
            && cloned(m, new_state.membership),
        LogPayload::Blank => new_state == old_state,
    }
}

/// The first `keep` entries of `log`, or all of it when it is shorter.
pub open spec fn kept_prefix<T>(log: Seq<T>, keep: int) -> Seq<T> {
    if keep < log.len() { log.take(keep) } else { log }
}

impl<P: Clone, M: Clone> NodeState<P, M> {
    /// The index of the last entry in the log.
    pub open spec fn last_index(&self) -> int {
        self.compacted + self.log@.len() - 1
    }

    /// The entry at log index `i`, for `compacted <= i <= last_index()`.
    pub open spec fn entry_at(&self, i: int) -> LogEntry<P, M> {
        self.log@[i - self.compacted]
    }

    /// Whether the log still holds the entry at index `i`.
    pub open spec fn holds_index(&self, i: int) -> bool {
        self.compacted <= i <= self.last_index()
    }

    /// The index of the last applied entry, that of the last entry in the
    /// log, and a copy of the last applied membership.
    pub fn get_log_state(&self) -> (r: LogState<M>)
        requires
            1 <= self.compacted + self.log@.len() <= u64::MAX,
        ensures
            r.last_log_applied == self.applied,
            r.last_log_index == self.last_index(),
            cloned(self.state.membership, r.last_membership_applied),
    {
        LogState {
            last_log_applied: self.applied,
            last_log_index: self.compacted + self.log.len() as u64 - 1,
            last_membership_applied: self.state.membership.clone(),
        }
    }

    /// Whether `r` is the answer to a request for the entries from `start`
    /// up to `end`: the current snapshot when `start` is at or before the
    /// compaction point, else copies of the entries after index `start - 1`
    /// (at most `end - start` of them) with the index and term of that entry.
    pub open spec fn is_log_range(&self, start: u64, end: u64, r: LogRangeOrSnapshot<P, M>) -> bool {
        if start <= self.compacted {
            r == (LogRangeOrSnapshot::<P, M>::Snapshot {
                id: self.current_snapshot,
                last_log_index: self.compacted,
                last_log_term: self.log@[0].term,
            })
        } else {
            let offset = start - self.compacted - 1;
            match r {
                LogRangeOrSnapshot::LogRange { entries, prev_log_index, prev_log_term } => {
                    &&& prev_log_index == start - 1
                    &&& prev_log_term == self.log@[offset].term
                    &&& entries@.len() == range_count(self.log@.len() as int, offset, start as int, end as int)
                    &&& forall|k: int| 0 <= k < entries@.len() ==> entry_cloned(
                        self.log@[offset + 1 + k],
                        #[trigger] entries@[k],
                    )
                },
                _ => false,
            }
        }
    }

    /// The entries from `start` up to `end` (exclusive), as far as the log
    /// holds them, with the index and term of the entry before `start`;
    /// when `start` is at or before the compaction point, the current
    /// snapshot in their place.
    pub fn get_log_range(&self, start: u64, end: u64) -> (r: LogRangeOrSnapshot<P, M>)
        requires
            start <= self.compacted ==> self.log@.len() > 0,
            start > self.compacted ==> start - self.compacted - 1 < self.log@.len(),
            start > self.compacted ==> start <= end,
        ensures
            self.is_log_range(start, end, r),
    {
        if start <= self.compacted {
            LogRangeOrSnapshot::Snapshot {
                id: self.current_snapshot,
                last_log_index: self.compacted,
                last_log_term: self.log[0].term,
            }
        } else {
            let prev_offset: u64 = start - self.compacted - 1;
            let range_len: u64 = end - start;
            let len: usize = self.log.len();
            let first: usize = prev_offset as usize + 1;
            let stop: usize = if range_len < (len - first) as u64 {
                first + range_len as usize
            } else {
                len
            };
            let mut entries: Vec<LogEntry<P, M>> = Vec::new();
            let mut i: usize = first;
            while i < stop
                invariant
                    first <= i <= stop <= len == self.log@.len(),
                    entries@.len() == i - first,
                    forall|k: int| 0 <= k < entries@.len() ==> entry_cloned(
                        self.log@[first + k],
                        #[trigger] entries@[k],
                    ),
                decreases stop - i,
            {
                entries.push(self.log[i].clone());
                i = i + 1;
            }
            LogRangeOrSnapshot::LogRange {
                entries,
                prev_log_index: start - 1,
                prev_log_term: self.log[prev_offset as usize].term,
            }
        }
    }

    /// Appends `entry` at the end of the log.
    pub fn append_entry_to_log(&mut self, entry: LogEntry<P, M>)
        ensures
            final(self).log@ == old(self).log@.push(entry),
            final(self).last_index() == old(self).last_index() + 1,
            final(self).entry_at(final(self).last_index()) == entry,
            forall|i: int| #[trigger] old(self).holds_index(i) ==> final(self).entry_at(i) == old(self).entry_at(i),
            final(self).state == old(self).state,
            final(self).applied == old(self).applied,
            final(self).compacted == old(self).compacted,
            final(self).snapshots@ == old(self).snapshots@,
            final(self).current_snapshot == old(self).current_snapshot,
    {
        self.log.push(entry);
    }

    /// Replaces whatever follows index `prev_log_index` in the log by
    /// `entries`, which a leader sent to follow that index.
    pub fn replicate_to_log(&mut self, prev_log_index: u64, entries: Vec<LogEntry<P, M>>)
        requires
            prev_log_index < u64::MAX,
            old(self).compacted <= prev_log_index + 1,
        ensures
            final(self).log@ == kept_prefix(old(self).log@, prev_log_index + 1 - old(self).compacted) + entries@,
            forall|i: int| #[trigger] old(self).holds_index(i) && i <= prev_log_index ==> final(self).entry_at(i)
                == old(self).entry_at(i),
            old(self).holds_index(prev_log_index as int) ==> {
                &&& final(self).last_index() == prev_log_index + entries@.len()
                &&& forall|k: int| 0 <= k < entries@.len() ==> final(self).entry_at(prev_log_index + 1 + k)
                    == #[trigger] entries@[k]
            },
            final(self).state == old(self).state,
            final(self).applied == old(self).applied,
            final(self).compacted == old(self).compacted,
            final(self).snapshots@ == old(self).snapshots@,
            final(self).current_snapshot == old(self).current_snapshot,
    {
        let expected_log_len: u64 = prev_log_index + 1 - self.compacted;
        if expected_log_len < self.log.len() as u64 {
            self.log.truncate(expected_log_len as usize);
        }
        let mut entries = entries;
        self.log.append(&mut entries);
    }

    /// Applies the entry at `index`, the one after the last applied entry,
    /// to the state machine: a client request is counted, a membership
    /// change becomes the applied membership. Says whether the log has grown
    /// long enough (more than five entries) to be compacted.
    pub fn apply_to_state_machine(&mut self, index: u64, entry: &LogEntry<P, M>) -> (needs_compaction: bool)
        requires
            old(self).applied + 1 == index,
            entry.payload is Application ==> old(self).state.num_requests < u64::MAX,
        ensures
            applied_state(old(self).state, final(self).state, *entry),
            final(self).applied == index,
            needs_compaction == (old(self).log@.len() > 5),
            final(self).log@ == old(self).log@,
            final(self).compacted == old(self).compacted,
            final(self).snapshots@ == old(self).snapshots@,
            final(self).current_snapshot == old(self).current_snapshot,
    {
        match &entry.payload {
            LogPayload::Application(_) => {
                self.state.num_requests = self.state.num_requests + 1;
            },
            LogPayload::MembershipChange(m) => {
                self.state.membership = m.clone();
            },
            LogPayload::Blank => {},
        }
        self.applied = self.applied + 1;
        self.log.len() > 5
    }

    /// Compacts the log up to the last applied entry: `state_bytes`, the
    /// serialised state machine, becomes a new snapshot and the current
    /// one, the entries before the last applied one leave the log, and the
    /// compaction point moves to the last applied entry. Nothing changes
    /// when nothing was applied since the last compaction.
    pub fn compact_log(&mut self, state_bytes: Vec<u8>)
        requires
            old(self).applied != old(self).compacted ==> old(self).compacted < old(self).applied,
            old(self).applied != old(self).compacted ==> old(self).applied - old(self).compacted
                <= old(self).log@.len(),
        ensures
            old(self).applied == old(self).compacted ==> *final(self) == *old(self),
            old(self).applied != old(self).compacted ==> {
                &&& final(self).current_snapshot == old(self).snapshots@.len()
                &&& final(self).snapshots@ == old(self).snapshots@.push(Some(state_bytes))
                &&& final(self).log@ == old(self).log@.skip(old(self).applied - old(self).compacted)
                &&& final(self).compacted == old(self).applied
                &&& final(self).applied == old(self).applied
                &&& final(self).state == old(self).state
                &&& final(self).last_index() == old(self).last_index()
                &&& forall|i: int| #[trigger] final(self).holds_index(i) ==> old(self).holds_index(i)
                    && final(self).entry_at(i) == old(self).entry_at(i)
            },
    {
        if self.applied == self.compacted {
            return;
        }
        self.current_snapshot = self.snapshots.len();
        self.snapshots.push(Some(state_bytes));
        let len: usize = self.log.len();
        assert(self.applied - self.compacted <= len);
        let drop: usize = (self.applied - self.compacted) as usize;
        let ghost before = self.log@;
        let rest = self.log.split_off(drop);
        assert(rest@ =~= before.skip(drop as int));
        self.log = rest;
        self.compacted = self.applied;
    }

    /// Installs the snapshot `id`, whose last entry has index
    /// `last_log_index` and term `last_log_term`, and whose decoded state is
    /// `snapshot_state`. Where the log holds that entry with that term, the
    /// entries before it leave the log; otherwise the log is replaced by a
    /// single blank entry of that term. Either way the snapshot's last entry
    /// is then both the last applied entry and the compaction point.
    pub fn install_snapshot(
        &mut self,
        id: usize,
        last_log_index: u64,
        last_log_term: u64,
        snapshot_state: DummyState<M>,
    )
        requires
            id < old(self).snapshots@.len(),
            old(self).snapshots@[id as int] is Some,
            old(self).compacted <= last_log_index,
        ensures
            ({
                let offset = last_log_index - old(self).compacted;
                if offset < old(self).log@.len() && old(self).log@[offset].term == last_log_term {
                    final(self).log@ == old(self).log@.skip(offset)
                } else {
                    final(self).log@ == seq![LogEntry::<P, M> { term: last_log_term, payload: LogPayload::Blank }]
                }
            }),
            ({
                let offset = last_log_index - old(self).compacted;
                offset < old(self).log@.len() && old(self).log@[offset].term == last_log_term ==> {
                    &&& final(self).last_index() == old(self).last_index()
                    &&& forall|i: int| #[trigger] final(self).holds_index(i) ==> old(self).holds_index(i)
                        && final(self).entry_at(i) == old(self).entry_at(i)
                }
            }),
            final(self).entry_at(last_log_index as int).term == last_log_term,
            final(self).state == snapshot_state,
            final(self).applied == last_log_index,
            final(self).compacted == last_log_index,
            final(self).current_snapshot == id,
            final(self).snapshots@ == old(self).snapshots@,
    {
        let snapshot_offset: u64 = last_log_index - self.compacted;
        if snapshot_offset < self.log.len() as u64 && self.log[snapshot_offset as usize].term
            == last_log_term {
            let ghost before = self.log@;
            let rest = self.log.split_off(snapshot_offset as usize);
            assert(rest@ =~= before.skip(snapshot_offset as int));
            self.log = rest;
        } else {
            self.log.clear();
            self.log.push(LogEntry { term: last_log_term, payload: LogPayload::Blank });
        }
        self.state = snapshot_state;
        self.applied = last_log_index;
        self.compacted = last_log_index;
        self.current_snapshot = id;
    }

    /// Reserves the next snapshot id for a snapshot about to be written.
    pub fn new_snapshot_slot(&mut self) -> (id: usize)
        ensures
            id == old(self).snapshots@.len(),
            final(self).snapshots@ == old(self).snapshots@.push(None),
            final(self).log@ == old(self).log@,
            final(self).state == old(self).state,
            final(self).applied == old(self).applied,
            final(self).compacted == old(self).compacted,
            final(self).current_snapshot == old(self).current_snapshot,
    {
        let id = self.snapshots.len();
        self.snapshots.push(None);
        id
    }

    /// Stores the finished snapshot `data` under the reserved id `id`.
    pub fn finish_snapshot(&mut self, id: usize, data: Vec<u8>)
        requires
            id < old(self).snapshots@.len(),
        ensures
            final(self).snapshots@ == old(self).snapshots@.update(id as int, Some(data)),
            final(self).log@ == old(self).log@,
            final(self).state == old(self).state,
            final(self).applied == old(self).applied,
            final(self).compacted == old(self).compacted,
            final(self).current_snapshot == old(self).current_snapshot,
    {
        self.snapshots.set(id, Some(data));
    }

    /// A copy of the bytes of the snapshot `id`.
    pub fn read_snapshot(&self, id: usize) -> (data: Vec<u8>)
        requires
            id < self.snapshots@.len(),
            self.snapshots@[id as int] is Some,
        ensures
            data@ == self.snapshots@[id as int]->Some_0@,
    {
        let stored: &Vec<u8> = match &self.snapshots[id] {
            Some(bytes) => bytes,
            None => {
                assert(false);
                return Vec::new();
            },
        };
        let mut data: Vec<u8> = Vec::new();
        let mut i: usize = 0;
        while i < stored.len()
            invariant
                i <= stored@.len(),
                data@ == stored@.take(i as int),
            decreases stored@.len() - i,
        {
            data.push(stored[i]);
            assert(data@ =~= stored@.take(i + 1));
            i = i + 1;
        }
        assert(stored@.take(i as int) =~= stored@);
        data
    }
}

} // verus!
