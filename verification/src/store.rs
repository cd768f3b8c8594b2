//! The replicated store: the log, the vote, the applied state machine and the
//! current snapshot, with the operations the consensus layer drives.

use crate::channel::ChannelId;
use crate::log::{indexes_above, indexes_below, index_range, increasing, keyed, entries_view, IndexBound, Log};
use crate::raft::{
    opt_log_id_le, Entry, EntryView, LogId, LogState, Response, StorageError, StoredMembership,
    StoredMembershipView, Vote,
};
use crate::router::{Value, ValueView};
use crate::snapshot::{decode_state_machine, encode_state_machine, lemma_snapshot_round_trip, snapshot_bytes, snapshot_state};
use crate::state_machine::{
    apply_all, lemma_last_applied, owner_of, StateMachine, StateMachineView,
};
use crate::text::{decimal_text, push_decimal};
use vstd::prelude::*;
use vstd::string::StringExecFns;

verus! {

/// What identifies a snapshot: the last entry it covers, the membership in
/// force at that entry, and a name.
#[derive(Debug, PartialEq)]
pub struct SnapshotMeta {
    pub last_log_id: Option<LogId>,
    pub last_membership: StoredMembership,
    pub snapshot_id: String,
}

/// What a snapshot's meta holds.
pub struct SnapshotMetaView {
    pub last_log_id: Option<LogId>,
    pub last_membership: StoredMembershipView,
    pub snapshot_id: Seq<char>,
}

impl View for SnapshotMeta {
    type V = SnapshotMetaView;

    open spec fn view(&self) -> SnapshotMetaView {
        SnapshotMetaView {
            last_log_id: self.last_log_id,
            last_membership: self.last_membership@,
            snapshot_id: self.snapshot_id@,
        }
    }
}

impl Clone for SnapshotMeta {
    fn clone(&self) -> (r: Self)
        ensures
            r@ == self@,
    {
        SnapshotMeta {
            last_log_id: self.last_log_id,
            last_membership: self.last_membership.clone(),
            snapshot_id: self.snapshot_id.clone(),
        }
    }
}

/// A snapshot as handed to the consensus layer: its meta and the byte form
/// of the state machine.
#[derive(Debug, PartialEq)]
pub struct Snapshot {
    pub meta: SnapshotMeta,
    pub snapshot: Vec<u8>,
}

/// The snapshot that the store keeps.
#[derive(Debug, PartialEq)]
pub struct StoreSnapshot {
    pub meta: SnapshotMeta,
    pub data: Vec<u8>,
}

/// The name of a snapshot: the last applied entry's term, node and index and
/// the snapshot's number, joined by hyphens; without an applied entry, two
/// hyphens and the number.
pub open spec fn snapshot_id_text(last: Option<LogId>, number: u64) -> Seq<char> {
    match last {
        Some(id) => decimal_text(id.leader_id.term as nat) + seq!['-'] + decimal_text(
            id.leader_id.node_id as nat,
        ) + seq!['-'] + decimal_text(id.index as nat) + seq!['-'] + decimal_text(number as nat),
        None => seq!['-', '-'] + decimal_text(number as nat),
    }
}

/// The name of the snapshot numbered `number` taken after `last`.
pub fn snapshot_id(last: Option<LogId>, number: u64) -> (s: String)
    ensures
        s@ == snapshot_id_text(last, number),
{
    proof {
        reveal_strlit("-");
        reveal_strlit("--");
        assert("-"@ =~= seq!['-']);
        assert("--"@ =~= seq!['-', '-']);
    }
    match last {
        Some(id) => {
            let mut s = String::new();
            push_decimal(&mut s, id.leader_id.term);
            s.append("-");
            push_decimal(&mut s, id.leader_id.node_id);
            s.append("-");
            push_decimal(&mut s, id.index);
            s.append("-");
            push_decimal(&mut s, number);
            proof {
                assert(s@ =~= snapshot_id_text(last, number));
            }
            s
        },
        None => {
            let mut s = String::from_str("--");
            push_decimal(&mut s, number);
            s
        },
    }
}

/// The log after entries were appended in order: each entry stands under
/// its index, in place of what stood there.
pub open spec fn appended(log: Map<u64, EntryView>, entries: Seq<EntryView>) -> Map<
    u64,
    EntryView,
>
    decreases entries.len(),
{
    if entries.len() == 0 {
        log
    } else {
        appended(log, entries.drop_last()).insert(entries.last().log_id.index, entries.last())
    }
}

/// Where the last entry with index `k` stands among `entries`.
pub open spec fn last_at(entries: Seq<EntryView>, k: u64) -> Option<int>
    decreases entries.len(),
{
    if entries.len() == 0 {
        None
    } else if entries.last().log_id.index == k {
        Some(entries.len() - 1)
    } else {
        last_at(entries.drop_last(), k)
    }
}

/// After an append, an index holds the last entry appended under it, or
/// what it held before where none was.
pub proof fn lemma_appended(log: Map<u64, EntryView>, entries: Seq<EntryView>, k: u64)
    ensures
        match last_at(entries, k) {
            Some(i) => 0 <= i < entries.len() && appended(log, entries).contains_key(k)
                && appended(log, entries)[k] == entries[i],
            None => appended(log, entries).contains_key(k) == log.contains_key(k) && (
            log.contains_key(k) ==> appended(log, entries)[k] == log[k]),
        },
    decreases entries.len(),
{
    if entries.len() > 0 {
        lemma_appended(log, entries.drop_last(), k);
        if entries.last().log_id.index != k {
            match last_at(entries.drop_last(), k) {
                Some(i) => {
                    assert(entries.drop_last()[i] == entries[i]);
                },
                None => {},
            }
        }
    }
}

/// Appending an entry at an index that is taken overwrites: what was
/// appended there before leaves no trace.
pub proof fn lemma_append_overwrites(
    log: Map<u64, EntryView>,
    first: EntryView,
    second: EntryView,
)
    requires
        first.log_id.index == second.log_id.index,
    ensures
        appended(appended(log, seq![first]), seq![second]) == appended(log, seq![second]),
{
    let index = second.log_id.index;
    assert(seq![first].drop_last() =~= Seq::<EntryView>::empty());
    assert(seq![second].drop_last() =~= Seq::<EntryView>::empty());
    assert(seq![first].last() == first);
    assert(seq![second].last() == second);
    let after_first = appended(log, seq![first]);
    assert(appended(log, Seq::<EntryView>::empty()) == log);
    assert(after_first == log.insert(index, first));
    assert(appended(after_first, Seq::<EntryView>::empty()) == after_first);
    assert(appended(after_first, seq![second]) == after_first.insert(index, second));
    assert(appended(log, seq![second]) == log.insert(index, second));
    assert(log.insert(index, first).insert(index, second) =~= log.insert(index, second));
}

/// Appending the same entries a second time changes nothing.
pub proof fn lemma_append_idempotent(log: Map<u64, EntryView>, entries: Seq<EntryView>)
    ensures
        appended(appended(log, entries), entries) == appended(log, entries),
{
    let once = appended(log, entries);
    let twice = appended(once, entries);
    assert forall|k: u64| #[trigger] twice.dom().contains(k) == once.dom().contains(k) by {
        lemma_appended(log, entries, k);
        lemma_appended(once, entries, k);
    }
    assert forall|k: u64| #[trigger] once.dom().contains(k) implies twice[k] == once[k] by {
        lemma_appended(log, entries, k);
        lemma_appended(once, entries, k);
    }
    assert(twice =~= once);
}

/// Whether a batch is the next entries in index order: its indexes go up by
/// one, and its first follows the last applied entry, if there is one.
pub open spec fn in_order(last: Option<LogId>, entries: Seq<EntryView>) -> bool {
    &&& forall|k: int|
        0 <= k < entries.len() ==> (#[trigger] entries[k]).log_id.index
            == entries[0].log_id.index + k
    &&& (last is Some && entries.len() > 0 ==> entries[0].log_id.index == last->Some_0.index + 1)
}

/// What a vector of responses holds.
pub open spec fn responses_view(responses: Seq<Response>) -> Seq<Option<ValueView>> {
    Seq::new(responses.len(), |i: int| responses[i]@)
}

/// What a store holds.
pub struct StoreView {
    pub log: Map<u64, EntryView>,
    pub state_machine: StateMachineView,
    pub voted: Option<Vote>,
    pub last_purged_log_id: Option<LogId>,
    pub snapshot_idx: u64,
    pub current_snapshot: Option<(SnapshotMetaView, Seq<u8>)>,
}

/// The replicated store of one node.
#[derive(Debug, PartialEq)]
pub struct Store {
    log: Log,
    state_machine: StateMachine,
    voted: Option<Vote>,
    last_purged_log_id: Option<LogId>,
    snapshot_idx: u64,
    current_snapshot: Option<StoreSnapshot>,
}

impl View for Store {
    type V = StoreView;

    closed spec fn view(&self) -> StoreView {
        StoreView {
            log: self.log@,
            state_machine: self.state_machine@,
            voted: self.voted,
            last_purged_log_id: self.last_purged_log_id,
            snapshot_idx: self.snapshot_idx,
            current_snapshot: match self.current_snapshot {
                Some(s) => Some((s.meta@, s.data@)),
                None => None,
            },
        }
    }
}

impl Store {
    /// The store's invariant: the log is in index order and no channel has
    /// two records.
    pub closed spec fn wf(&self) -> bool {
        self.log.wf() && self.state_machine.wf()
    }

    /// In a store no channel has two records, and every log entry is kept
    /// under its own index.
    pub proof fn lemma_wf(&self)
        requires
            self.wf(),
        ensures
            crate::state_machine::single_owner(self@.state_machine.data),
            forall|k: u64| #[trigger] self@.log.contains_key(k) ==> self@.log[k].log_id.index == k,
    {
        self.log.lemma_keys();
    }

    /// The store of a node that has seen nothing yet.
    pub fn new() -> (r: Self)
        ensures
            r.wf(),
            r@.log == Map::<u64, EntryView>::empty(),
            r@.state_machine.last_applied_log is None,
            r@.state_machine.last_membership.log_id is None,
            r@.state_machine.last_membership.membership.configs.len() == 0,
            r@.state_machine.last_membership.membership.nodes.len() == 0,
            r@.state_machine.data.len() == 0,
            r@.voted is None,
            r@.last_purged_log_id is None,
            r@.snapshot_idx == 0,
            r@.current_snapshot is None,
    {
        Store {
            log: Log::new(),
            state_machine: StateMachine::new(),
            voted: None,
            last_purged_log_id: None,
            snapshot_idx: 0,
            current_snapshot: None,
        }
    }

    /// The last entry purged, and the last entry the log holds; where the
    /// log holds none, the last purged stands for both.
    pub fn get_log_state(&self) -> (r: LogState)
        requires
            self.wf(),
        ensures
            r.last_purged_log_id == self@.last_purged_log_id,
            self@.log == Map::<u64, EntryView>::empty() ==> r.last_log_id
                == self@.last_purged_log_id,
            self@.log != Map::<u64, EntryView>::empty() ==> r.last_log_id is Some && self@.log.contains_key(
                r.last_log_id->Some_0.index,
            ) && self@.log[r.last_log_id->Some_0.index].log_id == r.last_log_id->Some_0
                && forall|k: u64|
                self@.log.contains_key(k) ==> k <= r.last_log_id->Some_0.index,
    {
        let last_purged = self.last_purged_log_id;
        let last = match self.log.last_log_id() {
            None => last_purged,
            Some(id) => Some(id),
        };
        LogState { last_purged_log_id: last_purged, last_log_id: last }
    }

    /// The log entries whose index lies from `start` to `end`, in index
    /// order.
    pub fn try_get_log_entries(&self, start: IndexBound, end: IndexBound) -> (r: Vec<Entry>)
        requires
            self.wf(),
        ensures
            increasing(entries_view(r@)),
            keyed(entries_view(r@)) == self@.log.restrict(index_range(start, end)),
    {
        self.log.range(start, end)
    }

    /// Records the vote, unless its term is lower than that of the vote on
    /// record.
    pub fn save_vote(&mut self, vote: &Vote) -> (r: Result<(), StorageError>)
        ensures
            final(self).wf() == old(self).wf(),
            match old(self)@.voted {
                Some(v) if vote.leader_id.term < v.leader_id.term => r == Err::<(), StorageError>(
                    StorageError::VoteBackward,
                ) && final(self)@ == old(self)@,
                _ => r is Ok && final(self)@ == (StoreView { voted: Some(*vote), ..old(self)@ }),
            },
    {
        match self.voted {
            Some(v) if vote.leader_id.term < v.leader_id.term => Err(StorageError::VoteBackward),
            _ => {
                self.voted = Some(*vote);
                Ok(())
            },
        }
    }

    /// The vote on record.
    pub fn read_vote(&self) -> (r: Option<Vote>)
        ensures
            r == self@.voted,
    {
        self.voted
    }

    /// Puts each entry under its index, in order: an entry at an index that
    /// is taken replaces what stood there.
    pub fn append_to_log(&mut self, entries: Vec<Entry>)
        requires
            old(self).wf(),
        ensures
            final(self).wf(),
            final(self)@ == (StoreView {
                log: appended(old(self)@.log, entries_view(entries@)),
                ..old(self)@
            }),
    {
        let ghost views = entries_view(entries@);
        // Entries are moved, not copied: turn the batch round, then take
        // them off its end.
        let mut rest = entries;
        let n = rest.len();
        let mut reversed: Vec<Entry> = Vec::new();
        while rest.len() > 0
            invariant
                rest.len() + reversed.len() == n,
                n == views.len(),
                forall|k: int| 0 <= k < rest.len() ==> (#[trigger] rest@[k])@ == views[k],
                forall|k: int|
                    0 <= k < reversed.len() ==> (#[trigger] reversed@[k])@ == views[n - 1 - k],
            decreases rest.len(),
        {
            let e = rest.pop().unwrap();
            reversed.push(e);
        }
        let mut done: usize = 0;
        proof {
            assert(views.take(0) =~= Seq::<EntryView>::empty());
        }
        while reversed.len() > 0
            invariant
                self.wf(),
                done + reversed.len() == n,
                n == views.len(),
                forall|k: int|
                    0 <= k < reversed.len() ==> (#[trigger] reversed@[k])@ == views[n - 1 - k],
                self@ == (StoreView {
                    log: appended(old(self)@.log, views.take(done as int)),
                    ..old(self)@
                }),
            decreases reversed.len(),
        {
            let e = reversed.pop().unwrap();
            proof {
                assert(e@ == views[done as int]);
                assert(views.take(done + 1).drop_last() =~= views.take(done as int));
                assert(views.take(done + 1).last() == views[done as int]);
            }
            self.log.insert(e);
            done = done + 1;
        }
        proof {
            assert(views.take(n as int) =~= views);
        }
    }

    /// Removes the log entries from the index of `log_id` onward.
    pub fn delete_conflict_logs_since(&mut self, log_id: LogId)
        requires
            old(self).wf(),
        ensures
            final(self).wf(),
            final(self)@ == (StoreView {
                log: old(self)@.log.restrict(indexes_below(log_id.index)),
                ..old(self)@
            }),
    {
        self.log.delete_since(log_id.index);
    }

    /// Removes the log entries up to the index of `log_id` and records
    /// `log_id` as the last purged. A purge may only move forward: one that
    /// would move the last purged log id backward is refused.
    pub fn purge_logs_upto(&mut self, log_id: LogId) -> (r: Result<(), StorageError>)
        requires
            old(self).wf(),
        ensures
            final(self).wf(),
            opt_log_id_le(old(self)@.last_purged_log_id, Some(log_id)) ==> r is Ok && final(self)@
                == (StoreView {
                log: old(self)@.log.restrict(indexes_above(log_id.index)),
                last_purged_log_id: Some(log_id),
                ..old(self)@
            }),
            !opt_log_id_le(old(self)@.last_purged_log_id, Some(log_id)) ==> r == Err::<
                (),
                StorageError,
            >(StorageError::PurgeBackward) && final(self)@ == old(self)@,
    {
        let forward = match self.last_purged_log_id {
            None => true,
            Some(purged) => purged.le(&log_id),
        };
        if !forward {
            return Err(StorageError::PurgeBackward);
        }
        self.last_purged_log_id = Some(log_id);
        self.log.purge_upto(log_id.index);
        Ok(())
    }

    /// The last entry applied and the membership in force.
    pub fn last_applied_state(&self) -> (r: (Option<LogId>, StoredMembership))
        ensures
            r.0 == self@.state_machine.last_applied_log,
            r.1@ == self@.state_machine.last_membership,
    {
        (self.state_machine.last_applied_log(), self.state_machine.last_membership())
    }

    /// The record of channel `key` in the applied state of this node. The
    /// read is local: it may lag what the cluster has committed.
    pub fn read(&self, key: &ChannelId) -> (r: Option<Value>)
        ensures
            match r {
                Some(v) => owner_of(self@.state_machine.data, key@) == Some(v@),
                None => owner_of(self@.state_machine.data, key@) is None,
            },
    {
        self.state_machine.owner_of(key)
    }

    /// Whether a batch is the next entries in index order.
    fn batch_in_order(&self, entries: &Vec<Entry>) -> (b: bool)
        ensures
            b == in_order(self@.state_machine.last_applied_log, entries_view(entries@)),
    {
        let ghost views = entries_view(entries@);
        if entries.len() == 0 {
            return true;
        }
        let first = entries[0].log_id.index;
        proof {
            assert(views[0] == entries@[0]@);
        }
        match self.state_machine.last_applied_log() {
            Some(last) => {
                if last.index == u64::MAX || first != last.index + 1 {
                    return false;
                }
            },
            None => {},
        }
        let mut k: usize = 1;
        while k < entries.len()
            invariant
                1 <= k <= entries.len(),
                views == entries_view(entries@),
                first == views[0].log_id.index,
                forall|j: int| 0 <= j < k ==> (#[trigger] views[j]).log_id.index == first + j,
            decreases entries.len() - k,
        {
            let previous = entries[k - 1].log_id.index;
            proof {
                assert(views[k - 1] == entries@[k - 1]@);
                assert(views[k as int] == entries@[k as int]@);
            }
            if previous == u64::MAX || entries[k].log_id.index != previous + 1 {
                proof {
                    assert(views[k as int].log_id.index != first + k);
                }
                return false;
            }
            k = k + 1;
        }
        true
    }

    /// Applies a batch of committed entries to the state machine, in order,
    /// and answers each. The batch must be the next entries in index order;
    /// one that is not is refused and nothing is applied.
    pub fn apply_to_state_machine(&mut self, entries: &Vec<Entry>) -> (r: Result<
        Vec<Response>,
        StorageError,
    >)
        requires
            old(self).wf(),
        ensures
            final(self).wf(),
            in_order(old(self)@.state_machine.last_applied_log, entries_view(entries@)) ==> r is Ok
                && r->Ok_0@.len() == entries@.len() && (entries@.len() > 0
                ==> final(self)@.state_machine.last_applied_log == Some(
                entries@.last().log_id,
            )) && responses_view(r->Ok_0@) == apply_all(
                old(self)@.state_machine,
                entries_view(entries@),
            ).1 && final(self)@ == (StoreView {
                state_machine: apply_all(old(self)@.state_machine, entries_view(entries@)).0,
                ..old(self)@
            }),
            !in_order(old(self)@.state_machine.last_applied_log, entries_view(entries@)) ==> r
                == Err::<Vec<Response>, StorageError>(StorageError::ApplyOutOfOrder)
                && final(self)@ == old(self)@,
    {
        if !self.batch_in_order(entries) {
            return Err(StorageError::ApplyOutOfOrder);
        }
        let ghost views = entries_view(entries@);
        let ghost start = self@.state_machine;
        let mut responses: Vec<Response> = Vec::new();
        let mut i: usize = 0;
        proof {
            assert(views.take(0) =~= Seq::<EntryView>::empty());
            assert(responses_view(responses@) =~= apply_all(start, views.take(0)).1);
        }
        while i < entries.len()
            invariant
                i <= entries.len(),
                self.wf(),
                views == entries_view(entries@),
                start == old(self)@.state_machine,
                self@ == (StoreView {
                    state_machine: apply_all(start, views.take(i as int)).0,
                    ..old(self)@
                }),
                responses_view(responses@) == apply_all(start, views.take(i as int)).1,
            decreases entries.len() - i,
        {
            let ghost answered = responses_view(responses@);
            let response = self.state_machine.apply(&entries[i]);
            proof {
                assert(views[i as int] == entries@[i as int]@);
                assert(views.take(i + 1).drop_last() =~= views.take(i as int));
                assert(views.take(i + 1).last() == views[i as int]);
            }
            responses.push(response);
            proof {
                assert(responses_view(responses@) =~= answered.push(response@));
            }
            i = i + 1;
        }
        proof {
            assert(views.take(entries.len() as int) =~= views);
            lemma_last_applied(start, views);
            if entries.len() > 0 {
                assert(views.last() == entries@.last()@);
            }
        }
        Ok(responses)
    }

    /// Takes a snapshot of the state machine: numbers it, names it, keeps it
    /// as the current snapshot and hands it out. The bytes handed out read
    /// back as the state machine.
    pub fn build_snapshot(&mut self) -> (r: Result<Snapshot, StorageError>)
        requires
            old(self).wf(),
        ensures
            final(self).wf(),
            old(self)@.snapshot_idx < u64::MAX ==> r is Ok && ({
                let meta = SnapshotMetaView {
                    last_log_id: old(self)@.state_machine.last_applied_log,
                    last_membership: old(self)@.state_machine.last_membership,
                    snapshot_id: snapshot_id_text(
                        old(self)@.state_machine.last_applied_log,
                        (old(self)@.snapshot_idx + 1) as u64,
                    ),
                };
                &&& r->Ok_0.meta@ == meta
                &&& r->Ok_0.snapshot@ == snapshot_bytes(old(self)@.state_machine)
                &&& snapshot_state(r->Ok_0.snapshot@) == Some(old(self)@.state_machine)
                &&& final(self)@ == (StoreView {
                    snapshot_idx: (old(self)@.snapshot_idx + 1) as u64,
                    current_snapshot: Some((meta, r->Ok_0.snapshot@)),
                    ..old(self)@
                })
            }),
            old(self)@.snapshot_idx == u64::MAX ==> r == Err::<Snapshot, StorageError>(
                StorageError::SnapshotCounterExhausted,
            ) && final(self)@ == old(self)@,
    {
        if self.snapshot_idx == u64::MAX {
            return Err(StorageError::SnapshotCounterExhausted);
        }
        let data = encode_state_machine(&self.state_machine);
        proof {
            lemma_snapshot_round_trip(self.state_machine@);
        }
        let last_applied_log = self.state_machine.last_applied_log();
        let last_membership = self.state_machine.last_membership();
        self.snapshot_idx = self.snapshot_idx + 1;
        let meta = SnapshotMeta {
            last_log_id: last_applied_log,
            last_membership,
            snapshot_id: snapshot_id(last_applied_log, self.snapshot_idx),
        };
        let handed = Snapshot { meta: meta.clone(), snapshot: data.clone() };
        self.current_snapshot = Some(StoreSnapshot { meta, data });
        Ok(handed)
    }

    /// An empty buffer to receive a snapshot into.
    pub fn begin_receiving_snapshot(&self) -> (r: Vec<u8>)
        ensures
            r@.len() == 0,
    {
        Vec::new()
    }

    /// Installs a snapshot: the state machine becomes the one that the bytes
    /// hold, and the snapshot becomes the current one. Bytes that hold no
    /// state machine are refused and nothing changes.
    pub fn install_snapshot(&mut self, meta: &SnapshotMeta, snapshot: Vec<u8>) -> (r: Result<
        (),
        StorageError,
    >)
        requires
            old(self).wf(),
        ensures
            final(self).wf(),
            match snapshot_state(snapshot@) {
                Some(state) => r is Ok && final(self)@ == (StoreView {
                    state_machine: state,
                    current_snapshot: Some((meta@, snapshot@)),
                    ..old(self)@
                }),
                None => r == Err::<(), StorageError>(StorageError::SnapshotCorrupt) && final(self)@
                    == old(self)@,
            },
    {
        match decode_state_machine(&snapshot) {
            Some(state) => {
                self.state_machine = state;
                self.current_snapshot = Some(StoreSnapshot { meta: meta.clone(), data: snapshot });
                Ok(())
            },
            None => Err(StorageError::SnapshotCorrupt),
        }
    }

    /// The current snapshot, if one was built or installed.
    pub fn get_current_snapshot(&self) -> (r: Option<Snapshot>)
        ensures
            match r {
                Some(s) => self@.current_snapshot == Some((s.meta@, s.snapshot@)),
                None => self@.current_snapshot is None,
            },
    {
        match &self.current_snapshot {
            Some(snapshot) => Some(
                Snapshot { meta: snapshot.meta.clone(), snapshot: snapshot.data.clone() },
            ),
            None => None,
        }
    }
}

} // verus!
