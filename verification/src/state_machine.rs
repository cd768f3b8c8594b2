//! The applied state machine: the ownership records and the membership that
//! result from applying committed log entries in index order.

use crate::channel::{ChannelId, ChannelStatus};
use crate::raft::{
    Entry, EntryPayload, EntryPayloadView, EntryView, LogId, Request, RequestView, Response,
    StoredMembership, StoredMembershipView,
};
use crate::router::{RouterId, Value, ValueView};
use vstd::prelude::*;

verus! {

/// Where the record of channel `id` stands among `records`: the first
/// position that holds it, if any does.
pub open spec fn position(records: Seq<ValueView>, id: Seq<char>) -> Option<int>
    decreases records.len(),
{
    if records.len() == 0 {
        None
    } else {
        match position(records.drop_last(), id) {
            Some(i) => Some(i),
            None => if records.last().channel_id == id {
                Some(records.len() - 1)
            } else {
                None
            },
        }
    }
}

/// The record of channel `id` among `records`, if there is one.
pub open spec fn owner_of(records: Seq<ValueView>, id: Seq<char>) -> Option<ValueView> {
    match position(records, id) {
        Some(i) => Some(records[i]),
        None => None,
    }
}

/// No channel has two records.
pub open spec fn single_owner(records: Seq<ValueView>) -> bool {
    forall|i: int, j: int|
        0 <= i < records.len() && 0 <= j < records.len() && #[trigger] records[i].channel_id
            == #[trigger] records[j].channel_id ==> i == j
}

/// The later of two statuses in a channel's lifecycle.
pub open spec fn later_status(a: ChannelStatus, b: ChannelStatus) -> ChannelStatus {
    if a.rank() >= b.rank() {
        a
    } else {
        b
    }
}

/// The status that a disconnect asks for: `Closed` where it says so, else
/// `Closing`.
pub open spec fn disconnect_target(requested: ChannelStatus) -> ChannelStatus {
    if requested == ChannelStatus::Closed {
        ChannelStatus::Closed
    } else {
        ChannelStatus::Closing
    }
}

/// The record `v` with its status replaced.
pub open spec fn with_status(v: ValueView, status: ChannelStatus) -> ValueView {
    ValueView { channel_id: v.channel_id, router: v.router, channel_status: status }
}

/// The records after a connect: the record of the channel is replaced, or
/// added where the channel had none.
pub open spec fn connected(records: Seq<ValueView>, v: ValueView) -> Seq<ValueView> {
    match position(records, v.channel_id) {
        Some(i) => records.update(i, v),
        None => records.push(v),
    }
}

/// The records after a disconnect: the status of the channel's record moves
/// forward to what the disconnect asks for, and never backward. Without a
/// record of the channel nothing changes.
pub open spec fn disconnected(records: Seq<ValueView>, v: ValueView) -> Seq<ValueView> {
    match position(records, v.channel_id) {
        Some(i) => records.update(
            i,
            with_status(
                records[i],
                later_status(records[i].channel_status, disconnect_target(v.channel_status)),
            ),
        ),
        None => records,
    }
}

/// The records after a member went away: every record it owned is closed.
pub open spec fn shut_down(records: Seq<ValueView>, router_id: RouterId) -> Seq<ValueView> {
    Seq::new(
        records.len(),
        |i: int|
            if records[i].router.router == router_id {
                with_status(records[i], ChannelStatus::Closed)
            } else {
                records[i]
            },
    )
}

/// The records after a request, and the record that answers it.
pub open spec fn apply_request(records: Seq<ValueView>, request: RequestView) -> (
    Seq<ValueView>,
    Option<ValueView>,
) {
    match request {
        RequestView::Connect { value } => (connected(records, value), Some(value)),
        RequestView::DisConnect { value } => (
            disconnected(records, value),
            owner_of(disconnected(records, value), value.channel_id),
        ),
        RequestView::GetClientNodeId { channel_id } => (records, owner_of(records, channel_id)),
        RequestView::BrokerShutdown { router_id } => (shut_down(records, router_id), None),
    }
}

/// What a state machine holds.
pub struct StateMachineView {
    pub last_applied_log: Option<LogId>,
    pub last_membership: StoredMembershipView,
    pub data: Seq<ValueView>,
}

/// The state machine after one entry, and the answer to the entry.
pub open spec fn apply_entry(sm: StateMachineView, entry: EntryView) -> (
    StateMachineView,
    Option<ValueView>,
) {
    match entry.payload {
        EntryPayloadView::Blank => (
            StateMachineView {
                last_applied_log: Some(entry.log_id),
                last_membership: sm.last_membership,
                data: sm.data,
            },
            None,
        ),
        EntryPayloadView::Normal(request) => (
            StateMachineView {
                last_applied_log: Some(entry.log_id),
                last_membership: sm.last_membership,
                data: apply_request(sm.data, request).0,
            },
            apply_request(sm.data, request).1,
        ),
        EntryPayloadView::Membership(membership) => (
            StateMachineView {
                last_applied_log: Some(entry.log_id),
                last_membership: StoredMembershipView { log_id: Some(entry.log_id), membership },
                data: sm.data,
            },
            None,
        ),
    }
}

/// The state machine after a batch of entries applied in order, and the
/// answers, one per entry.
pub open spec fn apply_all(sm: StateMachineView, entries: Seq<EntryView>) -> (
    StateMachineView,
    Seq<Option<ValueView>>,
)
    decreases entries.len(),
{
    if entries.len() == 0 {
        (sm, Seq::empty())
    } else {
        let before = apply_all(sm, entries.drop_last());
        let step = apply_entry(before.0, entries.last());
        (step.0, before.1.push(step.1))
    }
}

/// A position found in a prefix is the position in the whole.
pub proof fn lemma_position_prefix(records: Seq<ValueView>, id: Seq<char>, k: int)
    requires
        0 <= k <= records.len(),
        position(records.take(k), id) is Some,
    ensures
        position(records, id) == position(records.take(k), id),
    decreases records.len(),
{
    if k == records.len() {
        assert(records.take(k) =~= records);
    } else {
        assert(records.drop_last().take(k) =~= records.take(k));
        lemma_position_prefix(records.drop_last(), id, k);
    }
}

/// What a position says: the record there is the channel's and no earlier
/// one is; and no position says that no record is the channel's.
pub proof fn lemma_position_meaning(records: Seq<ValueView>, id: Seq<char>)
    ensures
        match position(records, id) {
            Some(i) => 0 <= i < records.len() && records[i].channel_id == id && forall|j: int|
                0 <= j < i ==> (#[trigger] records[j]).channel_id != id,
            None => forall|j: int|
                0 <= j < records.len() ==> (#[trigger] records[j]).channel_id != id,
        },
    decreases records.len(),
{
    if records.len() > 0 {
        lemma_position_meaning(records.drop_last(), id);
        match position(records.drop_last(), id) {
            Some(i) => {
                assert forall|j: int| 0 <= j < i implies (#[trigger] records[j]).channel_id
                    != id by {
                    assert(records.drop_last()[j] == records[j]);
                }
                assert(records.drop_last()[i] == records[i]);
            },
            None => {
                assert forall|j: int| 0 <= j < records.len() - 1 implies (
                #[trigger] records[j]).channel_id != id by {
                    assert(records.drop_last()[j] == records[j]);
                }
            },
        }
    }
}

/// A request leaves every channel with at most one record.
pub proof fn lemma_request_keeps_single_owner(records: Seq<ValueView>, request: RequestView)
    requires
        single_owner(records),
    ensures
        single_owner(apply_request(records, request).0),
{
    let after = apply_request(records, request).0;
    match request {
        RequestView::Connect { value } => {
            lemma_position_meaning(records, value.channel_id);
            assert forall|i: int, j: int|
                0 <= i < after.len() && 0 <= j < after.len() && #[trigger] after[i].channel_id
                    == #[trigger] after[j].channel_id implies i == j by {
                match position(records, value.channel_id) {
                    Some(p) => {
                        assert(records[p].channel_id == value.channel_id);
                        assert(after[i].channel_id == records[i].channel_id);
                        assert(after[j].channel_id == records[j].channel_id);
                    },
                    None => {
                        if i < records.len() {
                            assert(after[i] == records[i]);
                        }
                        if j < records.len() {
                            assert(after[j] == records[j]);
                        }
                    },
                }
            }
        },
        RequestView::DisConnect { value } => {
            lemma_position_meaning(records, value.channel_id);
            assert forall|i: int, j: int|
                0 <= i < after.len() && 0 <= j < after.len() && #[trigger] after[i].channel_id
                    == #[trigger] after[j].channel_id implies i == j by {
                assert(after[i].channel_id == records[i].channel_id);
                assert(after[j].channel_id == records[j].channel_id);
            }
        },
        RequestView::GetClientNodeId { channel_id } => {},
        RequestView::BrokerShutdown { router_id } => {
            assert forall|i: int, j: int|
                0 <= i < after.len() && 0 <= j < after.len() && #[trigger] after[i].channel_id
                    == #[trigger] after[j].channel_id implies i == j by {
                assert(after[i].channel_id == records[i].channel_id);
                assert(after[j].channel_id == records[j].channel_id);
            }
        },
    }
}

/// However many entries are applied, and whatever they ask, no channel ends
/// up with two records: a channel has at most one owner.
pub proof fn lemma_apply_keeps_single_owner(sm: StateMachineView, entries: Seq<EntryView>)
    requires
        single_owner(sm.data),
    ensures
        single_owner(apply_all(sm, entries).0.data),
        apply_all(sm, entries).1.len() == entries.len(),
    decreases entries.len(),
{
    if entries.len() > 0 {
        lemma_apply_keeps_single_owner(sm, entries.drop_last());
        let before = apply_all(sm, entries.drop_last()).0;
        match entries.last().payload {
            EntryPayloadView::Normal(request) => {
                lemma_request_keeps_single_owner(before.data, request);
            },
            _ => {},
        }
    }
}

/// No double ownership: after any entries, applied in order, two records
/// that are not closed are never of one channel.
pub proof fn lemma_no_double_ownership(sm: StateMachineView, entries: Seq<EntryView>)
    requires
        single_owner(sm.data),
    ensures
        ({
            let records = apply_all(sm, entries).0.data;
            forall|i: int, j: int|
                0 <= i < records.len() && 0 <= j < records.len() && #[trigger] records[i].channel_id
                    == #[trigger] records[j].channel_id && records[i].channel_status
                    != ChannelStatus::Closed && records[j].channel_status != ChannelStatus::Closed
                    ==> i == j
        }),
{
    lemma_apply_keeps_single_owner(sm, entries);
}

/// Where the first record of a channel stands is its position.
pub proof fn lemma_position_is_first(records: Seq<ValueView>, id: Seq<char>, i: int)
    requires
        0 <= i < records.len(),
        records[i].channel_id == id,
        forall|j: int| 0 <= j < i ==> (#[trigger] records[j]).channel_id != id,
    ensures
        position(records, id) == Some(i),
{
    lemma_position_meaning(records, id);
}

/// A connect puts its record on record for the channel, in place of the
/// record that the channel had, and leaves every other channel's record as
/// it was.
pub proof fn lemma_connect_replaces(records: Seq<ValueView>, v: ValueView)
    ensures
        owner_of(connected(records, v), v.channel_id) == Some(v),
        forall|id: Seq<char>|
            id != v.channel_id ==> #[trigger] owner_of(connected(records, v), id) == owner_of(
                records,
                id,
            ),
{
    let after = connected(records, v);
    lemma_position_meaning(records, v.channel_id);
    match position(records, v.channel_id) {
        Some(i) => {
            assert forall|j: int| 0 <= j < after.len() implies (#[trigger] after[j]).channel_id
                == records[j].channel_id by {}
            assert(after[i] == v);
            lemma_position_is_first(after, v.channel_id, i);
            assert forall|id: Seq<char>| id != v.channel_id implies #[trigger] owner_of(
                after,
                id,
            ) == owner_of(records, id) by {
                lemma_position_meaning(records, id);
                match position(records, id) {
                    Some(k) => {
                        assert(after[k].channel_id == records[k].channel_id);
                        assert forall|j: int| 0 <= j < k implies (#[trigger] after[j]).channel_id
                            != id by {
                            assert(after[j].channel_id == records[j].channel_id);
                        }
                        lemma_position_is_first(after, id, k);
                        assert(k != i);
                        assert(after[k] == records[k]);
                    },
                    None => {
                        lemma_position_meaning(after, id);
                        if position(after, id) is Some {
                            let k = position(after, id)->Some_0;
                            assert(after[k].channel_id == records[k].channel_id);
                        }
                    },
                }
            }
        },
        None => {
            assert(after.drop_last() =~= records);
            assert(after.last() == v);
            assert forall|id: Seq<char>| id != v.channel_id implies #[trigger] owner_of(
                after,
                id,
            ) == owner_of(records, id) by {
                lemma_position_meaning(records, id);
                match position(records, id) {
                    Some(k) => {
                        assert(after[k] == records[k]);
                    },
                    None => {},
                }
            }
        },
    }
}

/// Of two connects of one channel the later stands: the channel's record is
/// the second one, and every other channel's record is as it was before
/// both.
pub proof fn lemma_later_connect_wins(records: Seq<ValueView>, first: ValueView, second: ValueView)
    requires
        first.channel_id == second.channel_id,
    ensures
        owner_of(connected(connected(records, first), second), second.channel_id) == Some(second),
        forall|id: Seq<char>|
            id != second.channel_id ==> #[trigger] owner_of(
                connected(connected(records, first), second),
                id,
            ) == owner_of(records, id),
        single_owner(records) ==> single_owner(connected(connected(records, first), second)),
{
    let once = connected(records, first);
    let twice = connected(once, second);
    lemma_connect_replaces(records, first);
    lemma_connect_replaces(once, second);
    assert forall|id: Seq<char>| id != second.channel_id implies #[trigger] owner_of(twice, id)
        == owner_of(records, id) by {
        assert(owner_of(twice, id) == owner_of(once, id));
        assert(owner_of(once, id) == owner_of(records, id));
    }
    if single_owner(records) {
        lemma_request_keeps_single_owner(records, RequestView::Connect { value: first });
        lemma_request_keeps_single_owner(once, RequestView::Connect { value: second });
    }
}

/// After a batch the last entry applied is the last of the batch; after an
/// empty batch it is what it was.
pub proof fn lemma_last_applied(sm: StateMachineView, entries: Seq<EntryView>)
    ensures
        apply_all(sm, entries).0.last_applied_log == if entries.len() > 0 {
            Some(entries.last().log_id)
        } else {
            sm.last_applied_log
        },
        apply_all(sm, entries).1.len() == entries.len(),
    decreases entries.len(),
{
    if entries.len() > 0 {
        lemma_last_applied(sm, entries.drop_last());
    }
}

/// A disconnect never moves a channel's status backward, and leaves every
/// other record as it was.
pub proof fn lemma_disconnect_moves_forward(records: Seq<ValueView>, v: ValueView, i: int)
    requires
        0 <= i < records.len(),
    ensures
        disconnected(records, v).len() == records.len(),
        disconnected(records, v)[i].channel_id == records[i].channel_id,
        disconnected(records, v)[i].router == records[i].router,
        disconnected(records, v)[i].channel_status.rank() >= records[i].channel_status.rank(),
        records[i].channel_id != v.channel_id ==> disconnected(records, v)[i] == records[i],
{
    lemma_position_meaning(records, v.channel_id);
}

/// A disconnect applied twice changes nothing the second time.
pub proof fn lemma_disconnect_idempotent(records: Seq<ValueView>, v: ValueView)
    ensures
        disconnected(disconnected(records, v), v) == disconnected(records, v),
{
    let once = disconnected(records, v);
    lemma_position_meaning(records, v.channel_id);
    lemma_position_meaning(once, v.channel_id);
    match position(records, v.channel_id) {
        Some(i) => {
            assert(once[i].channel_id == v.channel_id);
            assert forall|j: int| 0 <= j < i implies (#[trigger] once[j]).channel_id
                != v.channel_id by {
                assert(once[j] == records[j]);
            }
            assert(position(once, v.channel_id) == Some(i));
            assert(disconnected(once, v) =~= once);
        },
        None => {},
    }
}

/// What a vector of records holds.
pub open spec fn records_view(records: Seq<Value>) -> Seq<ValueView> {
    Seq::new(records.len(), |i: int| records[i]@)
}

/// The later of two statuses in a channel's lifecycle.
fn later_of(a: ChannelStatus, b: ChannelStatus) -> (r: ChannelStatus)
    ensures
        r == later_status(a, b),
{
    if a.level() >= b.level() {
        a
    } else {
        b
    }
}

/// The applied state: the last entry applied, the membership in force, and
/// one ownership record per channel.
#[derive(Debug, PartialEq)]
pub struct StateMachine {
    last_applied_log: Option<LogId>,
    last_membership: StoredMembership,
    data: Vec<Value>,
}

impl View for StateMachine {
    type V = StateMachineView;

    closed spec fn view(&self) -> StateMachineView {
        StateMachineView {
            last_applied_log: self.last_applied_log,
            last_membership: self.last_membership@,
            data: records_view(self.data@),
        }
    }
}

impl Clone for StateMachine {
    fn clone(&self) -> (r: Self)
        ensures
            r@ == self@,
    {
        let mut data: Vec<Value> = Vec::new();
        let mut i: usize = 0;
        while i < self.data.len()
            invariant
                i <= self.data.len(),
                data.len() == i,
                forall|k: int| 0 <= k < i ==> (#[trigger] data@[k]) == self.data@[k],
            decreases self.data.len() - i,
        {
            data.push(self.data[i].clone());
            i = i + 1;
        }
        proof {
            assert(records_view(data@) =~= records_view(self.data@));
        }
        StateMachine {
            last_applied_log: self.last_applied_log,
            last_membership: self.last_membership.clone(),
            data,
        }
    }
}

impl StateMachine {
    /// The state machine's invariant: no channel has two records.
    pub open spec fn wf(&self) -> bool {
        single_owner(self@.data)
    }

    /// The state before any entry was applied: no record, no membership.
    pub fn new() -> (r: Self)
        ensures
            r.wf(),
            r@.last_applied_log is None,
            r@.last_membership.log_id is None,
            r@.last_membership.membership.configs.len() == 0,
            r@.last_membership.membership.nodes.len() == 0,
            r@.data.len() == 0,
    {
        StateMachine {
            last_applied_log: None,
            last_membership: StoredMembership::default(),
            data: Vec::new(),
        }
    }

    /// The state that holds the given parts, unless two of the records are
    /// of one channel.
    pub fn from_parts(
        last_applied_log: Option<LogId>,
        last_membership: StoredMembership,
        records: Vec<Value>,
    ) -> (r: Option<Self>)
        ensures
            r is Some <==> single_owner(records_view(records@)),
            r is Some ==> r->Some_0.wf() && r->Some_0@ == (StateMachineView {
                last_applied_log,
                last_membership: last_membership@,
                data: records_view(records@),
            }),
    {
        let ghost view = records_view(records@);
        let mut i: usize = 0;
        while i < records.len()
            invariant
                i <= records.len(),
                view == records_view(records@),
                forall|a: int, b: int|
                    0 <= a < i && 0 <= b < records.len() && #[trigger] view[a].channel_id
                        == #[trigger] view[b].channel_id ==> a == b,
            decreases records.len() - i,
        {
            let mut j: usize = i + 1;
            while j < records.len()
                invariant
                    i < j <= records.len(),
                    view == records_view(records@),
                    forall|b: int| i < b < j ==> view[i as int].channel_id != (
                    #[trigger] view[b]).channel_id,
                decreases records.len() - j,
            {
                if records[i].channel_id.same(&records[j].channel_id) {
                    proof {
                        assert(view[i as int].channel_id == view[j as int].channel_id);
                    }
                    return None;
                }
                j = j + 1;
            }
            i = i + 1;
        }
        Some(StateMachine { last_applied_log, last_membership, data: records })
    }

    /// The last entry applied.
    pub fn last_applied_log(&self) -> (r: Option<LogId>)
        ensures
            r == self@.last_applied_log,
    {
        self.last_applied_log
    }

    /// The membership in force.
    pub fn last_membership(&self) -> (r: StoredMembership)
        ensures
            r@ == self@.last_membership,
    {
        self.last_membership.clone()
    }

    /// The ownership records, in the order their channels first connected.
    pub fn records(&self) -> (r: &Vec<Value>)
        ensures
            records_view(r@) == self@.data,
    {
        &self.data
    }

    /// Where the record of channel `id` stands.
    fn find(&self, id: &ChannelId) -> (r: Option<usize>)
        ensures
            match r {
                Some(i) => position(self@.data, id@) == Some(i as int) && i < self.data.len(),
                None => position(self@.data, id@) is None,
            },
    {
        let ghost records = self@.data;
        let mut i: usize = 0;
        proof {
            assert(records.take(0) =~= Seq::<ValueView>::empty());
        }
        while i < self.data.len()
            invariant
                i <= self.data.len(),
                records == self@.data,
                records.len() == self.data.len(),
                position(records.take(i as int), id@) is None,
            decreases self.data.len() - i,
        {
            proof {
                assert(records.take(i + 1).drop_last() =~= records.take(i as int));
                assert(records.take(i + 1).last() == self.data@[i as int]@);
            }
            if self.data[i].channel_id.same(id) {
                proof {
                    lemma_position_prefix(records, id@, i + 1);
                }
                return Some(i);
            }
            i = i + 1;
        }
        proof {
            assert(records.take(records.len() as int) =~= records);
        }
        None
    }

    /// The record of channel `id`, read from the applied state.
    pub fn owner_of(&self, id: &ChannelId) -> (r: Option<Value>)
        ensures
            match r {
                Some(v) => owner_of(self@.data, id@) == Some(v@),
                None => owner_of(self@.data, id@) is None,
            },
    {
        match self.find(id) {
            Some(i) => Some(self.data[i].clone()),
            None => None,
        }
    }

    /// Records the owner of a channel, replacing the record it had.
    fn connect(&mut self, value: &Value)
        ensures
            final(self)@.data == connected(old(self)@.data, value@),
            final(self)@.last_applied_log == old(self)@.last_applied_log,
            final(self)@.last_membership == old(self)@.last_membership,
    {
        match self.find(&value.channel_id) {
            Some(i) => {
                self.data.set(i, value.clone());
                proof {
                    assert(final(self)@.data =~= old(self)@.data.update(i as int, value@));
                }
            },
            None => {
                self.data.push(value.clone());
                proof {
                    assert(final(self)@.data =~= old(self)@.data.push(value@));
                }
            },
        }
    }

    /// Moves the status of a channel's record forward.
    fn disconnect(&mut self, value: &Value)
        ensures
            final(self)@.data == disconnected(old(self)@.data, value@),
            final(self)@.last_applied_log == old(self)@.last_applied_log,
            final(self)@.last_membership == old(self)@.last_membership,
    {
        match self.find(&value.channel_id) {
            Some(i) => {
                let target = match value.channel_status {
                    ChannelStatus::Closed => ChannelStatus::Closed,
                    _ => ChannelStatus::Closing,
                };
                let current = self.data[i].clone();
                let moved = Value {
                    channel_id: current.channel_id,
                    router: current.router,
                    channel_status: later_of(current.channel_status, target),
                };
                self.data.set(i, moved);
                proof {
                    assert(final(self)@.data =~= disconnected(old(self)@.data, value@));
                }
            },
            None => {},
        }
    }

    /// Closes every record that the member `router_id` owns.
    fn shut_down(&mut self, router_id: RouterId)
        ensures
            final(self)@.data == shut_down(old(self)@.data, router_id),
            final(self)@.last_applied_log == old(self)@.last_applied_log,
            final(self)@.last_membership == old(self)@.last_membership,
    {
        let ghost before = self@.data;
        let mut i: usize = 0;
        while i < self.data.len()
            invariant
                i <= self.data.len(),
                self.data.len() == before.len(),
                self.last_applied_log == old(self).last_applied_log,
                self.last_membership == old(self).last_membership,
                before == old(self)@.data,
                forall|k: int| 0 <= k < i ==> self@.data[k] == shut_down(before, router_id)[k],
                forall|k: int| i <= k < before.len() ==> self@.data[k] == before[k],
            decreases self.data.len() - i,
        {
            if self.data[i].router.router() == router_id {
                let current = self.data[i].clone();
                let closed = Value {
                    channel_id: current.channel_id,
                    router: current.router,
                    channel_status: ChannelStatus::Closed,
                };
                self.data.set(i, closed);
            }
            i = i + 1;
        }
        proof {
            assert(self@.data =~= shut_down(before, router_id));
        }
    }

    /// Applies one committed entry and answers it.
    pub fn apply(&mut self, entry: &Entry) -> (r: Response)
        requires
            old(self).wf(),
        ensures
            final(self).wf(),
            (final(self)@, r@) == apply_entry(old(self)@, entry@),
    {
        let response = match &entry.payload {
            EntryPayload::Blank => Response::new(None),
            EntryPayload::Normal(request) => {
                proof {
                    lemma_request_keeps_single_owner(self@.data, request@);
                }
                match request {
                    Request::Connect { value } => {
                        self.connect(value);
                        Response::new(Some(value.clone()))
                    },
                    Request::DisConnect { value } => {
                        self.disconnect(value);
                        Response::new(self.owner_of(&value.channel_id))
                    },
                    Request::GetClientNodeId { channel_id } => Response::new(
                        self.owner_of(channel_id),
                    ),
                    Request::BrokerShutdown { router_id } => {
                        self.shut_down(*router_id);
                        Response::new(None)
                    },
                }
            },
            EntryPayload::Membership(membership) => {
                self.last_membership = StoredMembership::new(
                    Some(entry.log_id),
                    membership.clone(),
                );
                Response::new(None)
            },
        };
        self.last_applied_log = Some(entry.log_id);
        response
    }
}

} // verus!
