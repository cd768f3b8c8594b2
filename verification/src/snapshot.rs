//! The byte form of a state machine: what a snapshot carries from one store
//! to another.

use crate::channel::{ChannelId, ChannelStatus};
use crate::raft::{
    LeaderId, LogId, Member, Membership, MembershipView, StoredMembership, StoredMembershipView,
};
use crate::router::{Router, RouterView, Value, ValueView};
use crate::state_machine::{records_view, single_owner, StateMachine, StateMachineView};
use crate::wire::{encode_text, models, Wire};
use vstd::prelude::*;

verus! {

/// The status that a byte stands for.
pub open spec fn status_of(tag: u8) -> Option<ChannelStatus> {
    if tag == 0 {
        Some(ChannelStatus::Established)
    } else if tag == 1 {
        Some(ChannelStatus::Closing)
    } else if tag == 2 {
        Some(ChannelStatus::Closed)
    } else {
        None
    }
}

impl Wire for ChannelStatus {
    type Model = ChannelStatus;

    open spec fn model(&self) -> ChannelStatus {
        *self
    }

    open spec fn fits(m: ChannelStatus) -> bool {
        true
    }

    open spec fn encoded(m: ChannelStatus) -> Seq<u8> {
        u8::encoded(m.rank() as u8)
    }

    open spec fn parsed(b: Seq<u8>, p: int) -> Option<(ChannelStatus, int)> {
        match u8::parsed(b, p) {
            Some((tag, q)) => match status_of(tag) {
                Some(status) => Some((status, q)),
                None => None,
            },
            None => None,
        }
    }

    proof fn round_trip(m: ChannelStatus, b: Seq<u8>, p: int) {
        u8::round_trip(m.rank() as u8, b, p);
    }

    proof fn parsed_advances(b: Seq<u8>, p: int) {
    }

    fn encode(&self, out: &mut Vec<u8>) {
        self.level().encode(out);
    }

    fn decode(b: &Vec<u8>, p: usize) -> (r: Option<(Self, usize)>) {
        match u8::decode(b, p) {
            Some((tag, q)) => {
                if tag == 0 {
                    Some((ChannelStatus::Established, q))
                } else if tag == 1 {
                    Some((ChannelStatus::Closing, q))
                } else if tag == 2 {
                    Some((ChannelStatus::Closed, q))
                } else {
                    None
                }
            },
            None => None,
        }
    }
}

/// A log id as the numbers it is written as.
pub open spec fn log_id_numbers(m: LogId) -> (u64, (u64, u64)) {
    (m.leader_id.term, (m.leader_id.node_id, m.index))
}

/// The log id that three numbers are read as.
pub open spec fn numbers_log_id(t: (u64, (u64, u64))) -> LogId {
    LogId { leader_id: LeaderId { term: t.0, node_id: t.1.0 }, index: t.1.1 }
}

impl Wire for LogId {
    type Model = LogId;

    open spec fn model(&self) -> LogId {
        *self
    }

    open spec fn fits(m: LogId) -> bool {
        true
    }

    open spec fn encoded(m: LogId) -> Seq<u8> {
        <(u64, (u64, u64))>::encoded(log_id_numbers(m))
    }

    open spec fn parsed(b: Seq<u8>, p: int) -> Option<(LogId, int)> {
        match <(u64, (u64, u64))>::parsed(b, p) {
            Some((t, q)) => Some((numbers_log_id(t), q)),
            None => None,
        }
    }

    proof fn round_trip(m: LogId, b: Seq<u8>, p: int) {
        <(u64, (u64, u64))>::round_trip(log_id_numbers(m), b, p);
    }

    proof fn parsed_advances(b: Seq<u8>, p: int) {
        <(u64, (u64, u64))>::parsed_advances(b, p);
    }

    fn encode(&self, out: &mut Vec<u8>) {
        (self.leader_id.term, (self.leader_id.node_id, self.index)).encode(out);
    }

    fn decode(b: &Vec<u8>, p: usize) -> (r: Option<(Self, usize)>) {
        match <(u64, (u64, u64))>::decode(b, p) {
            Some((t, q)) => Some(
                (LogId { leader_id: LeaderId { term: t.0, node_id: t.1.0 }, index: t.1.1 }, q),
            ),
            None => None,
        }
    }
}

impl Wire for Member {
    type Model = (u64, Seq<char>);

    open spec fn model(&self) -> (u64, Seq<char>) {
        self@
    }

    open spec fn fits(m: (u64, Seq<char>)) -> bool {
        <(u64, String)>::fits(m)
    }

    open spec fn encoded(m: (u64, Seq<char>)) -> Seq<u8> {
        <(u64, String)>::encoded(m)
    }

    open spec fn parsed(b: Seq<u8>, p: int) -> Option<((u64, Seq<char>), int)> {
        <(u64, String)>::parsed(b, p)
    }

    proof fn round_trip(m: (u64, Seq<char>), b: Seq<u8>, p: int) {
        <(u64, String)>::round_trip(m, b, p);
    }

    proof fn parsed_advances(b: Seq<u8>, p: int) {
        <(u64, String)>::parsed_advances(b, p);
    }

    fn encode(&self, out: &mut Vec<u8>) {
        self.id.encode(out);
        self.node.addr.encode(out);
        proof {
            assert(final(out)@ =~= old(out)@ + Self::encoded(self.model()));
        }
    }

    fn decode(b: &Vec<u8>, p: usize) -> (r: Option<(Self, usize)>) {
        match <(u64, String)>::decode(b, p) {
            Some((t, q)) => Some((Member { id: t.0, node: crate::raft::Node { addr: t.1 } }, q)),
            None => None,
        }
    }
}

/// An ownership record as the values it is written as.
pub open spec fn value_fields(m: ValueView) -> (
    Seq<char>,
    (u64, (Seq<char>, (Seq<char>, ChannelStatus))),
) {
    (
        m.channel_id,
        (m.router.router, (m.router.local_address, (m.router.remote_addr, m.channel_status))),
    )
}

/// The ownership record that the values are read as.
pub open spec fn fields_value(
    t: (Seq<char>, (u64, (Seq<char>, (Seq<char>, ChannelStatus)))),
) -> ValueView {
    ValueView {
        channel_id: t.0,
        router: RouterView { router: t.1.0, local_address: t.1.1.0, remote_addr: t.1.1.1.0 },
        channel_status: t.1.1.1.1,
    }
}

impl Wire for Value {
    type Model = ValueView;

    open spec fn model(&self) -> ValueView {
        self@
    }

    open spec fn fits(m: ValueView) -> bool {
        <(String, (u64, (String, (String, ChannelStatus))))>::fits(value_fields(m))
    }

    open spec fn encoded(m: ValueView) -> Seq<u8> {
        <(String, (u64, (String, (String, ChannelStatus))))>::encoded(value_fields(m))
    }

    open spec fn parsed(b: Seq<u8>, p: int) -> Option<(ValueView, int)> {
        match <(String, (u64, (String, (String, ChannelStatus))))>::parsed(b, p) {
            Some((t, q)) => Some((fields_value(t), q)),
            None => None,
        }
    }

    proof fn round_trip(m: ValueView, b: Seq<u8>, p: int) {
        <(String, (u64, (String, (String, ChannelStatus))))>::round_trip(value_fields(m), b, p);
    }

    proof fn parsed_advances(b: Seq<u8>, p: int) {
        <(String, (u64, (String, (String, ChannelStatus))))>::parsed_advances(b, p);
    }

    fn encode(&self, out: &mut Vec<u8>) {
        encode_text(self.channel_id.as_str(), out);
        self.router.router().encode(out);
        encode_text(self.router.local_address(), out);
        encode_text(self.router.remote_addr(), out);
        self.channel_status.encode(out);
        proof {
            assert(final(out)@ =~= old(out)@ + Self::encoded(self.model()));
        }
    }

    fn decode(b: &Vec<u8>, p: usize) -> (r: Option<(Self, usize)>) {
        match <(String, (u64, (String, (String, ChannelStatus))))>::decode(b, p) {
            Some((t, q)) => {
                let (channel_id, (router, (local_address, (remote_addr, channel_status)))) = t;
                Some(
                    (
                        Value {
                            channel_id: ChannelId::new(channel_id),
                            router: Router::new(router, local_address, remote_addr),
                            channel_status,
                        },
                        q,
                    ),
                )
            },
            None => None,
        }
    }
}

/// The model of a vector of numbers is the numbers.
pub proof fn lemma_number_models(v: Seq<u64>)
    ensures
        models(v) == v,
{
    assert(models(v) =~= v);
}

/// A membership as the values it is written as.
pub open spec fn membership_fields(m: MembershipView) -> (Seq<Seq<u64>>, Seq<(u64, Seq<char>)>) {
    (m.configs, m.nodes)
}

impl Wire for Membership {
    type Model = MembershipView;

    open spec fn model(&self) -> MembershipView {
        self@
    }

    open spec fn fits(m: MembershipView) -> bool {
        <(Vec<Vec<u64>>, Vec<Member>)>::fits(membership_fields(m))
    }

    open spec fn encoded(m: MembershipView) -> Seq<u8> {
        <(Vec<Vec<u64>>, Vec<Member>)>::encoded(membership_fields(m))
    }

    open spec fn parsed(b: Seq<u8>, p: int) -> Option<(MembershipView, int)> {
        match <(Vec<Vec<u64>>, Vec<Member>)>::parsed(b, p) {
            Some((t, q)) => Some((MembershipView { configs: t.0, nodes: t.1 }, q)),
            None => None,
        }
    }

    proof fn round_trip(m: MembershipView, b: Seq<u8>, p: int) {
        <(Vec<Vec<u64>>, Vec<Member>)>::round_trip(membership_fields(m), b, p);
    }

    proof fn parsed_advances(b: Seq<u8>, p: int) {
        <(Vec<Vec<u64>>, Vec<Member>)>::parsed_advances(b, p);
    }

    fn encode(&self, out: &mut Vec<u8>) {
        proof {
            assert forall|i: int| 0 <= i < self.configs@.len() implies models(self.configs@)[i]
                == self.configs@[i]@ by {
                lemma_number_models(self.configs@[i]@);
            }
            assert(models(self.configs@) =~= self@.configs);
            assert(models(self.nodes@) =~= self@.nodes);
        }
        self.configs.encode(out);
        self.nodes.encode(out);
        proof {
            assert(final(out)@ =~= old(out)@ + Self::encoded(self.model()));
        }
    }

    fn decode(b: &Vec<u8>, p: usize) -> (r: Option<(Self, usize)>) {
        match <(Vec<Vec<u64>>, Vec<Member>)>::decode(b, p) {
            Some((t, q)) => {
                let (configs, nodes) = t;
                let membership = Membership { configs, nodes };
                proof {
                    assert forall|i: int| 0 <= i < configs@.len() implies models(configs@)[i]
                        == configs@[i]@ by {
                        lemma_number_models(configs@[i]@);
                    }
                    assert(models(configs@) =~= membership@.configs);
                    assert(models(nodes@) =~= membership@.nodes);
                }
                Some((membership, q))
            },
            None => None,
        }
    }
}

impl Wire for StoredMembership {
    type Model = StoredMembershipView;

    open spec fn model(&self) -> StoredMembershipView {
        self@
    }

    open spec fn fits(m: StoredMembershipView) -> bool {
        <(Option<LogId>, Membership)>::fits((m.log_id, m.membership))
    }

    open spec fn encoded(m: StoredMembershipView) -> Seq<u8> {
        <(Option<LogId>, Membership)>::encoded((m.log_id, m.membership))
    }

    open spec fn parsed(b: Seq<u8>, p: int) -> Option<(StoredMembershipView, int)> {
        match <(Option<LogId>, Membership)>::parsed(b, p) {
            Some((t, q)) => Some((StoredMembershipView { log_id: t.0, membership: t.1 }, q)),
            None => None,
        }
    }

    proof fn round_trip(m: StoredMembershipView, b: Seq<u8>, p: int) {
        <(Option<LogId>, Membership)>::round_trip((m.log_id, m.membership), b, p);
    }

    proof fn parsed_advances(b: Seq<u8>, p: int) {
        <(Option<LogId>, Membership)>::parsed_advances(b, p);
    }

    fn encode(&self, out: &mut Vec<u8>) {
        self.log_id.encode(out);
        self.membership.encode(out);
        proof {
            assert(final(out)@ =~= old(out)@ + Self::encoded(self.model()));
        }
    }

    fn decode(b: &Vec<u8>, p: usize) -> (r: Option<(Self, usize)>) {
        match <(Option<LogId>, Membership)>::decode(b, p) {
            Some((t, q)) => {
                let (log_id, membership) = t;
                Some((StoredMembership { log_id, membership }, q))
            },
            None => None,
        }
    }
}

/// A state machine as the values it is written as.
pub open spec fn state_fields(sm: StateMachineView) -> (
    Option<LogId>,
    (StoredMembershipView, Seq<ValueView>),
) {
    (sm.last_applied_log, (sm.last_membership, sm.data))
}

/// Whether a state machine is small enough to have a byte form: every state
/// machine that exists in memory is.
pub open spec fn state_fits(sm: StateMachineView) -> bool {
    <(Option<LogId>, (StoredMembership, Vec<Value>))>::fits(state_fields(sm))
}

/// The byte form of a state machine.
pub open spec fn snapshot_bytes(sm: StateMachineView) -> Seq<u8> {
    <(Option<LogId>, (StoredMembership, Vec<Value>))>::encoded(state_fields(sm))
}

/// The state machine that bytes are the byte form of: nothing where they are
/// no byte form, where bytes are left over, or where a channel would have two
/// records.
pub open spec fn snapshot_state(bytes: Seq<u8>) -> Option<StateMachineView> {
    match <(Option<LogId>, (StoredMembership, Vec<Value>))>::parsed(bytes, 0) {
        Some((t, q)) => {
            if q == bytes.len() && single_owner(t.1.1) {
                Some(StateMachineView { last_applied_log: t.0, last_membership: t.1.0, data: t.1.1 })
            } else {
                None
            }
        },
        None => None,
    }
}

/// The byte form of a state machine reads back as that state machine.
pub proof fn lemma_snapshot_round_trip(sm: StateMachineView)
    requires
        state_fits(sm),
        single_owner(sm.data),
    ensures
        snapshot_state(snapshot_bytes(sm)) == Some(sm),
{
    let bytes = snapshot_bytes(sm);
    assert(bytes.subrange(0, bytes.len() as int) =~= bytes);
    <(Option<LogId>, (StoredMembership, Vec<Value>))>::round_trip(state_fields(sm), bytes, 0);
}

/// Writes a state machine as bytes.
pub fn encode_state_machine(sm: &StateMachine) -> (bytes: Vec<u8>)
    ensures
        state_fits(sm@),
        bytes@ == snapshot_bytes(sm@),
{
    let mut out: Vec<u8> = Vec::new();
    let records = sm.records();
    proof {
        assert(models(records@) =~= records_view(records@));
    }
    sm.last_applied_log().encode(&mut out);
    sm.last_membership().encode(&mut out);
    records.encode(&mut out);
    proof {
        assert(out@ =~= snapshot_bytes(sm@));
    }
    out
}

/// Reads a state machine from bytes.
pub fn decode_state_machine(bytes: &Vec<u8>) -> (r: Option<StateMachine>)
    ensures
        match snapshot_state(bytes@) {
            Some(sm) => r is Some && r->Some_0@ == sm && r->Some_0.wf(),
            None => r is None,
        },
{
    match <(Option<LogId>, (StoredMembership, Vec<Value>))>::decode(bytes, 0) {
        Some((t, q)) => {
            if q != bytes.len() {
                return None;
            }
            let (last_applied_log, (last_membership, records)) = t;
            proof {
                assert(models(records@) =~= records_view(records@));
            }
            StateMachine::from_parts(last_applied_log, last_membership, records)
        },
        None => None,
    }
}

} // verus!
