//! The data that the consensus layer and the replicated store exchange: log
//! ids, votes, membership, log entries, and the requests that entries carry.

use crate::channel::ChannelId;
use crate::router::{RouterId, Value, ValueView};
use vstd::prelude::*;

verus! {

/// The unique id of a consensus peer.
pub type NodeId = u64;

/// A consensus peer's address.
#[derive(Debug, PartialEq)]
pub struct Node {
    pub addr: String,
}

impl View for Node {
    type V = Seq<char>;

    open spec fn view(&self) -> Seq<char> {
        self.addr@
    }
}

impl Clone for Node {
    fn clone(&self) -> (r: Self)
        ensures
            r == *self,
    {
        Node { addr: self.addr.clone() }
    }
}

/// The leader of a term.
#[derive(Debug, Clone, Copy, PartialEq, Eq, Structural)]
pub struct LeaderId {
    pub term: u64,
    pub node_id: NodeId,
}

/// The identity of a log entry: the leader that proposed it and its index.
#[derive(Debug, Clone, Copy, PartialEq, Eq, Structural)]
pub struct LogId {
    pub leader_id: LeaderId,
    pub index: u64,
}

/// The order of log ids: by term, then by node id, then by index.
pub open spec fn log_id_le(a: LogId, b: LogId) -> bool {
    ||| a.leader_id.term < b.leader_id.term
    ||| (a.leader_id.term == b.leader_id.term && a.leader_id.node_id < b.leader_id.node_id)
    ||| (a.leader_id.term == b.leader_id.term && a.leader_id.node_id == b.leader_id.node_id
        && a.index <= b.index)
}

/// The order of optional log ids: none comes before any log id.
pub open spec fn opt_log_id_le(a: Option<LogId>, b: Option<LogId>) -> bool {
    match (a, b) {
        (None, _) => true,
        (Some(_), None) => false,
        (Some(x), Some(y)) => log_id_le(x, y),
    }
}

impl LogId {
    /// Whether this log id comes before `other` or is the same.
    pub fn le(&self, other: &LogId) -> (b: bool)
        ensures
            b == log_id_le(*self, *other),
    {
        if self.leader_id.term != other.leader_id.term {
            self.leader_id.term < other.leader_id.term
        } else if self.leader_id.node_id != other.leader_id.node_id {
            self.leader_id.node_id < other.leader_id.node_id
        } else {
            self.index <= other.index
        }
    }
}

/// A vote: the leader voted for, and whether a quorum has granted it.
#[derive(Debug, Clone, Copy, PartialEq, Eq, Structural)]
pub struct Vote {
    pub leader_id: LeaderId,
    pub committed: bool,
}

/// What the log holds: the last entry purged and the last entry present.
#[derive(Debug, Clone, Copy, PartialEq, Eq, Structural)]
pub struct LogState {
    pub last_purged_log_id: Option<LogId>,
    pub last_log_id: Option<LogId>,
}

/// A member of the cluster: a peer id and its address.
#[derive(Debug, PartialEq)]
pub struct Member {
    pub id: NodeId,
    pub node: Node,
}

impl View for Member {
    type V = (NodeId, Seq<char>);

    open spec fn view(&self) -> (NodeId, Seq<char>) {
        (self.id, self.node@)
    }
}

impl Clone for Member {
    fn clone(&self) -> (r: Self)
        ensures
            r == *self,
    {
        Member { id: self.id, node: self.node.clone() }
    }
}

/// The cluster's membership: the voter sets in force (more than one while a
/// change is under way) and the address of every member.
#[derive(Debug, PartialEq)]
pub struct Membership {
    pub configs: Vec<Vec<NodeId>>,
    pub nodes: Vec<Member>,
}

/// What a membership holds.
pub struct MembershipView {
    pub configs: Seq<Seq<NodeId>>,
    pub nodes: Seq<(NodeId, Seq<char>)>,
}

impl View for Membership {
    type V = MembershipView;

    open spec fn view(&self) -> MembershipView {
        MembershipView {
            configs: Seq::new(self.configs@.len(), |i: int| self.configs@[i]@),
            nodes: Seq::new(self.nodes@.len(), |i: int| self.nodes@[i]@),
        }
    }
}

impl Clone for Membership {
    fn clone(&self) -> (r: Self)
        ensures
            r@ == self@,
    {
        let mut configs: Vec<Vec<NodeId>> = Vec::new();
        let mut i: usize = 0;
        while i < self.configs.len()
            invariant
                i <= self.configs.len(),
                configs.len() == i,
                forall|k: int| 0 <= k < i ==> (#[trigger] configs@[k])@ == self.configs@[k]@,
            decreases self.configs.len() - i,
        {
            let source = &self.configs[i];
            let mut config: Vec<NodeId> = Vec::new();
            let mut j: usize = 0;
            while j < source.len()
                invariant
                    j <= source.len(),
                    config@ == source@.take(j as int),
                decreases source.len() - j,
            {
                config.push(source[j]);
                proof {
                    assert(source@.take(j + 1) =~= source@.take(j as int).push(source@[j as int]));
                }
                j = j + 1;
            }
            proof {
                assert(source@.take(source.len() as int) =~= source@);
            }
            configs.push(config);
            i = i + 1;
        }
        let mut nodes: Vec<Member> = Vec::new();
        let mut n: usize = 0;
        while n < self.nodes.len()
            invariant
                n <= self.nodes.len(),
                nodes.len() == n,
                forall|k: int| 0 <= k < n ==> (#[trigger] nodes@[k]) == self.nodes@[k],
            decreases self.nodes.len() - n,
        {
            nodes.push(self.nodes[n].clone());
            n = n + 1;
        }
        let r = Membership { configs, nodes };
        proof {
            assert(r@.configs =~= self@.configs);
            assert(r@.nodes =~= self@.nodes);
        }
        r
    }
}

impl Membership {
    /// The membership of a cluster that has not been formed: no voter set,
    /// no member.
    pub fn empty() -> (r: Self)
        ensures
            r@.configs.len() == 0,
            r@.nodes.len() == 0,
    {
        Membership { configs: Vec::new(), nodes: Vec::new() }
    }
}

/// A membership together with the log entry that put it in force.
#[derive(Debug, PartialEq)]
pub struct StoredMembership {
    pub log_id: Option<LogId>,
    pub membership: Membership,
}

/// What a stored membership holds.
pub struct StoredMembershipView {
    pub log_id: Option<LogId>,
    pub membership: MembershipView,
}

impl View for StoredMembership {
    type V = StoredMembershipView;

    open spec fn view(&self) -> StoredMembershipView {
        StoredMembershipView { log_id: self.log_id, membership: self.membership@ }
    }
}

impl Clone for StoredMembership {
    fn clone(&self) -> (r: Self)
        ensures
            r@ == self@,
    {
        StoredMembership { log_id: self.log_id, membership: self.membership.clone() }
    }
}

impl StoredMembership {
    /// The membership `membership`, put in force by the entry `log_id`.
    pub fn new(log_id: Option<LogId>, membership: Membership) -> (r: Self)
        ensures
            r@ == (StoredMembershipView { log_id, membership: membership@ }),
    {
        StoredMembership { log_id, membership }
    }
}

impl Default for StoredMembership {
    fn default() -> (r: Self)
        ensures
            r@.log_id is None,
            r@.membership.configs.len() == 0,
            r@.membership.nodes.len() == 0,
    {
        StoredMembership { log_id: None, membership: Membership::empty() }
    }
}

/// A write that the cluster agrees on.
#[derive(Debug, PartialEq)]
pub enum Request {
    /// A channel was established: record its owner.
    Connect { value: Value },
    /// A channel is closing or closed: move its status forward.
    DisConnect { value: Value },
    /// Look up the owner of a channel.
    GetClientNodeId { channel_id: ChannelId },
    /// A member went away: close every channel it owned.
    BrokerShutdown { router_id: RouterId },
}

/// What a request holds.
pub enum RequestView {
    Connect { value: ValueView },
    DisConnect { value: ValueView },
    GetClientNodeId { channel_id: Seq<char> },
    BrokerShutdown { router_id: RouterId },
}

impl View for Request {
    type V = RequestView;

    open spec fn view(&self) -> RequestView {
        match self {
            Request::Connect { value } => RequestView::Connect { value: value@ },
            Request::DisConnect { value } => RequestView::DisConnect { value: value@ },
            Request::GetClientNodeId { channel_id } => RequestView::GetClientNodeId {
                channel_id: channel_id@,
            },
            Request::BrokerShutdown { router_id } => RequestView::BrokerShutdown {
                router_id: *router_id,
            },
        }
    }
}

impl Clone for Request {
    fn clone(&self) -> (r: Self)
        ensures
            r == *self,
    {
        match self {
            Request::Connect { value } => Request::Connect { value: value.clone() },
            Request::DisConnect { value } => Request::DisConnect { value: value.clone() },
            Request::GetClientNodeId { channel_id } => Request::GetClientNodeId {
                channel_id: channel_id.clone(),
            },
            Request::BrokerShutdown { router_id } => Request::BrokerShutdown {
                router_id: *router_id,
            },
        }
    }
}

/// The answer to an applied entry: the ownership record it stored or found,
/// if any.
#[derive(Debug, PartialEq)]
pub struct Response {
    pub value: Option<Value>,
}

impl View for Response {
    type V = Option<ValueView>;

    open spec fn view(&self) -> Option<ValueView> {
        match self.value {
            Some(v) => Some(v@),
            None => None,
        }
    }
}

impl Clone for Response {
    fn clone(&self) -> (r: Self)
        ensures
            r == *self,
    {
        match &self.value {
            Some(v) => Response { value: Some(v.clone()) },
            None => Response { value: None },
        }
    }
}

impl Response {
    /// The answer that holds `value`.
    pub fn new(value: Option<Value>) -> (r: Self)
        ensures
            r.value == value,
    {
        Response { value }
    }
}

/// What a log entry carries.
#[derive(Debug, PartialEq)]
pub enum EntryPayload {
    /// Nothing: an entry that only marks a leader's term.
    Blank,
    /// A write.
    Normal(Request),
    /// A change of membership.
    Membership(Membership),
}

/// What an entry's payload holds.
pub enum EntryPayloadView {
    Blank,
    Normal(RequestView),
    Membership(MembershipView),
}

impl View for EntryPayload {
    type V = EntryPayloadView;

    open spec fn view(&self) -> EntryPayloadView {
        match self {
            EntryPayload::Blank => EntryPayloadView::Blank,
            EntryPayload::Normal(r) => EntryPayloadView::Normal(r@),
            EntryPayload::Membership(m) => EntryPayloadView::Membership(m@),
        }
    }
}

impl Clone for EntryPayload {
    fn clone(&self) -> (r: Self)
        ensures
            r@ == self@,
    {
        match self {
            EntryPayload::Blank => EntryPayload::Blank,
            EntryPayload::Normal(r) => EntryPayload::Normal(r.clone()),
            EntryPayload::Membership(m) => EntryPayload::Membership(m.clone()),
        }
    }
}

/// A log entry.
#[derive(Debug, PartialEq)]
pub struct Entry {
    pub log_id: LogId,
    pub payload: EntryPayload,
}

/// What a log entry holds.
pub struct EntryView {
    pub log_id: LogId,
    pub payload: EntryPayloadView,
}

impl View for Entry {
    type V = EntryView;

    open spec fn view(&self) -> EntryView {
        EntryView { log_id: self.log_id, payload: self.payload@ }
    }
}

impl Clone for Entry {
    fn clone(&self) -> (r: Self)
        ensures
            r@ == self@,
    {
        Entry { log_id: self.log_id, payload: self.payload.clone() }
    }
}

/// Why the store refused an operation. Each is fatal to the node: the
/// operation left the store as it was.
#[derive(Debug, Clone, Copy, PartialEq, Eq, Structural)]
pub enum StorageError {
    /// A purge asked to move the purged log id backward.
    PurgeBackward,
    /// A batch to apply is not the next entries in index order.
    ApplyOutOfOrder,
    /// A vote to save has a lower term than the vote on record.
    VoteBackward,
    /// No further snapshot can be numbered.
    SnapshotCounterExhausted,
    /// A snapshot to install does not decode to a state machine.
    SnapshotCorrupt,
}

} // verus!
