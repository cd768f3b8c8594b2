//! The write client: forwards writes to the leader it has on record, follows
//! redirects to a new leader within a fixed budget of attempts, and reads
//! ownership from the local store.

use crate::channel::ChannelId;
use crate::raft::{LogId, Membership, MembershipView, Node, NodeId, Response};
use crate::router::ValueView;
use crate::router::Value;
use crate::state_machine::owner_of;
use crate::store::Store;
use vstd::prelude::*;

verus! {

/// How many times a write is sent before the client gives up on finding the
/// leader.
pub const WRITE_ATTEMPTS: u32 = 3;

/// A node's answer that it is not the leader, with the leader it knows of.
#[derive(Debug, PartialEq)]
pub struct ForwardToLeader {
    pub leader_id: Option<NodeId>,
    pub leader_node: Option<Node>,
}

/// Why the leader's consensus layer refused a write.
#[derive(Debug, PartialEq)]
pub enum ClientWriteError {
    /// The node asked is not the leader.
    ForwardToLeader(ForwardToLeader),
    /// A membership change was refused.
    ChangeMembershipError(String),
}

/// An error of the consensus layer.
#[derive(Debug, PartialEq)]
pub enum RaftError {
    /// The request was refused.
    APIError(ClientWriteError),
    /// The node's consensus layer has stopped.
    Fatal(String),
}

/// The redirect that an error carries, if it is one.
pub open spec fn forward_of(e: RaftError) -> Option<ForwardToLeader> {
    match e {
        RaftError::APIError(ClientWriteError::ForwardToLeader(f)) => Some(f),
        _ => None,
    }
}

/// The leader that an error redirects to: the error is a redirect and names
/// both the leader's id and its node.
pub open spec fn redirect_of(e: RaftError) -> Option<(NodeId, Node)> {
    match forward_of(e) {
        Some(f) => match (f.leader_id, f.leader_node) {
            (Some(id), Some(node)) => Some((id, node)),
            _ => None,
        },
        None => None,
    }
}

impl RaftError {
    /// The redirect that this error carries, if it is one.
    pub fn forward_to_leader(&self) -> (r: Option<&ForwardToLeader>)
        ensures
            match r {
                Some(f) => forward_of(*self) == Some(*f),
                None => forward_of(*self) is None,
            },
    {
        match self {
            RaftError::APIError(api) => match api {
                ClientWriteError::ForwardToLeader(f) => Some(f),
                _ => None,
            },
            RaftError::Fatal(_) => None,
        }
    }
}

/// The leader's answer to a write that it accepted.
#[derive(Debug, PartialEq)]
pub struct ClientWriteResponse {
    /// The id of the log entry that was applied.
    pub log_id: LogId,
    /// The state machine's answer.
    pub data: Response,
    /// The membership, where the entry changed it.
    pub membership: Option<Membership>,
}

/// What a write response holds.
pub struct ClientWriteResponseView {
    pub log_id: LogId,
    pub data: Option<ValueView>,
    pub membership: Option<MembershipView>,
}

impl View for ClientWriteResponse {
    type V = ClientWriteResponseView;

    open spec fn view(&self) -> ClientWriteResponseView {
        ClientWriteResponseView {
            log_id: self.log_id,
            data: self.data@,
            membership: match self.membership {
                Some(m) => Some(m@),
                None => None,
            },
        }
    }
}

/// What an error of the consensus layer holds.
pub enum RaftErrorView {
    /// A redirect: the leader's id and address, as far as they are known.
    ForwardToLeader { leader_id: Option<NodeId>, leader_node: Option<Seq<char>> },
    /// A refused membership change.
    ChangeMembershipError(Seq<char>),
    /// A stopped consensus layer.
    Fatal(Seq<char>),
}

impl View for RaftError {
    type V = RaftErrorView;

    open spec fn view(&self) -> RaftErrorView {
        match self {
            RaftError::APIError(ClientWriteError::ForwardToLeader(f)) => {
                RaftErrorView::ForwardToLeader {
                    leader_id: f.leader_id,
                    leader_node: match f.leader_node {
                        Some(n) => Some(n@),
                        None => None,
                    },
                }
            },
            RaftError::APIError(ClientWriteError::ChangeMembershipError(reason)) => {
                RaftErrorView::ChangeMembershipError(reason@)
            },
            RaftError::Fatal(reason) => RaftErrorView::Fatal(reason@),
        }
    }
}

/// What a reply to a forwarded write holds.
pub enum ForwardReplyView {
    Written(ClientWriteResponseView),
    Refused(RaftErrorView),
    Unreachable,
    Undecodable,
}

/// What came back from forwarding a write.
#[derive(Debug, PartialEq)]
pub enum ForwardReply {
    /// The leader wrote the request.
    Written(ClientWriteResponse),
    /// The node asked refused the request.
    Refused(RaftError),
    /// The node could not be reached, or the call failed on the way.
    Unreachable,
    /// The node answered, and the answer cannot be read.
    Undecodable,
}

impl View for ForwardReply {
    type V = ForwardReplyView;

    open spec fn view(&self) -> ForwardReplyView {
        match self {
            ForwardReply::Written(response) => ForwardReplyView::Written(response@),
            ForwardReply::Refused(e) => ForwardReplyView::Refused(e@),
            ForwardReply::Unreachable => ForwardReplyView::Unreachable,
            ForwardReply::Undecodable => ForwardReplyView::Undecodable,
        }
    }
}

/// Why a write failed.
#[derive(Debug, PartialEq)]
pub enum WriteError {
    /// Every attempt was redirected: no leader was found within the budget.
    NoLeaderFound,
    /// The node asked refused the write for a reason other than a redirect
    /// that names the leader.
    Refused(RaftError),
    /// The node asked could not be reached.
    Unreachable,
    /// The node asked gave an answer that cannot be read.
    Undecodable,
}

/// What to do after a reply.
#[derive(Debug, PartialEq)]
pub enum WriteStep {
    /// Send the write again, to the leader now on record.
    Retry { attempts_left: u32 },
    /// The write is done.
    Done(ClientWriteResponse),
    /// The write failed.
    Failed(WriteError),
}

/// The leader on record and the next step after a reply, given the leader on
/// record before and the attempts that were left when the write was sent.
pub open spec fn write_step(leader: (NodeId, Node), attempts_left: u32, reply: ForwardReply) -> (
    (NodeId, Node),
    WriteStep,
) {
    match reply {
        ForwardReply::Written(response) => (leader, WriteStep::Done(response)),
        ForwardReply::Unreachable => (leader, WriteStep::Failed(WriteError::Unreachable)),
        ForwardReply::Undecodable => (leader, WriteStep::Failed(WriteError::Undecodable)),
        ForwardReply::Refused(e) => match redirect_of(e) {
            Some(new_leader) => if attempts_left > 1 {
                (new_leader, WriteStep::Retry { attempts_left: (attempts_left - 1) as u32 })
            } else {
                (new_leader, WriteStep::Failed(WriteError::NoLeaderFound))
            },
            None => (leader, WriteStep::Failed(WriteError::Refused(e))),
        },
    }
}

/// The leader on record and the state of a write after the replies that came
/// back, one per attempt, in order. A write that was not answered to the end
/// waits to be sent again.
pub open spec fn write_run(leader: (NodeId, Node), attempts_left: u32, replies: Seq<ForwardReply>) -> (
    (NodeId, Node),
    WriteStep,
)
    decreases replies.len(),
{
    if replies.len() == 0 {
        (leader, WriteStep::Retry { attempts_left })
    } else {
        let after = write_step(leader, attempts_left, replies[0]);
        match after.1 {
            WriteStep::Retry { attempts_left: left } => write_run(
                after.0,
                left,
                replies.drop_first(),
            ),
            _ => after,
        }
    }
}

/// The reply of a node that is not the leader and names the leader.
pub open spec fn redirect_to(id: NodeId, node: Node) -> ForwardReply {
    ForwardReply::Refused(
        RaftError::APIError(
            ClientWriteError::ForwardToLeader(
                ForwardToLeader { leader_id: Some(id), leader_node: Some(node) },
            ),
        ),
    )
}

/// A write sent to a stale leader that is redirected once and then accepted
/// is done within the budget, and the leader on record is the one that the
/// redirect named.
pub proof fn lemma_redirect_then_success(
    stale: (NodeId, Node),
    id: NodeId,
    node: Node,
    response: ClientWriteResponse,
)
    ensures
        write_run(
            stale,
            WRITE_ATTEMPTS,
            seq![redirect_to(id, node), ForwardReply::Written(response)],
        ) == ((id, node), WriteStep::Done(response)),
{
    let replies = seq![redirect_to(id, node), ForwardReply::Written(response)];
    let rest = replies.drop_first();
    assert(rest =~= seq![ForwardReply::Written(response)]);
    assert(rest.drop_first() =~= Seq::<ForwardReply>::empty());
    assert(write_step(stale, WRITE_ATTEMPTS, replies[0]) == ((id, node), WriteStep::Retry {
        attempts_left: 2,
    }));
    assert(write_step((id, node), 2, rest[0]) == ((id, node), WriteStep::Done(response)));
    assert(write_run((id, node), 2, rest) == ((id, node), WriteStep::Done(response)));
}

/// A write that is redirected at every attempt fails once the budget is
/// spent, with no leader found: it is never sent more often than the budget
/// allows.
pub proof fn lemma_budget_bounds_redirects(
    leader: (NodeId, Node),
    attempts_left: u32,
    replies: Seq<ForwardReply>,
)
    requires
        attempts_left >= 1,
        replies.len() >= attempts_left,
        forall|i: int|
            0 <= i < replies.len() ==> (#[trigger] replies[i]) is Refused && redirect_of(
                replies[i]->Refused_0,
            ) is Some,
    ensures
        write_run(leader, attempts_left, replies).1 == WriteStep::Failed(WriteError::NoLeaderFound),
        write_run(leader, attempts_left, replies).0 == redirect_of(
            replies[attempts_left - 1]->Refused_0,
        )->Some_0,
    decreases replies.len(),
{
    let after = write_step(leader, attempts_left, replies[0]);
    if attempts_left > 1 {
        let rest = replies.drop_first();
        assert forall|i: int| 0 <= i < rest.len() implies (#[trigger] rest[i]) is Refused
            && redirect_of(rest[i]->Refused_0) is Some by {
            assert(rest[i] == replies[i + 1]);
        }
        lemma_budget_bounds_redirects(after.0, (attempts_left - 1) as u32, rest);
        assert(rest[attempts_left - 2] == replies[attempts_left - 1]);
    }
}

/// Why a local read failed.
#[derive(Debug, Clone, Copy, PartialEq, Eq, Structural)]
pub enum ReadError {
    /// The applied state of this node has no record of the channel.
    ClientKeyNotFoundError,
}

/// The write client of one node.
#[derive(Debug, PartialEq)]
pub struct RaftClient {
    leader: (NodeId, Node),
}

impl RaftClient {
    /// The leader on record.
    pub closed spec fn leader(&self) -> (NodeId, Node) {
        self.leader
    }

    /// A client that takes `leader_node` for the leader until told otherwise.
    pub fn new(leader_node_id: NodeId, leader_node: Node) -> (r: Self)
        ensures
            r.leader() == (leader_node_id, leader_node),
    {
        RaftClient { leader: (leader_node_id, leader_node) }
    }

    /// The id of the leader on record.
    pub fn leader_id(&self) -> (id: NodeId)
        ensures
            id == self.leader().0,
    {
        self.leader.0
    }

    /// The address of the leader on record: where the next attempt is sent.
    pub fn leader_addr(&self) -> (addr: &str)
        ensures
            addr@ == self.leader().1@,
    {
        self.leader.1.addr.as_str()
    }

    /// The state of a write before it is first sent: the whole budget of
    /// attempts is left.
    pub fn begin_write(&self) -> (r: WriteStep)
        ensures
            r == (WriteStep::Retry { attempts_left: WRITE_ATTEMPTS }),
    {
        WriteStep::Retry { attempts_left: WRITE_ATTEMPTS }
    }

    /// Takes in the reply to a write that was sent with `attempts_left`
    /// attempts left, and says what to do next. A redirect that names the
    /// leader puts that leader on record; the write is sent again while the
    /// budget lasts. Any other refusal, and a node that cannot be reached,
    /// fail the write.
    pub fn on_reply(&mut self, attempts_left: u32, reply: ForwardReply) -> (r: WriteStep)
        ensures
            (final(self).leader(), r) == write_step(old(self).leader(), attempts_left, reply),
    {
        match reply {
            ForwardReply::Written(response) => WriteStep::Done(response),
            ForwardReply::Unreachable => WriteStep::Failed(WriteError::Unreachable),
            ForwardReply::Undecodable => WriteStep::Failed(WriteError::Undecodable),
            ForwardReply::Refused(e) => {
                let named = match e.forward_to_leader() {
                    Some(f) => match (&f.leader_id, &f.leader_node) {
                        (Some(id), Some(node)) => Some((*id, node.clone())),
                        _ => None,
                    },
                    None => None,
                };
                match named {
                    Some(new_leader) => {
                        self.leader = new_leader;
                        if attempts_left > 1 {
                            WriteStep::Retry { attempts_left: attempts_left - 1 }
                        } else {
                            WriteStep::Failed(WriteError::NoLeaderFound)
                        }
                    },
                    None => WriteStep::Failed(WriteError::Refused(e)),
                }
            },
        }
    }

    /// The owner of channel `key` as this node's applied state has it. No
    /// other node is asked, so the answer may lag what the cluster has
    /// committed.
    pub fn read(&self, store: &Store, key: &ChannelId) -> (r: Result<Value, ReadError>)
        ensures
            match owner_of(store@.state_machine.data, key@) {
                Some(v) => r is Ok && r->Ok_0@ == v,
                None => r == Err::<Value, ReadError>(ReadError::ClientKeyNotFoundError),
            },
    {
        match store.read(key) {
            Some(v) => Ok(v),
            None => Err(ReadError::ClientKeyNotFoundError),
        }
    }
}

} // verus!
