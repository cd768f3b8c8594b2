//! The transport side of the consensus layer: which pooled connection a call
//! goes over, what is sent, and what a call's outcome means to the caller.

use crate::pool::{after_get, MutexPool, PoolItemBuilder};
use crate::raft::{Node, NodeId};
use crate::router::Status;
use crate::rpc::{
    append_entries_response_of_json, append_entries_response_text, install_snapshot_response_of_json,
    install_snapshot_response_text, read_append_entries_response, read_install_snapshot_response,
    read_vote_request, read_vote_response, vote_request_of_json, vote_request_text,
    vote_response_of_json, vote_response_text, write_append_entries_response,
    write_install_snapshot_response, write_vote_request, write_vote_response,
    AppendEntriesResponse, InstallSnapshotResponse, VoteRequest, VoteResponse,
};
use vstd::prelude::*;
use vstd::string::StringExecFns;

verus! {

/// The calls of the consensus layer.
#[derive(Debug, Clone, Copy, PartialEq, Eq, Structural)]
pub enum RpcKind {
    AppendEntries,
    InstallSnapshot,
    Vote,
}

/// The request of a consensus call: a serialized message of the consensus
/// layer.
#[derive(Debug, PartialEq)]
pub struct RaftRequest {
    pub data: String,
}

/// The reply of a consensus call: a serialized message of the consensus
/// layer.
#[derive(Debug, PartialEq)]
pub struct RaftReply {
    pub data: String,
}

/// A consensus call that is ready to be made.
#[derive(Debug, PartialEq)]
pub struct RpcCall {
    pub kind: RpcKind,
    pub target: NodeId,
    pub address: String,
    pub request: RaftRequest,
}

/// How a call ended.
#[derive(Debug, PartialEq)]
pub enum RpcOutcome {
    /// The peer answered.
    Replied(RaftReply),
    /// The call failed on the way.
    CallFailed { reason: String },
    /// The peer's consensus layer refused the call.
    RemoteFailed { reason: String },
}

/// Why a call failed, as the consensus layer is told. The two are kept
/// apart: after a network failure the peer may be tried again; a remote
/// error is the peer's considered answer.
#[derive(Debug, PartialEq)]
pub enum RpcError {
    /// The connection could not be had, the call failed on the way, or the
    /// answer could not be read.
    Network { reason: String },
    /// The peer's consensus layer refused the call.
    RemoteError { target: NodeId, reason: String },
    /// The message to send has no wire form.
    PayloadError { reason: String },
}

/// The address that a node is called at: its address as an `http` URI.
pub open spec fn address_text(addr: Seq<char>) -> Seq<char> {
    seq!['h', 't', 't', 'p', ':', '/', '/'] + addr
}

/// The address that `target_node` is called at.
pub fn address_of(target_node: &Node) -> (address: String)
    ensures
        address@ == address_text(target_node@),
{
    let mut address = String::from_str("http://");
    proof {
        reveal_strlit("http://");
        assert("http://"@ =~= seq!['h', 't', 't', 'p', ':', '/', '/']);
    }
    address.append(target_node.addr.as_str());
    address
}

/// What the consensus layer is told of a call's outcome: the reply's
/// payload, or which of the two kinds of failure it was.
pub open spec fn settled(target: NodeId, outcome: RpcOutcome) -> Result<String, RpcError> {
    match outcome {
        RpcOutcome::Replied(reply) => Ok(reply.data),
        RpcOutcome::CallFailed { reason } => Err(RpcError::Network { reason }),
        RpcOutcome::RemoteFailed { reason } => Err(RpcError::RemoteError { target, reason }),
    }
}

/// Says what a call's outcome means to the consensus layer.
pub fn settle(target: NodeId, outcome: RpcOutcome) -> (r: Result<String, RpcError>)
    ensures
        r == settled(target, outcome),
{
    match outcome {
        RpcOutcome::Replied(reply) => Ok(reply.data),
        RpcOutcome::CallFailed { reason } => Err(RpcError::Network { reason }),
        RpcOutcome::RemoteFailed { reason } => Err(RpcError::RemoteError { target, reason }),
    }
}

/// What the consensus layer is told of a reply once it was read: the
/// message, or a network failure where the reply is no message of the call's
/// kind.
pub open spec fn typed<T>(target: NodeId, outcome: RpcOutcome, read: Result<T, Seq<char>>) -> Result<
    T,
    RpcErrorView,
> {
    match outcome {
        RpcOutcome::Replied(_) => match read {
            Ok(message) => Ok(message),
            Err(reason) => Err(RpcErrorView::Network { reason }),
        },
        RpcOutcome::CallFailed { reason } => Err(RpcErrorView::Network { reason: reason@ }),
        RpcOutcome::RemoteFailed { reason } => Err(
            RpcErrorView::RemoteError { target, reason: reason@ },
        ),
    }
}

/// What a call error holds.
pub enum RpcErrorView {
    Network { reason: Seq<char> },
    RemoteError { target: NodeId, reason: Seq<char> },
    PayloadError { reason: Seq<char> },
}

impl View for RpcError {
    type V = RpcErrorView;

    open spec fn view(&self) -> RpcErrorView {
        match self {
            RpcError::Network { reason } => RpcErrorView::Network { reason: reason@ },
            RpcError::RemoteError { target, reason } => RpcErrorView::RemoteError {
                target: *target,
                reason: reason@,
            },
            RpcError::PayloadError { reason } => RpcErrorView::PayloadError { reason: reason@ },
        }
    }
}

/// Whether a typed result is the one described.
pub open spec fn same_reply<T>(r: Result<T, RpcError>, expected: Result<T, RpcErrorView>) -> bool {
    match expected {
        Ok(message) => r == Ok::<T, RpcError>(message),
        Err(e) => r is Err && r->Err_0@ == e,
    }
}

/// Turns a reply that was read into what the consensus layer is told: a
/// reply that is no message of the call's kind is a network failure.
pub fn typed_reply<T>(read: Result<T, String>) -> (r: Result<T, RpcError>)
    ensures
        match read {
            Ok(message) => r == Ok::<T, RpcError>(message),
            Err(reason) => r == Err::<T, RpcError>(RpcError::Network { reason }),
        },
{
    match read {
        Ok(message) => Ok(message),
        Err(reason) => Err(RpcError::Network { reason }),
    }
}

/// What a vote call's outcome means to the consensus layer.
pub fn read_vote_reply(target: NodeId, outcome: RpcOutcome) -> (r: Result<VoteResponse, RpcError>)
    ensures
        same_reply(
            r,
            typed(
                target,
                outcome,
                match outcome {
                    RpcOutcome::Replied(reply) => vote_response_of_json(reply.data@),
                    _ => Err(Seq::<char>::empty()),
                },
            ),
        ),
{
    match settle(target, outcome) {
        Ok(data) => typed_reply(read_vote_response(data.as_str())),
        Err(e) => Err(e),
    }
}

/// What an append-entries call's outcome means to the consensus layer.
pub fn read_append_entries_reply(target: NodeId, outcome: RpcOutcome) -> (r: Result<
    AppendEntriesResponse,
    RpcError,
>)
    ensures
        same_reply(
            r,
            typed(
                target,
                outcome,
                match outcome {
                    RpcOutcome::Replied(reply) => append_entries_response_of_json(reply.data@),
                    _ => Err(Seq::<char>::empty()),
                },
            ),
        ),
{
    match settle(target, outcome) {
        Ok(data) => typed_reply(read_append_entries_response(data.as_str())),
        Err(e) => Err(e),
    }
}

/// What an install-snapshot call's outcome means to the consensus layer.
pub fn read_install_snapshot_reply(target: NodeId, outcome: RpcOutcome) -> (r: Result<
    InstallSnapshotResponse,
    RpcError,
>)
    ensures
        same_reply(
            r,
            typed(
                target,
                outcome,
                match outcome {
                    RpcOutcome::Replied(reply) => install_snapshot_response_of_json(reply.data@),
                    _ => Err(Seq::<char>::empty()),
                },
            ),
        ),
{
    match settle(target, outcome) {
        Ok(data) => typed_reply(read_install_snapshot_response(data.as_str())),
        Err(e) => Err(e),
    }
}

/// The payload of a vote call: the request as JSON, which reads back as the
/// request. A request without such a text is a payload error.
pub fn vote_payload(request: &VoteRequest) -> (r: Result<String, RpcError>)
    ensures
        match vote_request_text(*request) {
            Ok(text) => r is Ok && r->Ok_0@ == text && vote_request_of_json(text) == Ok::<
                VoteRequest,
                Seq<char>,
            >(*request),
            Err(reason) => r is Err && r->Err_0@ == (RpcErrorView::PayloadError { reason }),
        },
{
    payload_or_error(write_vote_request(request))
}

/// Turns a message that was written into the payload to send: a message
/// without a wire form is a payload error.
pub fn payload_or_error(written: Result<String, String>) -> (r: Result<String, RpcError>)
    ensures
        match written {
            Ok(text) => r == Ok::<String, RpcError>(text),
            Err(reason) => r == Err::<String, RpcError>(RpcError::PayloadError { reason }),
        },
{
    match written {
        Ok(text) => Ok(text),
        Err(reason) => Err(RpcError::PayloadError { reason }),
    }
}

/// What preparing a call leaves behind. With a connection, the call goes to
/// the peer's address and carries the payload; the connection is a copy of
/// the pooled one where the address had one, which leaves the pool as it was,
/// and else the one built now, which is pooled and is all that is new in the
/// pool. Without one, the failure is a network failure, and the pool is as it
/// was.
pub open spec fn prepared<I: Clone>(
    before: Map<Seq<char>, I>,
    after: Map<Seq<char>, I>,
    kind: RpcKind,
    payload: Seq<char>,
    target: NodeId,
    node: Seq<char>,
    r: Result<(I, RpcCall), RpcError>,
) -> bool {
    let key = address_text(node);
    &&& before.contains_key(key) ==> r is Ok && after == before && cloned(before[key], r->Ok_0.0)
    &&& !before.contains_key(key) && r is Ok ==> after == before.insert(key, after[key]) && cloned(
        r->Ok_0.0,
        after[key],
    )
    &&& r is Ok ==> after.contains_key(key) && r->Ok_0.1.kind == kind && r->Ok_0.1.target
        == target && r->Ok_0.1.address@ == key && r->Ok_0.1.request.data@ == payload
    &&& r is Err ==> r->Err_0 is Network && after == before
}

/// The connections to the consensus peers, pooled by address.
pub struct NetworkManager<ItemBuilder: PoolItemBuilder> {
    channel_pool: MutexPool<ItemBuilder>,
}

/// The transport to one peer.
#[derive(Debug, PartialEq)]
pub struct Network {
    target: NodeId,
    target_node: Node,
}

impl<ItemBuilder: PoolItemBuilder> NetworkManager<ItemBuilder> {
    /// The connections pooled, by address.
    pub closed spec fn pool(&self) -> Map<Seq<char>, ItemBuilder::Item> {
        self.channel_pool@
    }

    /// No connection yet; connections are built with `channel_builder`.
    pub fn new(channel_builder: ItemBuilder) -> (r: Self)
        ensures
            r.pool() == Map::<Seq<char>, ItemBuilder::Item>::empty(),
    {
        NetworkManager { channel_pool: MutexPool::new(channel_builder, None) }
    }

    /// The transport to the peer `target`.
    pub fn new_client(&self, target: NodeId, target_node: &Node) -> (r: Network)
        ensures
            r.target() == target,
            r.target_node() == *target_node,
    {
        Network { target, target_node: target_node.clone() }
    }

    /// A pooled connection to `target_node`: a copy of the one cached for
    /// its address, or one built now and cached. A failed build caches
    /// nothing.
    pub fn make_client(&mut self, target_node: &Node) -> (r: Result<
        ItemBuilder::Item,
        ItemBuilder::Error,
    >)
        ensures
            ({
                let key = address_text(target_node@);
                &&& old(self).pool().contains_key(key) ==> r is Ok && cloned(
                    old(self).pool()[key],
                    r->Ok_0,
                ) && final(self).pool() == old(self).pool()
                &&& !old(self).pool().contains_key(key) ==> match r {
                    Ok(item) => final(self).pool().contains_key(key) && cloned(
                        item,
                        final(self).pool()[key],
                    ) && final(self).pool() == after_get(
                        old(self).pool(),
                        key,
                        Some(final(self).pool()[key]),
                    ),
                    Err(_) => final(self).pool() == old(self).pool(),
                }
            }),
    {
        let addr = address_of(target_node);
        self.channel_pool.get(&addr)
    }

    /// Prepares a call of the given kind to a peer: a pooled connection to
    /// the peer and the call to make over it. A connection that cannot be
    /// had is a network failure.
    fn prepare(&mut self, kind: RpcKind, payload: String, target: NodeId, target_node: &Node) -> (r:
        Result<(ItemBuilder::Item, RpcCall), RpcError>)
        ensures
            prepared(old(self).pool(), final(self).pool(), kind, payload@, target, target_node@, r),
    {
        let channel = match self.make_client(target_node) {
            Ok(channel) => channel,
            Err(_) => {
                return Err(
                    RpcError::Network { reason: String::from_str("connection could not be built") },
                );
            },
        };
        Ok(
            (
                channel,
                RpcCall {
                    kind,
                    target,
                    address: address_of(target_node),
                    request: RaftRequest { data: payload },
                },
            ),
        )
    }

    /// Prepares an append-entries call.
    pub fn send_append_entries(&mut self, payload: String, target: NodeId, target_node: &Node) -> (r:
        Result<(ItemBuilder::Item, RpcCall), RpcError>)
        ensures
            prepared(old(self).pool(), final(self).pool(), RpcKind::AppendEntries, payload@, target, target_node@, r),
    {
        self.prepare(RpcKind::AppendEntries, payload, target, target_node)
    }

    /// Prepares an install-snapshot call.
    pub fn send_install_snapshot(&mut self, payload: String, target: NodeId, target_node: &Node) -> (r:
        Result<(ItemBuilder::Item, RpcCall), RpcError>)
        ensures
            prepared(old(self).pool(), final(self).pool(), RpcKind::InstallSnapshot, payload@, target, target_node@, r),
    {
        self.prepare(RpcKind::InstallSnapshot, payload, target, target_node)
    }

    /// Prepares a vote call.
    pub fn send_vote(&mut self, payload: String, target: NodeId, target_node: &Node) -> (r: Result<
        (ItemBuilder::Item, RpcCall),
        RpcError,
    >)
        ensures
            prepared(old(self).pool(), final(self).pool(), RpcKind::Vote, payload@, target, target_node@, r),
    {
        self.prepare(RpcKind::Vote, payload, target, target_node)
    }
}

impl Network {
    /// The peer's id.
    pub closed spec fn target(&self) -> NodeId {
        self.target
    }

    /// The peer's node.
    pub closed spec fn target_node(&self) -> Node {
        self.target_node
    }

    /// The peer's id.
    pub fn target_id(&self) -> (id: NodeId)
        ensures
            id == self.target(),
    {
        self.target
    }

    /// The peer's node.
    pub fn node(&self) -> (node: &Node)
        ensures
            *node == self.target_node(),
    {
        &self.target_node
    }

    /// Prepares an append-entries call to the peer.
    pub fn send_append_entries<ItemBuilder: PoolItemBuilder>(
        &self,
        manager: &mut NetworkManager<ItemBuilder>,
        json: String,
    ) -> (r: Result<(ItemBuilder::Item, RpcCall), RpcError>)
        ensures
            prepared(
                old(manager).pool(),
                final(manager).pool(),
                RpcKind::AppendEntries,
                json@,
                self.target(),
                self.target_node()@,
                r,
            ),
    {
        manager.send_append_entries(json, self.target, &self.target_node)
    }

    /// Prepares an install-snapshot call to the peer.
    pub fn send_install_snapshot<ItemBuilder: PoolItemBuilder>(
        &self,
        manager: &mut NetworkManager<ItemBuilder>,
        json: String,
    ) -> (r: Result<(ItemBuilder::Item, RpcCall), RpcError>)
        ensures
            prepared(
                old(manager).pool(),
                final(manager).pool(),
                RpcKind::InstallSnapshot,
                json@,
                self.target(),
                self.target_node()@,
                r,
            ),
    {
        manager.send_install_snapshot(json, self.target, &self.target_node)
    }

    /// Prepares a vote call to the peer: writes the request as JSON and
    /// prepares the call that carries it. A request without a JSON form is a
    /// payload error, and no connection is asked for.
    pub fn send_vote<ItemBuilder: PoolItemBuilder>(
        &self,
        manager: &mut NetworkManager<ItemBuilder>,
        rpc: &VoteRequest,
    ) -> (r: Result<(ItemBuilder::Item, RpcCall), RpcError>)
        ensures
            match vote_request_text(*rpc) {
                Ok(text) => prepared(
                    old(manager).pool(),
                    final(manager).pool(),
                    RpcKind::Vote,
                    text,
                    self.target(),
                    self.target_node()@,
                    r,
                ),
                Err(reason) => r is Err && r->Err_0@ == (RpcErrorView::PayloadError { reason })
                    && final(manager).pool() == old(manager).pool(),
            },
    {
        let json = match vote_payload(rpc) {
            Ok(json) => json,
            Err(e) => {
                return Err(e);
            },
        };
        manager.send_vote(json, self.target, &self.target_node)
    }
}

/// What the serving side answers to a consensus call: the reply, or an
/// internal-error status that carries the reason.
pub open spec fn served(result: Result<String, String>) -> Result<RaftReply, Status> {
    match result {
        Ok(data) => Ok(RaftReply { data }),
        Err(message) => Err(Status { code: INTERNAL, message }),
    }
}

/// The status code of an internal error.
pub const INTERNAL: i32 = 13;

/// The serving side of the consensus calls.
#[derive(Debug, PartialEq)]
pub struct RaftSvc {}

impl RaftSvc {
    /// The serving side of the consensus calls.
    pub fn new() -> Self {
        RaftSvc {  }
    }

    /// Answers a consensus call with what handling it gave: the serialized
    /// reply, or the reason why the request could not be read, the
    /// consensus layer refused it, or the reply could not be written.
    pub fn reply(&self, result: Result<String, String>) -> (r: Result<RaftReply, Status>)
        ensures
            r == served(result),
    {
        match result {
            Ok(data) => Ok(RaftReply { data }),
            Err(message) => Err(Status { code: INTERNAL, message }),
        }
    }

    /// Reads the request of a vote call. A request that is no vote request
    /// is answered with an internal-error status that carries the reason.
    pub fn vote_request(&self, request: RaftRequest) -> (r: Result<VoteRequest, Status>)
        ensures
            match vote_request_of_json(request.data@) {
                Ok(message) => r == Ok::<VoteRequest, Status>(message),
                Err(reason) => r is Err && r->Err_0.code == INTERNAL && r->Err_0.message@
                    == reason,
            },
    {
        match read_vote_request(request.data.as_str()) {
            Ok(message) => Ok(message),
            Err(message) => Err(Status { code: INTERNAL, message }),
        }
    }

    /// Answers a vote call with what the consensus layer gave: its response
    /// as JSON, which reads back as the response, or an internal-error status
    /// that carries its refusal.
    pub fn vote_reply(&self, result: Result<VoteResponse, String>) -> (r: Result<RaftReply, Status>)
        ensures
            same_served(
                r,
                match result {
                    Ok(response) => vote_response_text(response),
                    Err(message) => Err(message@),
                },
            ),
    {
        match result {
            Ok(response) => self.reply(write_vote_response(&response)),
            Err(message) => self.reply(Err(message)),
        }
    }

    /// Answers an append-entries call with what the consensus layer gave:
    /// its response as JSON, which reads back as the response, or an
    /// internal-error status that carries its refusal.
    pub fn append_entries_reply(&self, result: Result<AppendEntriesResponse, String>) -> (r: Result<
        RaftReply,
        Status,
    >)
        ensures
            same_served(
                r,
                match result {
                    Ok(response) => append_entries_response_text(response),
                    Err(message) => Err(message@),
                },
            ),
    {
        match result {
            Ok(response) => self.reply(write_append_entries_response(&response)),
            Err(message) => self.reply(Err(message)),
        }
    }

    /// Answers an install-snapshot call with what the consensus layer gave:
    /// its response as JSON, which reads back as the response, or an
    /// internal-error status that carries its refusal.
    pub fn install_snapshot_reply(&self, result: Result<InstallSnapshotResponse, String>) -> (r:
        Result<RaftReply, Status>)
        ensures
            same_served(
                r,
                match result {
                    Ok(response) => install_snapshot_response_text(response),
                    Err(message) => Err(message@),
                },
            ),
    {
        match result {
            Ok(response) => self.reply(write_install_snapshot_response(&response)),
            Err(message) => self.reply(Err(message)),
        }
    }
}

/// Whether an answer is the one described: the reply with the given text,
/// or an internal-error status with the given reason.
pub open spec fn same_served(r: Result<RaftReply, Status>, expected: Result<Seq<char>, Seq<char>>) -> bool {
    match expected {
        Ok(text) => r is Ok && r->Ok_0.data@ == text,
        Err(reason) => r is Err && r->Err_0.code == INTERNAL && r->Err_0.message@ == reason,
    }
}

/// A vote response that the serving side answered with is what the caller
/// reads from the reply.
pub proof fn lemma_vote_reply_reads_back(target: NodeId, response: VoteResponse, reply: RaftReply)
    requires
        vote_response_text(response) == Ok::<Seq<char>, Seq<char>>(reply.data@),
    ensures
        typed(target, RpcOutcome::Replied(reply), vote_response_of_json(reply.data@)) == Ok::<
            VoteResponse,
            RpcErrorView,
        >(response),
{
}

/// An append-entries response that the serving side answered with is what
/// the caller reads from the reply.
pub proof fn lemma_append_entries_reply_reads_back(
    target: NodeId,
    response: AppendEntriesResponse,
    reply: RaftReply,
)
    requires
        append_entries_response_text(response) == Ok::<Seq<char>, Seq<char>>(reply.data@),
    ensures
        typed(
            target,
            RpcOutcome::Replied(reply),
            append_entries_response_of_json(reply.data@),
        ) == Ok::<AppendEntriesResponse, RpcErrorView>(response),
{
}

/// An install-snapshot response that the serving side answered with is what
/// the caller reads from the reply.
pub proof fn lemma_install_snapshot_reply_reads_back(
    target: NodeId,
    response: InstallSnapshotResponse,
    reply: RaftReply,
)
    requires
        install_snapshot_response_text(response) == Ok::<Seq<char>, Seq<char>>(reply.data@),
    ensures
        typed(
            target,
            RpcOutcome::Replied(reply),
            install_snapshot_response_of_json(reply.data@),
        ) == Ok::<InstallSnapshotResponse, RpcErrorView>(response),
{
}

} // verus!
