//! Ownership records and the routing decision: deliver a packet to a local
//! session, or forward it to the node that owns the channel.

use crate::channel::{ChannelId, ChannelStatus};
use crate::pool::{MutexPool, PoolItemBuilder};
use crate::session::{deliverable, SharedSession};
use crate::protocol::{
    forward_line_of, forwarded_packet_of, Packet, PacketError, PacketErrorView, PacketView,
    RawPacket,
};
use vstd::prelude::*;
use vstd::string::StringExecFns;

verus! {

/// Identity of a cluster member, as router and as consensus peer.
pub type RouterId = u64;

/// The key under which an ownership record is kept.
pub type Key = ChannelId;

/// A cluster member: its id and the addresses it is reached at.
#[derive(Debug, PartialEq)]
pub struct Router {
    router: RouterId,
    local_address: String,
    remote_addr: String,
}

/// What a `Router` holds.
pub struct RouterView {
    pub router: RouterId,
    pub local_address: Seq<char>,
    pub remote_addr: Seq<char>,
}

impl View for Router {
    type V = RouterView;

    closed spec fn view(&self) -> RouterView {
        RouterView {
            router: self.router,
            local_address: self.local_address@,
            remote_addr: self.remote_addr@,
        }
    }
}

impl Clone for Router {
    fn clone(&self) -> (r: Self)
        ensures
            r == *self,
    {
        Router {
            router: self.router,
            local_address: self.local_address.clone(),
            remote_addr: self.remote_addr.clone(),
        }
    }
}

impl Router {
    /// A cluster member with the given id and addresses.
    pub fn new(router: RouterId, local_address: String, remote_addr: String) -> (r: Self)
        ensures
            r@ == (RouterView {
                router,
                local_address: local_address@,
                remote_addr: remote_addr@,
            }),
    {
        Router { router, local_address, remote_addr }
    }

    /// The member's id.
    pub fn router(&self) -> (id: RouterId)
        ensures
            id == self@.router,
    {
        self.router
    }

    /// The address the member serves clients at.
    pub fn local_address(&self) -> (a: &str)
        ensures
            a@ == self@.local_address,
    {
        self.local_address.as_str()
    }

    /// The address other members forward packets to.
    pub fn remote_addr(&self) -> (a: &str)
        ensures
            a@ == self@.remote_addr,
    {
        self.remote_addr.as_str()
    }
}

/// An ownership record: which member owns a channel, and the channel's
/// status.
#[derive(Debug, PartialEq)]
pub struct Value {
    pub channel_id: ChannelId,
    pub router: Router,
    pub channel_status: ChannelStatus,
}

/// What an ownership record holds.
pub struct ValueView {
    pub channel_id: Seq<char>,
    pub router: RouterView,
    pub channel_status: ChannelStatus,
}

impl View for Value {
    type V = ValueView;

    open spec fn view(&self) -> ValueView {
        ValueView {
            channel_id: self.channel_id@,
            router: self.router@,
            channel_status: self.channel_status,
        }
    }
}

impl Clone for Value {
    fn clone(&self) -> (r: Self)
        ensures
            r == *self,
    {
        Value {
            channel_id: self.channel_id.clone(),
            router: self.router.clone(),
            channel_status: self.channel_status,
        }
    }
}

impl Value {
    /// A copy of the channel id.
    pub fn channel_id(&self) -> (id: ChannelId)
        ensures
            id@ == self@.channel_id,
    {
        self.channel_id.clone()
    }
}

/// Where the ownership records are kept and changed. The router works with
/// whatever a storage hands back.
pub trait RouterStorage {
    /// The record of the channel `key`, if the storage has one.
    fn get_channel_router(&self, key: Key) -> Option<Value>;

    /// Records the owner of a channel and hands back the record now kept.
    fn update_or_insert_channel_node(&mut self, value: Value) -> Value;

    /// Registers a router and hands back the router registered.
    fn router_lease(&mut self, router: RouterId) -> Option<RouterId>;
}

/// The storage of ownership records in Redis. It holds no record itself.
#[derive(Debug, Clone, Copy, PartialEq, Eq)]
pub struct RedisStorage {}

/// The status that a remote call ended with.
#[derive(Debug, PartialEq)]
pub struct Status {
    pub code: i32,
    pub message: String,
}

/// Why a packet was not routed.
#[derive(Debug, PartialEq)]
pub enum RouterError {
    /// The packet has no line form, or the line is no packet.
    SendMessageError(PacketError),
    /// No connection to the owner's address could be had.
    ChannelConnectError,
    /// The remote node answered with an error status.
    ReplyErrorStatus(Status),
    /// No ownership record of the channel is known: the packet is dropped.
    UnknownChannel,
    /// A packet was forwarded here for a channel that this node has no
    /// session of.
    SessionNotFound,
}

/// What a router error holds.
pub enum RouterErrorView {
    SendMessageError(PacketErrorView),
    ChannelConnectError,
    ReplyErrorStatus { code: i32, message: Seq<char> },
    UnknownChannel,
    SessionNotFound,
}

impl View for RouterError {
    type V = RouterErrorView;

    open spec fn view(&self) -> RouterErrorView {
        match self {
            RouterError::SendMessageError(e) => RouterErrorView::SendMessageError(e@),
            RouterError::ChannelConnectError => RouterErrorView::ChannelConnectError,
            RouterError::ReplyErrorStatus(status) => RouterErrorView::ReplyErrorStatus {
                code: status.code,
                message: status.message@,
            },
            RouterError::UnknownChannel => RouterErrorView::UnknownChannel,
            RouterError::SessionNotFound => RouterErrorView::SessionNotFound,
        }
    }
}

/// The request of the forward call between routers.
#[derive(Debug, PartialEq)]
pub struct RouterRequest {
    pub channel_id: String,
    pub packet: String,
}

/// The reply of the forward call between routers.
#[derive(Debug, PartialEq)]
pub struct RouterReply {
    pub packet: String,
}

/// How a packet is to be delivered.
#[derive(Debug, PartialEq)]
pub enum Delivery {
    /// Hand the packet to the local session of the channel.
    Local { channel_id: ChannelId, packet: Packet },
    /// Forward the packet to the router of the node that `owner` names.
    Remote { owner: Value, packet: Packet },
}

/// What a delivery holds.
pub enum DeliveryView {
    Local { channel_id: Seq<char>, packet: PacketView },
    Remote { owner: ValueView, forwarded: PacketView },
}

impl View for Delivery {
    type V = DeliveryView;

    open spec fn view(&self) -> DeliveryView {
        match self {
            Delivery::Local { channel_id, packet } => DeliveryView::Local {
                channel_id: channel_id@,
                packet: packet@,
            },
            Delivery::Remote { owner, packet } => DeliveryView::Remote {
                owner: owner@,
                forwarded: packet@,
            },
        }
    }
}

/// The request that forwards `packet` to the channel `channel_id`.
pub open spec fn forward_request_of(channel_id: Seq<char>, packet: PacketView) -> Result<
    (Seq<char>, Seq<char>),
    RouterErrorView,
> {
    match forward_line_of(packet) {
        Ok(line) => Ok((channel_id, line)),
        Err(e) => Err(RouterErrorView::SendMessageError(e)),
    }
}

/// How the router `router_id` delivers a packet from the client
/// `client_id`, given the ownership record found for the client's channel:
/// without a record the packet is dropped; where this router owns the
/// channel the packet goes to the local session; else it is forwarded to the
/// owner.
pub open spec fn delivery_of(
    router_id: RouterId,
    client_id: Seq<char>,
    packet: PacketView,
    owner: Option<ValueView>,
) -> Result<DeliveryView, RouterErrorView> {
    match owner {
        None => Err(RouterErrorView::UnknownChannel),
        Some(value) => {
            if value.router.router == router_id {
                Ok(DeliveryView::Local { channel_id: client_id, packet })
            } else {
                Ok(DeliveryView::Remote { owner: value, forwarded: packet })
            }
        },
    }
}

/// What the sender makes of the reply to a forward call: the packet that
/// the reply echoes, or the error status.
pub open spec fn reply_packet_of(reply: Result<Seq<char>, (i32, Seq<char>)>) -> Result<
    PacketView,
    RouterErrorView,
> {
    match reply {
        Ok(line) => match forwarded_packet_of(line) {
            Ok(packet) => Ok(packet),
            Err(e) => Err(RouterErrorView::SendMessageError(e)),
        },
        Err(status) => Err(RouterErrorView::ReplyErrorStatus { code: status.0, message: status.1 }),
    }
}

/// What the receiver makes of a forward call: the packet to hand to the
/// local session and the line to echo, or why not.
pub open spec fn received_of(packet_line: Seq<char>, has_session: bool) -> Result<
    (PacketView, Seq<char>),
    RouterErrorView,
> {
    match forwarded_packet_of(packet_line) {
        Err(e) => Err(RouterErrorView::SendMessageError(e)),
        Ok(packet) => {
            if !has_session {
                Err(RouterErrorView::SessionNotFound)
            } else {
                match forward_line_of(packet) {
                    Ok(line) => Ok((packet, line)),
                    Err(e) => Err(RouterErrorView::SendMessageError(e)),
                }
            }
        },
    }
}

/// The request that forwards `packet` to the channel `channel_id`.
pub fn forward_request(channel_id: ChannelId, packet: &Packet) -> (r: Result<
    RouterRequest,
    RouterError,
>)
    ensures
        match forward_request_of(channel_id@, packet@) {
            Ok(request) => r is Ok && r->Ok_0.channel_id@ == request.0 && r->Ok_0.packet@
                == request.1,
            Err(e) => r is Err && r->Err_0@ == e,
        },
{
    match packet.forward_line() {
        Ok(raw) => Ok(RouterRequest { channel_id: channel_id.into_string(), packet: raw }),
        Err(e) => Err(RouterError::SendMessageError(e)),
    }
}

/// What preparing a forward leaves behind. The pool is asked first, for the
/// owner's address. Without a connection the failure is a channel-connect
/// error, whatever the packet, and the pool is as it was. With one, the pool
/// is as it was where the address was pooled, and holds the connection built
/// now, and nothing else new, where it was not; the result is then the
/// request that carries the packet's line to the owner's channel, over a copy
/// of the pooled connection, or the error of a packet without a forward line.
pub open spec fn forwarded<I: Clone>(
    before: Map<Seq<char>, I>,
    after: Map<Seq<char>, I>,
    value: ValueView,
    packet: PacketView,
    r: Result<(I, RouterRequest), RouterError>,
) -> bool {
    let key = value.router.remote_addr;
    ||| ({
        &&& !before.contains_key(key)
        &&& after == before
        &&& r is Err
        &&& r->Err_0@ == RouterErrorView::ChannelConnectError
    })
    ||| ({
        &&& after.contains_key(key)
        &&& if before.contains_key(key) {
            after == before
        } else {
            after == before.insert(key, after[key])
        }
        &&& match forward_request_of(value.channel_id, packet) {
            Ok(request) => {
                &&& r is Ok
                &&& r->Ok_0.1.channel_id@ == request.0
                &&& r->Ok_0.1.packet@ == request.1
                &&& if before.contains_key(key) {
                    cloned(before[key], r->Ok_0.0)
                } else {
                    cloned(r->Ok_0.0, after[key])
                }
            },
            Err(e) => r is Err && r->Err_0@ == e,
        }
    })
}

/// The connections to the other routers, pooled by address.
pub struct Remotes<ItemBuilder: PoolItemBuilder> {
    inner: MutexPool<ItemBuilder>,
}

impl<ItemBuilder: PoolItemBuilder> Remotes<ItemBuilder> {
    /// The connections pooled, by address.
    pub closed spec fn pool(&self) -> Map<Seq<char>, ItemBuilder::Item> {
        self.inner@
    }

    /// No connection yet; connections are built with `channel_builder`.
    pub fn new(channel_builder: ItemBuilder) -> (r: Self)
        ensures
            r.pool() == Map::<Seq<char>, ItemBuilder::Item>::empty(),
    {
        Remotes { inner: MutexPool::new(channel_builder, None) }
    }

    /// Prepares the forwarding of `packet` to the owner that `value` names:
    /// a pooled connection to the owner's address, built now if the address
    /// has none, and the request to send over it. An address that no
    /// connection can be had to is a channel-connect error, whatever the
    /// packet; it is not tried again here. A packet without a forward line is
    /// refused once the connection is had.
    pub fn send(&mut self, value: Value, packet: Packet) -> (r: Result<
        (ItemBuilder::Item, RouterRequest),
        RouterError,
    >)
        ensures
            forwarded(old(self).pool(), final(self).pool(), value@, packet@, r),
    {
        let router_addr = String::from_str(value.router.remote_addr());
        let channel = match self.inner.get(&router_addr) {
            Ok(channel) => channel,
            Err(_) => {
                return Err(RouterError::ChannelConnectError);
            },
        };
        match forward_request(value.channel_id, &packet) {
            Ok(request) => Ok((channel, request)),
            Err(e) => Err(e),
        }
    }

    /// What the reply to a forward call says: the packet echoed, or the
    /// error status of the remote router.
    pub fn receive_reply(reply: Result<RouterReply, Status>) -> (r: Result<Packet, RouterError>)
        ensures
            match reply_packet_of(
                match reply {
                    Ok(rep) => Ok(rep.packet@),
                    Err(status) => Err((status.code, status.message@)),
                },
            ) {
                Ok(packet) => r is Ok && r->Ok_0@ == packet,
                Err(e) => r is Err && r->Err_0@ == e,
            },
    {
        match reply {
            Ok(rep) => match Packet::from_forward_line(rep.packet) {
                Ok(packet) => Ok(packet),
                Err(e) => Err(RouterError::SendMessageError(e)),
            },
            Err(status) => Err(RouterError::ReplyErrorStatus(status)),
        }
    }

    /// Builds the connections to the given routers ahead of use. A router
    /// that cannot be reached is passed over. Connections that were pooled
    /// stay as they were, and none is added but to an address given.
    pub fn init(&mut self, routers: &Vec<(RouterId, String)>)
        ensures
            forall|k: Seq<char>| #[trigger]
                old(self).pool().contains_key(k) ==> final(self).pool().contains_key(k)
                    && final(self).pool()[k] == old(self).pool()[k],
            forall|k: Seq<char>| #[trigger]
                final(self).pool().contains_key(k) ==> old(self).pool().contains_key(k)
                    || exists|i: int| 0 <= i < routers.len() && (#[trigger] routers[i]).1@ == k,
    {
        let mut i: usize = 0;
        while i < routers.len()
            invariant
                i <= routers.len(),
                forall|k: Seq<char>| #[trigger]
                    old(self).pool().contains_key(k) ==> self.pool().contains_key(k)
                        && self.pool()[k] == old(self).pool()[k],
                forall|k: Seq<char>| #[trigger]
                    self.pool().contains_key(k) ==> old(self).pool().contains_key(k)
                        || exists|j: int| 0 <= j < i && (#[trigger] routers[j]).1@ == k,
            decreases routers.len() - i,
        {
            let ghost before = self.pool();
            let _ = self.inner.get(&routers[i].1);
            proof {
                let key = routers[i as int].1@;
                assert forall|k: Seq<char>| #[trigger] self.pool().contains_key(k) implies old(
                    self,
                ).pool().contains_key(k) || exists|j: int|
                    0 <= j < i + 1 && (#[trigger] routers[j]).1@ == k by {
                    if before.contains_key(k) {
                        if !old(self).pool().contains_key(k) {
                            let j = choose|j: int| 0 <= j < i && (#[trigger] routers[j]).1@ == k;
                            assert(0 <= j < i + 1 && routers[j].1@ == k);
                        }
                    } else {
                        assert(k == key);
                        assert(routers[i as int].1@ == k);
                    }
                }
            }
            i = i + 1;
        }
    }
}

/// The sending side of the router of one node.
#[derive(Debug, PartialEq)]
pub struct RouterClient {
    router_id: RouterId,
}

impl RouterClient {
    /// The id of this router.
    pub closed spec fn id(&self) -> RouterId {
        self.router_id
    }

    /// The router of the node `router_id`.
    pub fn new(router_id: RouterId) -> (r: Self)
        ensures
            r.id() == router_id,
    {
        RouterClient { router_id }
    }

    /// The channel that a packet is for: the one named by the client id of
    /// its header.
    pub fn channel_of(raw_packet: &RawPacket) -> (id: ChannelId)
        ensures
            id@ == raw_packet@.0.1,
    {
        ChannelId::new(raw_packet.header().client_id())
    }

    /// Splits local from remote: decides how a packet is delivered, given
    /// the ownership record that the local read found for its channel.
    pub fn route(&self, raw_packet: &RawPacket, owner: Option<Value>) -> (r: Result<
        Delivery,
        RouterError,
    >)
        ensures
            match delivery_of(
                self.id(),
                raw_packet@.0.1,
                raw_packet@.1,
                match owner {
                    Some(v) => Some(v@),
                    None => None,
                },
            ) {
                Ok(d) => r is Ok && r->Ok_0@ == d,
                Err(e) => r is Err && r->Err_0@ == e,
            },
    {
        match owner {
            None => Err(RouterError::UnknownChannel),
            Some(value) => {
                if self.router_id == value.router.router() {
                    Ok(
                        Delivery::Local {
                            channel_id: Self::channel_of(raw_packet),
                            packet: raw_packet.packet(),
                        },
                    )
                } else {
                    Ok(Delivery::Remote { owner: value, packet: raw_packet.packet() })
                }
            },
        }
    }

    /// Looks the owner of the packet's channel up in `storage` and decides
    /// how the packet is delivered. What the storage hands back decides;
    /// `route` says how.
    pub fn send<Storage: RouterStorage>(&self, storage: &Storage, raw_packet: &RawPacket) -> (r:
        Result<Delivery, RouterError>)
        ensures
            match r {
                Ok(Delivery::Local { channel_id, packet }) => channel_id@ == raw_packet@.0.1
                    && packet@ == raw_packet@.1,
                Ok(Delivery::Remote { owner, packet }) => owner@.router.router != self.id()
                    && packet@ == raw_packet@.1,
                Err(e) => e@ == RouterErrorView::UnknownChannel,
            },
    {
        let owner = storage.get_channel_router(Self::channel_of(raw_packet));
        self.route(raw_packet, owner)
    }
}

/// The receiving side of the router of one node.
#[derive(Debug, PartialEq)]
pub struct RouterSvc {}

impl RouterSvc {
    /// The receiving side of a router.
    pub fn new() -> Self {
        RouterSvc {  }
    }

    /// Takes in a packet that another router forwarded: the handle of the
    /// local channel to hand the packet to, the packet, and the reply that
    /// echoes it. A packet that arrives here is never forwarded again: a
    /// channel that this node has no open session of is an error, handed
    /// back to the sender.
    pub fn send_packet<'a, H>(&self, session: &'a SharedSession<H>, request: RouterRequest) -> (r:
        Result<(&'a H, Packet, RouterReply), RouterError>)
        ensures
            match received_of(
                request.packet@,
                deliverable(session@, request.channel_id@) is Some,
            ) {
                Ok(received) => r is Ok && *r->Ok_0.0 == deliverable(
                    session@,
                    request.channel_id@,
                )->Some_0 && r->Ok_0.1@ == received.0 && r->Ok_0.2.packet@ == received.1,
                Err(e) => r is Err && r->Err_0@ == e,
            },
    {
        let packet = match Packet::from_forward_line(request.packet) {
            Ok(packet) => packet,
            Err(e) => {
                return Err(RouterError::SendMessageError(e));
            },
        };
        let channel_id = ChannelId::new(request.channel_id);
        let handle = match session.send(&channel_id) {
            Some(handle) => handle,
            None => {
                return Err(RouterError::SessionNotFound);
            },
        };
        match packet.forward_line() {
            Ok(line) => Ok((handle, packet, RouterReply { packet: line })),
            Err(e) => Err(RouterError::SendMessageError(e)),
        }
    }
}

} // verus!
