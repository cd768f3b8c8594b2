//! The payloads of the forward call that carries a write to the leader: the
//! request, and the leader's response or refusal, in the byte form of this
//! library.

use crate::channel::ChannelId;
use crate::client::{
    ClientWriteError, ClientWriteResponse, ClientWriteResponseView, ForwardReply,
    ForwardReplyView, ForwardToLeader, RaftError, RaftErrorView,
};
use crate::raft::{LogId, Membership, Node, Request, RequestView, Response};
use crate::router::{Value, ValueView};
use crate::wire::{
    decode_whole, encode_text, encode_whole, lemma_occurs_split, lemma_whole_round_trip,
    parsed_whole, Wire,
};
use vstd::prelude::*;

verus! {

impl Wire for Request {
    type Model = RequestView;

    open spec fn model(&self) -> RequestView {
        self@
    }

    open spec fn fits(m: RequestView) -> bool {
        match m {
            RequestView::Connect { value } => Value::fits(value),
            RequestView::DisConnect { value } => Value::fits(value),
            RequestView::GetClientNodeId { channel_id } => String::fits(channel_id),
            RequestView::BrokerShutdown { router_id } => true,
        }
    }

    open spec fn encoded(m: RequestView) -> Seq<u8> {
        match m {
            RequestView::Connect { value } => seq![0u8] + Value::encoded(value),
            RequestView::DisConnect { value } => seq![1u8] + Value::encoded(value),
            RequestView::GetClientNodeId { channel_id } => seq![2u8] + String::encoded(channel_id),
            RequestView::BrokerShutdown { router_id } => seq![3u8] + u64::encoded(router_id),
        }
    }

    open spec fn parsed(b: Seq<u8>, p: int) -> Option<(RequestView, int)> {
        match u8::parsed(b, p) {
            Some((tag, q)) => {
                if tag == 0 {
                    match Value::parsed(b, q) {
                        Some((value, r)) => Some((RequestView::Connect { value }, r)),
                        None => None,
                    }
                } else if tag == 1 {
                    match Value::parsed(b, q) {
                        Some((value, r)) => Some((RequestView::DisConnect { value }, r)),
                        None => None,
                    }
                } else if tag == 2 {
                    match String::parsed(b, q) {
                        Some((channel_id, r)) => Some(
                            (RequestView::GetClientNodeId { channel_id }, r),
                        ),
                        None => None,
                    }
                } else if tag == 3 {
                    match u64::parsed(b, q) {
                        Some((router_id, r)) => Some(
                            (RequestView::BrokerShutdown { router_id }, r),
                        ),
                        None => None,
                    }
                } else {
                    None
                }
            },
            None => None,
        }
    }

    proof fn round_trip(m: RequestView, b: Seq<u8>, p: int) {
        match m {
            RequestView::Connect { value } => {
                lemma_occurs_split(b, p, seq![0u8], Value::encoded(value));
                u8::round_trip(0u8, b, p);
                Value::round_trip(value, b, p + 1);
            },
            RequestView::DisConnect { value } => {
                lemma_occurs_split(b, p, seq![1u8], Value::encoded(value));
                u8::round_trip(1u8, b, p);
                Value::round_trip(value, b, p + 1);
            },
            RequestView::GetClientNodeId { channel_id } => {
                lemma_occurs_split(b, p, seq![2u8], String::encoded(channel_id));
                u8::round_trip(2u8, b, p);
                String::round_trip(channel_id, b, p + 1);
            },
            RequestView::BrokerShutdown { router_id } => {
                lemma_occurs_split(b, p, seq![3u8], u64::encoded(router_id));
                u8::round_trip(3u8, b, p);
                u64::round_trip(router_id, b, p + 1);
            },
        }
    }

    proof fn parsed_advances(b: Seq<u8>, p: int) {
        if p < b.len() {
            Value::parsed_advances(b, p + 1);
            String::parsed_advances(b, p + 1);
            u64::parsed_advances(b, p + 1);
        }
    }

    fn encode(&self, out: &mut Vec<u8>) {
        match self {
            Request::Connect { value } => {
                out.push(0u8);
                value.encode(out);
            },
            Request::DisConnect { value } => {
                out.push(1u8);
                value.encode(out);
            },
            Request::GetClientNodeId { channel_id } => {
                out.push(2u8);
                encode_text(channel_id.as_str(), out);
            },
            Request::BrokerShutdown { router_id } => {
                out.push(3u8);
                router_id.encode(out);
            },
        }
        proof {
            assert(final(out)@ =~= old(out)@ + Self::encoded(self.model()));
        }
    }

    fn decode(b: &Vec<u8>, p: usize) -> (r: Option<(Self, usize)>) {
        if p >= b.len() {
            return None;
        }
        let tag = b[p];
        if tag == 0 {
            match Value::decode(b, p + 1) {
                Some((value, r)) => Some((Request::Connect { value }, r)),
                None => None,
            }
        } else if tag == 1 {
            match Value::decode(b, p + 1) {
                Some((value, r)) => Some((Request::DisConnect { value }, r)),
                None => None,
            }
        } else if tag == 2 {
            match String::decode(b, p + 1) {
                Some((id, r)) => Some(
                    (Request::GetClientNodeId { channel_id: ChannelId::new(id) }, r),
                ),
                None => None,
            }
        } else if tag == 3 {
            match u64::decode(b, p + 1) {
                Some((router_id, r)) => Some((Request::BrokerShutdown { router_id }, r)),
                None => None,
            }
        } else {
            None
        }
    }
}

/// A write response as the values it is written as.
pub open spec fn response_fields(m: ClientWriteResponseView) -> (
    LogId,
    (Option<ValueView>, Option<crate::raft::MembershipView>),
) {
    (m.log_id, (m.data, m.membership))
}

impl Wire for ClientWriteResponse {
    type Model = ClientWriteResponseView;

    open spec fn model(&self) -> ClientWriteResponseView {
        self@
    }

    open spec fn fits(m: ClientWriteResponseView) -> bool {
        <(LogId, (Option<Value>, Option<Membership>))>::fits(response_fields(m))
    }

    open spec fn encoded(m: ClientWriteResponseView) -> Seq<u8> {
        <(LogId, (Option<Value>, Option<Membership>))>::encoded(response_fields(m))
    }

    open spec fn parsed(b: Seq<u8>, p: int) -> Option<(ClientWriteResponseView, int)> {
        match <(LogId, (Option<Value>, Option<Membership>))>::parsed(b, p) {
            Some((t, q)) => Some(
                (ClientWriteResponseView { log_id: t.0, data: t.1.0, membership: t.1.1 }, q),
            ),
            None => None,
        }
    }

    proof fn round_trip(m: ClientWriteResponseView, b: Seq<u8>, p: int) {
        <(LogId, (Option<Value>, Option<Membership>))>::round_trip(response_fields(m), b, p);
    }

    proof fn parsed_advances(b: Seq<u8>, p: int) {
        <(LogId, (Option<Value>, Option<Membership>))>::parsed_advances(b, p);
    }

    fn encode(&self, out: &mut Vec<u8>) {
        self.log_id.encode(out);
        self.data.value.encode(out);
        self.membership.encode(out);
        proof {
            assert(final(out)@ =~= old(out)@ + Self::encoded(self.model()));
        }
    }

    fn decode(b: &Vec<u8>, p: usize) -> (r: Option<(Self, usize)>) {
        match <(LogId, (Option<Value>, Option<Membership>))>::decode(b, p) {
            Some((t, q)) => {
                let (log_id, (value, membership)) = t;
                Some((ClientWriteResponse { log_id, data: Response::new(value), membership }, q))
            },
            None => None,
        }
    }
}

impl Wire for RaftError {
    type Model = RaftErrorView;

    open spec fn model(&self) -> RaftErrorView {
        self@
    }

    open spec fn fits(m: RaftErrorView) -> bool {
        match m {
            RaftErrorView::ForwardToLeader { leader_id, leader_node } => <(
                Option<u64>,
                Option<String>,
            )>::fits((leader_id, leader_node)),
            RaftErrorView::ChangeMembershipError(reason) => String::fits(reason),
            RaftErrorView::Fatal(reason) => String::fits(reason),
        }
    }

    open spec fn encoded(m: RaftErrorView) -> Seq<u8> {
        match m {
            RaftErrorView::ForwardToLeader { leader_id, leader_node } => seq![0u8] + <(
                Option<u64>,
                Option<String>,
            )>::encoded((leader_id, leader_node)),
            RaftErrorView::ChangeMembershipError(reason) => seq![1u8] + String::encoded(reason),
            RaftErrorView::Fatal(reason) => seq![2u8] + String::encoded(reason),
        }
    }

    open spec fn parsed(b: Seq<u8>, p: int) -> Option<(RaftErrorView, int)> {
        match u8::parsed(b, p) {
            Some((tag, q)) => {
                if tag == 0 {
                    match <(Option<u64>, Option<String>)>::parsed(b, q) {
                        Some((t, r)) => Some(
                            (RaftErrorView::ForwardToLeader { leader_id: t.0, leader_node: t.1 }, r),
                        ),
                        None => None,
                    }
                } else if tag == 1 {
                    match String::parsed(b, q) {
                        Some((reason, r)) => Some((RaftErrorView::ChangeMembershipError(reason), r)),
                        None => None,
                    }
                } else if tag == 2 {
                    match String::parsed(b, q) {
                        Some((reason, r)) => Some((RaftErrorView::Fatal(reason), r)),
                        None => None,
                    }
                } else {
                    None
                }
            },
            None => None,
        }
    }

    proof fn round_trip(m: RaftErrorView, b: Seq<u8>, p: int) {
        match m {
            RaftErrorView::ForwardToLeader { leader_id, leader_node } => {
                lemma_occurs_split(
                    b,
                    p,
                    seq![0u8],
                    <(Option<u64>, Option<String>)>::encoded((leader_id, leader_node)),
                );
                u8::round_trip(0u8, b, p);
                <(Option<u64>, Option<String>)>::round_trip((leader_id, leader_node), b, p + 1);
            },
            RaftErrorView::ChangeMembershipError(reason) => {
                lemma_occurs_split(b, p, seq![1u8], String::encoded(reason));
                u8::round_trip(1u8, b, p);
                String::round_trip(reason, b, p + 1);
            },
            RaftErrorView::Fatal(reason) => {
                lemma_occurs_split(b, p, seq![2u8], String::encoded(reason));
                u8::round_trip(2u8, b, p);
                String::round_trip(reason, b, p + 1);
            },
        }
    }

    proof fn parsed_advances(b: Seq<u8>, p: int) {
        if p < b.len() {
            <(Option<u64>, Option<String>)>::parsed_advances(b, p + 1);
            String::parsed_advances(b, p + 1);
        }
    }

    fn encode(&self, out: &mut Vec<u8>) {
        match self {
            RaftError::APIError(ClientWriteError::ForwardToLeader(f)) => {
                out.push(0u8);
                f.leader_id.encode(out);
                match &f.leader_node {
                    Some(node) => {
                        out.push(1u8);
                        encode_text(node.addr.as_str(), out);
                    },
                    None => {
                        out.push(0u8);
                    },
                }
            },
            RaftError::APIError(ClientWriteError::ChangeMembershipError(reason)) => {
                out.push(1u8);
                encode_text(reason.as_str(), out);
            },
            RaftError::Fatal(reason) => {
                out.push(2u8);
                encode_text(reason.as_str(), out);
            },
        }
        proof {
            assert(final(out)@ =~= old(out)@ + Self::encoded(self.model()));
        }
    }

    fn decode(b: &Vec<u8>, p: usize) -> (r: Option<(Self, usize)>) {
        if p >= b.len() {
            return None;
        }
        let tag = b[p];
        if tag == 0 {
            match <(Option<u64>, Option<String>)>::decode(b, p + 1) {
                Some((t, r)) => {
                    let (leader_id, addr) = t;
                    let leader_node = match addr {
                        Some(addr) => Some(Node { addr }),
                        None => None,
                    };
                    Some(
                        (
                            RaftError::APIError(
                                ClientWriteError::ForwardToLeader(
                                    ForwardToLeader { leader_id, leader_node },
                                ),
                            ),
                            r,
                        ),
                    )
                },
                None => None,
            }
        } else if tag == 1 {
            match String::decode(b, p + 1) {
                Some((reason, r)) => Some(
                    (RaftError::APIError(ClientWriteError::ChangeMembershipError(reason)), r),
                ),
                None => None,
            }
        } else if tag == 2 {
            match String::decode(b, p + 1) {
                Some((reason, r)) => Some((RaftError::Fatal(reason), r)),
                None => None,
            }
        } else {
            None
        }
    }
}

/// The request of the forward call.
#[derive(Debug, PartialEq)]
pub struct RaftClientRequest {
    pub inner: Vec<u8>,
}

/// The reply of the forward call: the response in `inner`, or, where
/// `inner` is empty, the refusal in `error`.
#[derive(Debug, PartialEq)]
pub struct RaftClientReply {
    pub inner: Vec<u8>,
    pub error: Vec<u8>,
}

/// The reply that carries what the leader's consensus layer gave.
pub open spec fn reply_of(result: Result<ClientWriteResponseView, RaftErrorView>) -> (
    Seq<u8>,
    Seq<u8>,
) {
    match result {
        Ok(response) => (ClientWriteResponse::encoded(response), Seq::<u8>::empty()),
        Err(e) => (Seq::<u8>::empty(), RaftError::encoded(e)),
    }
}

/// What a reply says: a response where `inner` holds one, else the refusal
/// that `error` holds; a reply that holds neither cannot be read.
pub open spec fn reply_read(inner: Seq<u8>, error: Seq<u8>) -> ForwardReplyView {
    if inner.len() > 0 {
        match parsed_whole::<ClientWriteResponse>(inner) {
            Some(response) => ForwardReplyView::Written(response),
            None => ForwardReplyView::Undecodable,
        }
    } else {
        match parsed_whole::<RaftError>(error) {
            Some(e) => ForwardReplyView::Refused(e),
            None => ForwardReplyView::Undecodable,
        }
    }
}

/// What the sender reads from a reply is what the leader put in it.
pub proof fn lemma_reply_round_trip(result: Result<ClientWriteResponseView, RaftErrorView>)
    requires
        match result {
            Ok(response) => ClientWriteResponse::fits(response),
            Err(e) => RaftError::fits(e),
        },
    ensures
        reply_read(reply_of(result).0, reply_of(result).1) == match result {
            Ok(response) => ForwardReplyView::Written(response),
            Err(e) => ForwardReplyView::Refused(e),
        },
{
    match result {
        Ok(response) => {
            lemma_whole_round_trip::<ClientWriteResponse>(response);
            assert(<(u64, (u64, u64))>::encoded(crate::snapshot::log_id_numbers(response.log_id)).len()
                >= 8) by {
                vstd::bytes::lemma_auto_spec_u64_to_from_le_bytes();
            }
        },
        Err(e) => {
            lemma_whole_round_trip::<RaftError>(e);
        },
    }
}

/// A request read back from its byte form is the request that was written.
pub proof fn lemma_request_round_trip(request: RequestView)
    requires
        Request::fits(request),
    ensures
        parsed_whole::<Request>(Request::encoded(request)) == Some(request),
{
    lemma_whole_round_trip::<Request>(request);
}

/// The forward call's request that carries `request`.
pub fn forward_write(request: &Request) -> (r: RaftClientRequest)
    ensures
        r.inner@ == Request::encoded(request@),
        parsed_whole::<Request>(r.inner@) == Some(request@),
{
    RaftClientRequest { inner: encode_whole(request) }
}

/// The write that a forward call's request carries, if it carries one.
pub fn read_forward_write(request: &RaftClientRequest) -> (r: Option<Request>)
    ensures
        match parsed_whole::<Request>(request.inner@) {
            Some(m) => r is Some && r->Some_0@ == m,
            None => r is None,
        },
{
    decode_whole::<Request>(&request.inner)
}

/// The serving side of the forward call.
#[derive(Debug, PartialEq)]
pub struct RaftClientSvc {}

impl RaftClientSvc {
    /// The serving side of the forward call.
    pub fn new() -> Self {
        RaftClientSvc {  }
    }

    /// The reply that carries what the consensus layer gave: the response,
    /// or the refusal, which may be a redirect to the leader.
    pub fn forward(&self, result: &Result<ClientWriteResponse, RaftError>) -> (r: RaftClientReply)
        ensures
            (r.inner@, r.error@) == reply_of(
                match result {
                    Ok(response) => Ok(response@),
                    Err(e) => Err(e@),
                },
            ),
            reply_read(r.inner@, r.error@) == match result {
                Ok(response) => ForwardReplyView::Written(response@),
                Err(e) => ForwardReplyView::Refused(e@),
            },
    {
        match result {
            Ok(response) => {
                let inner = encode_whole(response);
                proof {
                    lemma_reply_round_trip(Ok(response@));
                }
                RaftClientReply { inner, error: Vec::new() }
            },
            Err(e) => {
                let error = encode_whole(e);
                proof {
                    lemma_reply_round_trip(Err(e@));
                }
                RaftClientReply { inner: Vec::new(), error }
            },
        }
    }
}

/// What the sender of a forwarded write reads from the reply.
pub fn read_forward_reply(reply: &RaftClientReply) -> (r: ForwardReply)
    ensures
        r@ == reply_read(reply.inner@, reply.error@),
{
    if reply.inner.len() > 0 {
        match decode_whole::<ClientWriteResponse>(&reply.inner) {
            Some(response) => ForwardReply::Written(response),
            None => ForwardReply::Undecodable,
        }
    } else {
        match decode_whole::<RaftError>(&reply.error) {
            Some(e) => ForwardReply::Refused(e),
            None => ForwardReply::Undecodable,
        }
    }
}

} // verus!
