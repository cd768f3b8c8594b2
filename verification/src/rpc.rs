//! The consensus messages that this library reads and writes itself, and
//! their JSON forms on the wire.

use crate::raft::{LeaderId, LogId, Vote};
use openraft::raft::{
    AppendEntriesResponse as PeerAppendEntriesResponse,
    InstallSnapshotResponse as PeerInstallSnapshotResponse, VoteRequest as PeerVoteRequest,
    VoteResponse as PeerVoteResponse,
};
use openraft::{LeaderId as PeerLeaderId, LogId as PeerLogId, Vote as PeerVote};
use vstd::prelude::*;
use vstd::string::StringExecFns;

verus! {

/// A candidate's request for a vote.
#[derive(Debug, Clone, Copy, PartialEq, Eq, Structural)]
pub struct VoteRequest {
    pub vote: Vote,
    pub last_log_id: Option<LogId>,
}

/// The answer to a request for a vote.
#[derive(Debug, Clone, Copy, PartialEq, Eq, Structural)]
pub struct VoteResponse {
    /// The vote of the node that answered, after it handled the request.
    pub vote: Vote,
    /// Whether the candidate got the vote.
    pub vote_granted: bool,
    /// The last log id that the node that answered holds.
    pub last_log_id: Option<LogId>,
}

/// The answer to an append-entries call.
#[derive(Debug, Clone, Copy, PartialEq, Eq, Structural)]
pub enum AppendEntriesResponse {
    /// Every entry was replicated.
    Success,
    /// The entries up to the given log id were replicated.
    PartialSuccess(Option<LogId>),
    /// The entry before the first one sent does not match on the peer.
    Conflict,
    /// The peer has seen a higher vote.
    HigherVote(Vote),
}

/// The answer to an install-snapshot call.
#[derive(Debug, Clone, Copy, PartialEq, Eq, Structural)]
pub struct InstallSnapshotResponse {
    pub vote: Vote,
}

/// The vote request that a JSON text denotes, or why it denotes none.
pub uninterp spec fn vote_request_of_json(data: Seq<char>) -> Result<VoteRequest, Seq<char>>;

/// The vote response that a JSON text denotes, or why it denotes none.
pub uninterp spec fn vote_response_of_json(data: Seq<char>) -> Result<VoteResponse, Seq<char>>;

/// The append-entries response that a JSON text denotes, or why it denotes
/// none.
pub uninterp spec fn append_entries_response_of_json(data: Seq<char>) -> Result<
    AppendEntriesResponse,
    Seq<char>,
>;

/// The install-snapshot response that a JSON text denotes, or why it denotes
/// none.
pub uninterp spec fn install_snapshot_response_of_json(data: Seq<char>) -> Result<
    InstallSnapshotResponse,
    Seq<char>,
>;

/// The JSON text of a vote request, or why it has none.
pub uninterp spec fn json_of_vote_request(request: VoteRequest) -> Result<Seq<char>, Seq<char>>;

/// The JSON text of a vote response, or why it has none.
pub uninterp spec fn json_of_vote_response(response: VoteResponse) -> Result<Seq<char>, Seq<char>>;

/// The JSON text of an append-entries response, or why it has none.
pub uninterp spec fn json_of_append_entries_response(response: AppendEntriesResponse) -> Result<
    Seq<char>,
    Seq<char>,
>;

/// The JSON text of an install-snapshot response, or why it has none.
pub uninterp spec fn json_of_install_snapshot_response(
    response: InstallSnapshotResponse,
) -> Result<Seq<char>, Seq<char>>;

/// Whether a text result is what was named: the same text on success, the
/// same reason on failure.
pub open spec fn same_text(r: Result<String, String>, named: Result<Seq<char>, Seq<char>>) -> bool {
    match named {
        Ok(text) => r is Ok && r->Ok_0@ == text,
        Err(reason) => r is Err && r->Err_0@ == reason,
    }
}

/// Whether a read result is what was named: the same message on success,
/// the same reason on failure.
pub open spec fn same_message<T>(r: Result<T, String>, named: Result<T, Seq<char>>) -> bool {
    match named {
        Ok(message) => r == Ok::<T, String>(message),
        Err(reason) => r is Err && r->Err_0@ == reason,
    }
}

/// Reads a vote request from JSON with `serde_json::from_str`, as
/// `openraft::raft::VoteRequest<u64>`: the result is a function of the text
/// alone, the message read or the parser's error message.
#[verifier::external_body]
fn vote_request_from_json(data: &str) -> (r: Result<VoteRequest, String>)
    ensures
        same_message(r, vote_request_of_json(data@)),
{
    match serde_json::from_str::<PeerVoteRequest<u64>>(data) {
        Ok(m) => Ok(VoteRequest {
            vote: Vote { leader_id: LeaderId { term: m.vote.leader_id.term, node_id: m.vote.leader_id.node_id }, committed: m.vote.committed },
            last_log_id: m.last_log_id.map(|l| LogId { leader_id: LeaderId { term: l.leader_id.term, node_id: l.leader_id.node_id }, index: l.index }),
        }),
        Err(e) => Err(e.to_string()),
    }
}

/// Reads a vote response from JSON with `serde_json::from_str`, as
/// `openraft::raft::VoteResponse<u64>`: the result is a function of the text
/// alone, the message read or the parser's error message.
#[verifier::external_body]
fn vote_response_from_json(data: &str) -> (r: Result<VoteResponse, String>)
    ensures
        same_message(r, vote_response_of_json(data@)),
{
    match serde_json::from_str::<PeerVoteResponse<u64>>(data) {
        Ok(m) => Ok(VoteResponse {
            vote: Vote { leader_id: LeaderId { term: m.vote.leader_id.term, node_id: m.vote.leader_id.node_id }, committed: m.vote.committed },
            vote_granted: m.vote_granted,
            last_log_id: m.last_log_id.map(|l| LogId { leader_id: LeaderId { term: l.leader_id.term, node_id: l.leader_id.node_id }, index: l.index }),
        }),
        Err(e) => Err(e.to_string()),
    }
}

/// Reads an append-entries response from JSON with `serde_json::from_str`,
/// as `openraft::raft::AppendEntriesResponse<u64>`: the result is a function
/// of the text alone, the message read or the parser's error message.
#[verifier::external_body]
fn append_entries_response_from_json(data: &str) -> (r: Result<
    AppendEntriesResponse,
    String,
>)
    ensures
        same_message(r, append_entries_response_of_json(data@)),
{
    match serde_json::from_str::<PeerAppendEntriesResponse<u64>>(data) {
        Ok(PeerAppendEntriesResponse::Success) => Ok(AppendEntriesResponse::Success),
        Ok(PeerAppendEntriesResponse::PartialSuccess(id)) => Ok(AppendEntriesResponse::PartialSuccess(
            id.map(|l| LogId { leader_id: LeaderId { term: l.leader_id.term, node_id: l.leader_id.node_id }, index: l.index }),
        )),
        Ok(PeerAppendEntriesResponse::Conflict) => Ok(AppendEntriesResponse::Conflict),
        Ok(PeerAppendEntriesResponse::HigherVote(v)) => Ok(AppendEntriesResponse::HigherVote(
            Vote { leader_id: LeaderId { term: v.leader_id.term, node_id: v.leader_id.node_id }, committed: v.committed },
        )),
        Err(e) => Err(e.to_string()),
    }
}

/// Reads an install-snapshot response from JSON with `serde_json::from_str`,
/// as `openraft::raft::InstallSnapshotResponse<u64>`: the result is a
/// function of the text alone, the message read or the parser's error
/// message.
#[verifier::external_body]
fn install_snapshot_response_from_json(data: &str) -> (r: Result<
    InstallSnapshotResponse,
    String,
>)
    ensures
        same_message(r, install_snapshot_response_of_json(data@)),
{
    match serde_json::from_str::<PeerInstallSnapshotResponse<u64>>(data) {
        Ok(m) => Ok(InstallSnapshotResponse {
            vote: Vote { leader_id: LeaderId { term: m.vote.leader_id.term, node_id: m.vote.leader_id.node_id }, committed: m.vote.committed },
        }),
        Err(e) => Err(e.to_string()),
    }
}

/// Writes a vote request as JSON with `serde_json::to_string`, as
/// `openraft::raft::VoteRequest<u64>`: the result is a function of the
/// message alone, the text or the writer's error message.
#[verifier::external_body]
fn vote_request_to_json(request: &VoteRequest) -> (r: Result<String, String>)
    ensures
        same_text(r, json_of_vote_request(*request)),
{
    let m = PeerVoteRequest::<u64> {
        vote: PeerVote { leader_id: PeerLeaderId { term: request.vote.leader_id.term, node_id: request.vote.leader_id.node_id }, committed: request.vote.committed },
        last_log_id: request.last_log_id.map(|l| PeerLogId { leader_id: PeerLeaderId { term: l.leader_id.term, node_id: l.leader_id.node_id }, index: l.index }),
    };
    serde_json::to_string(&m).map_err(|e| e.to_string())
}

/// Writes a vote response as JSON with `serde_json::to_string`, as
/// `openraft::raft::VoteResponse<u64>`: the result is a function of the
/// message alone, the text or the writer's error message.
#[verifier::external_body]
fn vote_response_to_json(response: &VoteResponse) -> (r: Result<String, String>)
    ensures
        same_text(r, json_of_vote_response(*response)),
{
    let m = PeerVoteResponse::<u64> {
        vote: PeerVote { leader_id: PeerLeaderId { term: response.vote.leader_id.term, node_id: response.vote.leader_id.node_id }, committed: response.vote.committed },
        vote_granted: response.vote_granted,
        last_log_id: response.last_log_id.map(|l| PeerLogId { leader_id: PeerLeaderId { term: l.leader_id.term, node_id: l.leader_id.node_id }, index: l.index }),
    };
    serde_json::to_string(&m).map_err(|e| e.to_string())
}

/// Writes an append-entries response as JSON with `serde_json::to_string`,
/// as `openraft::raft::AppendEntriesResponse<u64>`: the result is a function
/// of the message alone, the text or the writer's error message.
#[verifier::external_body]
fn append_entries_response_to_json(response: &AppendEntriesResponse) -> (r: Result<
    String,
    String,
>)
    ensures
        same_text(r, json_of_append_entries_response(*response)),
{
    let m = match *response {
        AppendEntriesResponse::Success => PeerAppendEntriesResponse::<u64>::Success,
        AppendEntriesResponse::PartialSuccess(id) => PeerAppendEntriesResponse::PartialSuccess(
            id.map(|l| PeerLogId { leader_id: PeerLeaderId { term: l.leader_id.term, node_id: l.leader_id.node_id }, index: l.index }),
        ),
        AppendEntriesResponse::Conflict => PeerAppendEntriesResponse::Conflict,
        AppendEntriesResponse::HigherVote(v) => PeerAppendEntriesResponse::HigherVote(
            PeerVote { leader_id: PeerLeaderId { term: v.leader_id.term, node_id: v.leader_id.node_id }, committed: v.committed },
        ),
    };
    serde_json::to_string(&m).map_err(|e| e.to_string())
}

/// Writes an install-snapshot response as JSON with `serde_json::to_string`,
/// as `openraft::raft::InstallSnapshotResponse<u64>`: the result is a
/// function of the message alone, the text or the writer's error message.
#[verifier::external_body]
fn install_snapshot_response_to_json(response: &InstallSnapshotResponse) -> (r: Result<
    String,
    String,
>)
    ensures
        same_text(r, json_of_install_snapshot_response(*response)),
{
    let m = PeerInstallSnapshotResponse::<u64> {
        vote: PeerVote { leader_id: PeerLeaderId { term: response.vote.leader_id.term, node_id: response.vote.leader_id.node_id }, committed: response.vote.committed },
    };
    serde_json::to_string(&m).map_err(|e| e.to_string())
}

/// Why a message is not sent although it has a JSON text: the text does not
/// read back as the message.
pub open spec fn unreadable() -> Seq<char> {
    "the message does not read back as it was written"@
}

/// The text that a vote request is sent as: its JSON text, where that text reads
/// back as the message. A message without such a text is not sent.
pub open spec fn vote_request_text(message: VoteRequest) -> Result<Seq<char>, Seq<char>> {
    match json_of_vote_request(message) {
        Ok(text) => if vote_request_of_json(text) == Ok::<VoteRequest, Seq<char>>(message) {
            Ok(text)
        } else {
            Err(unreadable())
        },
        Err(reason) => Err(reason),
    }
}

/// The text that a vote request is sent as reads back as the message.
pub proof fn lemma_vote_request_round_trip(message: VoteRequest)
    ensures
        vote_request_text(message) is Ok ==> vote_request_of_json(vote_request_text(message)->Ok_0) == Ok::<
            VoteRequest,
            Seq<char>,
        >(message),
{
}

/// Writes a vote request as the text it is sent as: the message is written as
/// JSON and read back, and a text that does not give the message back is
/// refused.
pub fn write_vote_request(message: &VoteRequest) -> (r: Result<String, String>)
    ensures
        same_text(r, vote_request_text(*message)),
        r is Ok ==> vote_request_of_json(r->Ok_0@) == Ok::<VoteRequest, Seq<char>>(*message),
{
    let text = match vote_request_to_json(message) {
        Ok(text) => text,
        Err(reason) => {
            return Err(reason);
        },
    };
    match vote_request_from_json(text.as_str()) {
        Ok(back) => {
            if back == *message {
                Ok(text)
            } else {
                Err(String::from_str("the message does not read back as it was written"))
            }
        },
        Err(_) => Err(String::from_str("the message does not read back as it was written")),
    }
}

/// Reads a vote request from the text it was sent as.
pub fn read_vote_request(data: &str) -> (r: Result<VoteRequest, String>)
    ensures
        same_message(r, vote_request_of_json(data@)),
{
    vote_request_from_json(data)
}

/// The text that a vote response is sent as: its JSON text, where that text reads
/// back as the message. A message without such a text is not sent.
pub open spec fn vote_response_text(message: VoteResponse) -> Result<Seq<char>, Seq<char>> {
    match json_of_vote_response(message) {
        Ok(text) => if vote_response_of_json(text) == Ok::<VoteResponse, Seq<char>>(message) {
            Ok(text)
        } else {
            Err(unreadable())
        },
        Err(reason) => Err(reason),
    }
}

/// The text that a vote response is sent as reads back as the message.
pub proof fn lemma_vote_response_round_trip(message: VoteResponse)
    ensures
        vote_response_text(message) is Ok ==> vote_response_of_json(vote_response_text(message)->Ok_0) == Ok::<
            VoteResponse,
            Seq<char>,
        >(message),
{
}

/// Writes a vote response as the text it is sent as: the message is written as
/// JSON and read back, and a text that does not give the message back is
/// refused.
pub fn write_vote_response(message: &VoteResponse) -> (r: Result<String, String>)
    ensures
        same_text(r, vote_response_text(*message)),
        r is Ok ==> vote_response_of_json(r->Ok_0@) == Ok::<VoteResponse, Seq<char>>(*message),
{
    let text = match vote_response_to_json(message) {
        Ok(text) => text,
        Err(reason) => {
            return Err(reason);
        },
    };
    match vote_response_from_json(text.as_str()) {
        Ok(back) => {
            if back == *message {
                Ok(text)
            } else {
                Err(String::from_str("the message does not read back as it was written"))
            }
        },
        Err(_) => Err(String::from_str("the message does not read back as it was written")),
    }
}

/// Reads a vote response from the text it was sent as.
pub fn read_vote_response(data: &str) -> (r: Result<VoteResponse, String>)
    ensures
        same_message(r, vote_response_of_json(data@)),
{
    vote_response_from_json(data)
}

/// The text that an append-entries response is sent as: its JSON text, where that text reads
/// back as the message. A message without such a text is not sent.
pub open spec fn append_entries_response_text(message: AppendEntriesResponse) -> Result<Seq<char>, Seq<char>> {
    match json_of_append_entries_response(message) {
        Ok(text) => if append_entries_response_of_json(text) == Ok::<AppendEntriesResponse, Seq<char>>(message) {
            Ok(text)
        } else {
            Err(unreadable())
        },
        Err(reason) => Err(reason),
    }
}

/// The text that an append-entries response is sent as reads back as the message.
pub proof fn lemma_append_entries_response_round_trip(message: AppendEntriesResponse)
    ensures
        append_entries_response_text(message) is Ok ==> append_entries_response_of_json(append_entries_response_text(message)->Ok_0) == Ok::<
            AppendEntriesResponse,
            Seq<char>,
        >(message),
{
}

/// Writes an append-entries response as the text it is sent as: the message is written as
/// JSON and read back, and a text that does not give the message back is
/// refused.
pub fn write_append_entries_response(message: &AppendEntriesResponse) -> (r: Result<String, String>)
    ensures
        same_text(r, append_entries_response_text(*message)),
        r is Ok ==> append_entries_response_of_json(r->Ok_0@) == Ok::<AppendEntriesResponse, Seq<char>>(*message),
{
    let text = match append_entries_response_to_json(message) {
        Ok(text) => text,
        Err(reason) => {
            return Err(reason);
        },
    };
    match append_entries_response_from_json(text.as_str()) {
        Ok(back) => {
            if back == *message {
                Ok(text)
            } else {
                Err(String::from_str("the message does not read back as it was written"))
            }
        },
        Err(_) => Err(String::from_str("the message does not read back as it was written")),
    }
}

/// Reads an append-entries response from the text it was sent as.
pub fn read_append_entries_response(data: &str) -> (r: Result<AppendEntriesResponse, String>)
    ensures
        same_message(r, append_entries_response_of_json(data@)),
{
    append_entries_response_from_json(data)
}

/// The text that an install-snapshot response is sent as: its JSON text, where that text reads
/// back as the message. A message without such a text is not sent.
pub open spec fn install_snapshot_response_text(message: InstallSnapshotResponse) -> Result<Seq<char>, Seq<char>> {
    match json_of_install_snapshot_response(message) {
        Ok(text) => if install_snapshot_response_of_json(text) == Ok::<InstallSnapshotResponse, Seq<char>>(message) {
            Ok(text)
        } else {
            Err(unreadable())
        },
        Err(reason) => Err(reason),
    }
}

/// The text that an install-snapshot response is sent as reads back as the message.
pub proof fn lemma_install_snapshot_response_round_trip(message: InstallSnapshotResponse)
    ensures
        install_snapshot_response_text(message) is Ok ==> install_snapshot_response_of_json(install_snapshot_response_text(message)->Ok_0) == Ok::<
            InstallSnapshotResponse,
            Seq<char>,
        >(message),
{
}

/// Writes an install-snapshot response as the text it is sent as: the message is written as
/// JSON and read back, and a text that does not give the message back is
/// refused.
pub fn write_install_snapshot_response(message: &InstallSnapshotResponse) -> (r: Result<String, String>)
    ensures
        same_text(r, install_snapshot_response_text(*message)),
        r is Ok ==> install_snapshot_response_of_json(r->Ok_0@) == Ok::<InstallSnapshotResponse, Seq<char>>(*message),
{
    let text = match install_snapshot_response_to_json(message) {
        Ok(text) => text,
        Err(reason) => {
            return Err(reason);
        },
    };
    match install_snapshot_response_from_json(text.as_str()) {
        Ok(back) => {
            if back == *message {
                Ok(text)
            } else {
                Err(String::from_str("the message does not read back as it was written"))
            }
        },
        Err(_) => Err(String::from_str("the message does not read back as it was written")),
    }
}

/// Reads an install-snapshot response from the text it was sent as.
pub fn read_install_snapshot_response(data: &str) -> (r: Result<InstallSnapshotResponse, String>)
    ensures
        same_message(r, install_snapshot_response_of_json(data@)),
{
    install_snapshot_response_from_json(data)
}

} // verus!
