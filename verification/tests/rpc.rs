use broker_cluster::network::{
    payload_or_error, read_append_entries_reply, read_install_snapshot_reply, read_vote_reply,
    typed_reply, vote_payload, NetworkManager, RaftReply, RaftRequest, RaftSvc, RpcError, RpcKind,
    RpcOutcome,
};
use broker_cluster::pool::PoolItemBuilder;
use broker_cluster::raft::{LeaderId, LogId, Node, Vote};
use broker_cluster::router::Status;
use broker_cluster::rpc::{
    read_append_entries_response, read_install_snapshot_response, read_vote_request,
    read_vote_response, write_append_entries_response, write_install_snapshot_response,
    write_vote_request, write_vote_response, AppendEntriesResponse, InstallSnapshotResponse,
    VoteRequest, VoteResponse,
};

fn vote(term: u64, node_id: u64, committed: bool) -> Vote {
    Vote {
        leader_id: LeaderId { term, node_id },
        committed,
    }
}

fn log_id(term: u64, node_id: u64, index: u64) -> LogId {
    LogId {
        leader_id: LeaderId { term, node_id },
        index,
    }
}

fn replied(data: &str) -> RpcOutcome {
    RpcOutcome::Replied(RaftReply {
        data: data.to_string(),
    })
}

struct Always;

impl PoolItemBuilder for Always {
    type Item = u8;
    type Error = ();

    fn build(&self, _token: &String) -> Result<u8, ()> {
        Ok(1)
    }
}

#[test]
fn vote_request_is_written_as_json() {
    let request = VoteRequest {
        vote: vote(1, 2, false),
        last_log_id: Some(log_id(1, 2, 3)),
    };
    assert_eq!(
        vote_payload(&request),
        Ok("{\"vote\":{\"leader_id\":{\"term\":1,\"node_id\":2},\"committed\":false},\"last_log_id\":{\"leader_id\":{\"term\":1,\"node_id\":2},\"index\":3}}".to_string())
    );
    let first = VoteRequest {
        vote: vote(7, 1, true),
        last_log_id: None,
    };
    assert_eq!(
        vote_payload(&first),
        Ok("{\"vote\":{\"leader_id\":{\"term\":7,\"node_id\":1},\"committed\":true},\"last_log_id\":null}".to_string())
    );
}

#[test]
fn vote_request_reads_back_on_the_serving_side() {
    let svc = RaftSvc::new();
    for request in [
        VoteRequest {
            vote: vote(1, 2, false),
            last_log_id: Some(log_id(1, 2, 3)),
        },
        VoteRequest {
            vote: vote(u64::MAX, u64::MAX, true),
            last_log_id: None,
        },
    ] {
        let data = vote_payload(&request).unwrap();
        assert_eq!(svc.vote_request(RaftRequest { data }), Ok(request));
    }
    match svc.vote_request(RaftRequest {
        data: "{\"vote\":1}".to_string(),
    }) {
        Err(Status { code: 13, message }) => assert!(!message.is_empty()),
        other => panic!("expected an internal status, got {:?}", other),
    }
}

#[test]
fn vote_response_round_trips() {
    let svc = RaftSvc::new();
    for response in [
        VoteResponse {
            vote: vote(4, 1, true),
            vote_granted: true,
            last_log_id: Some(log_id(3, 1, 99)),
        },
        VoteResponse {
            vote: vote(0, 0, false),
            vote_granted: false,
            last_log_id: None,
        },
    ] {
        let reply = svc.vote_reply(Ok(response)).unwrap();
        assert_eq!(read_vote_reply(2, RpcOutcome::Replied(reply)), Ok(response));
    }
    assert_eq!(
        svc.vote_reply(Ok(VoteResponse {
            vote: vote(4, 1, true),
            vote_granted: true,
            last_log_id: None,
        })),
        Ok(RaftReply {
            data: "{\"vote\":{\"leader_id\":{\"term\":4,\"node_id\":1},\"committed\":true},\"vote_granted\":true,\"last_log_id\":null}".to_string()
        })
    );
    assert_eq!(
        svc.vote_reply(Err("core stopped".to_string())),
        Err(Status {
            code: 13,
            message: "core stopped".to_string()
        })
    );
}

#[test]
fn append_entries_response_round_trips() {
    let svc = RaftSvc::new();
    for response in [
        AppendEntriesResponse::Success,
        AppendEntriesResponse::PartialSuccess(None),
        AppendEntriesResponse::PartialSuccess(Some(log_id(2, 3, 4))),
        AppendEntriesResponse::Conflict,
        AppendEntriesResponse::HigherVote(vote(9, 3, true)),
    ] {
        let reply = svc.append_entries_reply(Ok(response)).unwrap();
        assert_eq!(
            read_append_entries_reply(2, RpcOutcome::Replied(reply)),
            Ok(response)
        );
    }
    assert_eq!(
        svc.append_entries_reply(Ok(AppendEntriesResponse::Success)),
        Ok(RaftReply {
            data: "\"Success\"".to_string()
        })
    );
    assert_eq!(
        read_append_entries_reply(2, replied("\"Conflict\"")),
        Ok(AppendEntriesResponse::Conflict)
    );
    assert_eq!(
        svc.append_entries_reply(Err("stale term".to_string())),
        Err(Status {
            code: 13,
            message: "stale term".to_string()
        })
    );
}

#[test]
fn install_snapshot_response_round_trips() {
    let svc = RaftSvc::new();
    let response = InstallSnapshotResponse {
        vote: vote(5, 2, true),
    };
    let reply = svc.install_snapshot_reply(Ok(response)).unwrap();
    assert_eq!(
        reply.data,
        "{\"vote\":{\"leader_id\":{\"term\":5,\"node_id\":2},\"committed\":true}}"
    );
    assert_eq!(
        read_install_snapshot_reply(2, RpcOutcome::Replied(reply)),
        Ok(response)
    );
    assert_eq!(
        svc.install_snapshot_reply(Err("no".to_string())),
        Err(Status {
            code: 13,
            message: "no".to_string()
        })
    );
}

#[test]
fn reply_that_is_no_message_is_a_network_failure() {
    match read_vote_reply(2, replied("not json")) {
        Err(RpcError::Network { reason }) => assert!(reason.contains("expected")),
        other => panic!("expected a network failure, got {:?}", other),
    }
    match read_append_entries_reply(2, replied("\"Maybe\"")) {
        Err(RpcError::Network { .. }) => {}
        other => panic!("expected a network failure, got {:?}", other),
    }
    match read_install_snapshot_reply(2, replied("{}")) {
        Err(RpcError::Network { .. }) => {}
        other => panic!("expected a network failure, got {:?}", other),
    }
    // a reply of another call's kind
    match read_vote_reply(2, replied("\"Success\"")) {
        Err(RpcError::Network { .. }) => {}
        other => panic!("expected a network failure, got {:?}", other),
    }
}

#[test]
fn failed_calls_keep_their_kind_of_failure() {
    assert_eq!(
        read_vote_reply(
            2,
            RpcOutcome::CallFailed {
                reason: "reset".to_string()
            }
        ),
        Err(RpcError::Network {
            reason: "reset".to_string()
        })
    );
    assert_eq!(
        read_append_entries_reply(
            4,
            RpcOutcome::RemoteFailed {
                reason: "stale term".to_string()
            }
        ),
        Err(RpcError::RemoteError {
            target: 4,
            reason: "stale term".to_string()
        })
    );
    assert_eq!(
        read_install_snapshot_reply(
            4,
            RpcOutcome::RemoteFailed {
                reason: "stopped".to_string()
            }
        ),
        Err(RpcError::RemoteError {
            target: 4,
            reason: "stopped".to_string()
        })
    );
}

#[test]
fn read_and_written_results_are_classed() {
    assert_eq!(typed_reply(Ok::<u8, String>(3)), Ok(3));
    assert_eq!(
        typed_reply(Err::<u8, String>("eof".to_string())),
        Err(RpcError::Network {
            reason: "eof".to_string()
        })
    );
    assert_eq!(payload_or_error(Ok("{}".to_string())), Ok("{}".to_string()));
    assert_eq!(
        payload_or_error(Err("key must be a string".to_string())),
        Err(RpcError::PayloadError {
            reason: "key must be a string".to_string()
        })
    );
}

#[test]
fn transport_to_a_peer_prepares_its_calls() {
    let mut manager = NetworkManager::new(Always);
    let peer = Node {
        addr: "0.0.0.0:9092".to_string(),
    };
    let network = manager.new_client(2, &peer);
    let request = VoteRequest {
        vote: vote(1, 1, false),
        last_log_id: None,
    };
    let (_, call) = network.send_vote(&mut manager, &request).unwrap();
    assert_eq!(call.kind, RpcKind::Vote);
    assert_eq!(call.target, 2);
    assert_eq!(call.address, "http://0.0.0.0:9092");
    assert_eq!(call.request.data, vote_payload(&request).unwrap());
    let (_, call) = network
        .send_append_entries(&mut manager, "[]".to_string())
        .unwrap();
    assert_eq!(call.kind, RpcKind::AppendEntries);
    assert_eq!(call.request.data, "[]");
    let (_, call) = network
        .send_install_snapshot(&mut manager, "s".to_string())
        .unwrap();
    assert_eq!(call.kind, RpcKind::InstallSnapshot);
    assert_eq!(call.address, "http://0.0.0.0:9092");
}

#[test]
fn written_messages_read_back() {
    let request = VoteRequest {
        vote: vote(3, 2, true),
        last_log_id: Some(log_id(3, 2, 44)),
    };
    let text = write_vote_request(&request).unwrap();
    assert_eq!(
        text,
        "{\"vote\":{\"leader_id\":{\"term\":3,\"node_id\":2},\"committed\":true},\"last_log_id\":{\"leader_id\":{\"term\":3,\"node_id\":2},\"index\":44}}"
    );
    assert_eq!(read_vote_request(&text), Ok(request));
    let response = VoteResponse {
        vote: vote(3, 2, true),
        vote_granted: false,
        last_log_id: None,
    };
    assert_eq!(
        read_vote_response(&write_vote_response(&response).unwrap()),
        Ok(response)
    );
    for response in [
        AppendEntriesResponse::Success,
        AppendEntriesResponse::PartialSuccess(Some(log_id(1, 1, 1))),
        AppendEntriesResponse::Conflict,
        AppendEntriesResponse::HigherVote(vote(8, 8, false)),
    ] {
        assert_eq!(
            read_append_entries_response(&write_append_entries_response(&response).unwrap()),
            Ok(response)
        );
    }
    let response = InstallSnapshotResponse {
        vote: vote(1, 0, false),
    };
    assert_eq!(
        read_install_snapshot_response(&write_install_snapshot_response(&response).unwrap()),
        Ok(response)
    );
    assert!(read_vote_request("{}").is_err());
    assert!(read_vote_response("[]").is_err());
    assert!(read_append_entries_response("\"Success").is_err());
    assert!(read_install_snapshot_response("").is_err());
}
