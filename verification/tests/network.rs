use broker_cluster::network::{
    address_of, settle, NetworkManager, RaftReply, RaftRequest, RaftSvc, RpcCall, RpcError,
    RpcKind, RpcOutcome, INTERNAL,
};
use broker_cluster::pool::PoolItemBuilder;
use broker_cluster::raft::Node;
use broker_cluster::router::Status;
use broker_cluster::server::{
    after_send_failure, first_packet, SendFailure, ServerSideError, WriterStep,
};
use broker_cluster::protocol::{Packet, PacketError, SignInRecv};
use broker_cluster::text::{chars_of, parse_bounded, push_decimal};
use std::cell::Cell;
use std::rc::Rc;

#[derive(Clone)]
struct Dialer {
    dials: Rc<Cell<u32>>,
}

impl PoolItemBuilder for Dialer {
    type Item = String;
    type Error = String;

    fn build(&self, token: &String) -> Result<String, String> {
        self.dials.set(self.dials.get() + 1);
        if token.ends_with(":0") {
            Err("refused".to_string())
        } else {
            Ok(format!("channel<{}>", token))
        }
    }
}

fn manager() -> (NetworkManager<Dialer>, Rc<Cell<u32>>) {
    let dials = Rc::new(Cell::new(0));
    (
        NetworkManager::new(Dialer {
            dials: dials.clone(),
        }),
        dials,
    )
}

fn node(addr: &str) -> Node {
    Node {
        addr: addr.to_string(),
    }
}

#[test]
fn peers_are_called_at_their_http_address() {
    assert_eq!(address_of(&node("0.0.0.0:9091")), "http://0.0.0.0:9091");
    assert_eq!(address_of(&node("")), "http://");
}

#[test]
fn calls_go_over_one_pooled_connection_per_peer() {
    let (mut manager, dials) = manager();
    let peer = node("0.0.0.0:9092");
    let (channel, call) = manager
        .send_append_entries("{\"entries\":[]}".to_string(), 2, &peer)
        .unwrap();
    assert_eq!(channel, "channel<http://0.0.0.0:9092>");
    assert_eq!(
        call,
        RpcCall {
            kind: RpcKind::AppendEntries,
            target: 2,
            address: "http://0.0.0.0:9092".to_string(),
            request: RaftRequest {
                data: "{\"entries\":[]}".to_string()
            },
        }
    );
    let (channel, call) = manager
        .send_install_snapshot("snap".to_string(), 2, &peer)
        .unwrap();
    assert_eq!(channel, "channel<http://0.0.0.0:9092>");
    assert_eq!(call.kind, RpcKind::InstallSnapshot);
    assert_eq!(call.request.data, "snap");
    let (_, call) = manager.send_vote("vote".to_string(), 2, &peer).unwrap();
    assert_eq!(call.kind, RpcKind::Vote);
    assert_eq!(call.target, 2);
    assert_eq!(dials.get(), 1);
    // another peer gets a connection of its own
    manager
        .send_vote("vote".to_string(), 3, &node("0.0.0.0:9093"))
        .unwrap();
    assert_eq!(dials.get(), 2);
    assert_eq!(
        manager.make_client(&peer),
        Ok("channel<http://0.0.0.0:9092>".to_string())
    );
    assert_eq!(dials.get(), 2);
}

#[test]
fn unreachable_peer_is_a_network_failure() {
    let (mut manager, dials) = manager();
    let peer = node("0.0.0.0:0");
    for attempt in 1..=3 {
        match manager.send_vote("vote".to_string(), 9, &peer) {
            Err(RpcError::Network { .. }) => {}
            other => panic!("expected a network failure, got {:?}", other),
        }
        assert_eq!(dials.get(), attempt);
    }
    assert_eq!(manager.make_client(&peer), Err("refused".to_string()));
}

#[test]
fn transport_and_remote_failures_are_kept_apart() {
    assert_eq!(
        settle(
            2,
            RpcOutcome::Replied(RaftReply {
                data: "{}".to_string()
            })
        ),
        Ok("{}".to_string())
    );
    assert_eq!(
        settle(
            2,
            RpcOutcome::CallFailed {
                reason: "reset".to_string()
            }
        ),
        Err(RpcError::Network {
            reason: "reset".to_string()
        })
    );
    assert_eq!(
        settle(
            2,
            RpcOutcome::RemoteFailed {
                reason: "stale term".to_string()
            }
        ),
        Err(RpcError::RemoteError {
            target: 2,
            reason: "stale term".to_string()
        })
    );
}

#[test]
fn transport_to_a_peer_remembers_the_peer() {
    let (manager, _) = manager();
    let network = manager.new_client(3, &node("0.0.0.0:9093"));
    assert_eq!(network.target_id(), 3);
    assert_eq!(network.node(), &node("0.0.0.0:9093"));
}

#[test]
fn serving_side_answers_failures_with_internal_status() {
    let svc = RaftSvc::new();
    assert_eq!(
        svc.reply(Ok("{\"vote_granted\":true}".to_string())),
        Ok(RaftReply {
            data: "{\"vote_granted\":true}".to_string()
        })
    );
    assert_eq!(INTERNAL, 13);
    assert_eq!(
        svc.reply(Err("expected value at line 1".to_string())),
        Err(Status {
            code: 13,
            message: "expected value at line 1".to_string()
        })
    );
}

#[test]
fn first_line_must_sign_in() {
    assert_eq!(
        first_packet(Some(Ok("1,dev,user,secret".to_string()))),
        Ok(Packet::SignIn(SignInRecv {
            client_id: "dev".to_string(),
            username: "user".to_string(),
            password: "secret".to_string(),
        }))
    );
    assert_eq!(
        first_packet(None),
        Err(ServerSideError::FirstPacketError("None".to_string()))
    );
    assert_eq!(
        first_packet(Some(Err("line too long".to_string()))),
        Err(ServerSideError::ServerCodecError(
            "line too long".to_string()
        ))
    );
    assert_eq!(
        first_packet(Some(Ok("3,12".to_string()))),
        Err(ServerSideError::FirstPacketError("3,12".to_string()))
    );
    assert_eq!(
        first_packet(Some(Ok("hello".to_string()))),
        Err(ServerSideError::PacketError(
            PacketError::ParsePacketHeaderError {
                raw: "hello".to_string()
            }
        ))
    );
    assert_eq!(
        first_packet(Some(Ok("1,dev".to_string()))),
        Err(ServerSideError::PacketError(PacketError::ParsePacketError {
            raw: "1,dev".to_string()
        }))
    );
}

#[test]
fn writer_drops_long_lines_and_closes_on_io_failure() {
    assert_eq!(
        after_send_failure(SendFailure::MaxLineLengthExceeded),
        WriterStep::Continue
    );
    assert_eq!(after_send_failure(SendFailure::Io), WriterStep::Close);
}

#[test]
fn numerals_are_read_and_written() {
    let read = |s: &str, max: u64| {
        let chars = chars_of(s);
        assert_eq!(chars, s.chars().collect::<Vec<char>>());
        parse_bounded(&chars, 0, chars.len(), max)
    };
    assert_eq!(read("0", 0), Some(0));
    assert_eq!(read("1", 0), None);
    assert_eq!(read("18446744073709551615", u64::MAX), Some(u64::MAX));
    assert_eq!(read("18446744073709551616", u64::MAX), None);
    assert_eq!(read("+42", 100), Some(42));
    assert_eq!(read("042", 100), Some(42));
    assert_eq!(read("", 100), None);
    assert_eq!(read("4 2", 100), None);
    let chars = chars_of("ab123cd");
    assert_eq!(parse_bounded(&chars, 2, 5, 1000), Some(123));
    assert_eq!(parse_bounded(&chars, 2, 2, 1000), None);
    assert_eq!(parse_bounded(&chars, 1, 5, 1000), None);
    for n in [0u64, 7, 10, 99, 100, 12345, u64::MAX] {
        let mut out = "n=".to_string();
        push_decimal(&mut out, n);
        assert_eq!(out, format!("n={}", n));
    }
}
