use broker_cluster::channel::{ChannelId, ChannelStatus};
use broker_cluster::client::{
    ClientWriteError, ClientWriteResponse, ForwardReply, ForwardToLeader, RaftClient, RaftError,
    ReadError, WriteError, WriteStep, WRITE_ATTEMPTS,
};
use broker_cluster::raft::{
    Entry, EntryPayload, LeaderId, LogId, Node, Request, Response,
};
use broker_cluster::router::{Router, Value};
use broker_cluster::store::Store;

fn node(addr: &str) -> Node {
    Node {
        addr: addr.to_string(),
    }
}

fn written(index: u64) -> ClientWriteResponse {
    ClientWriteResponse {
        log_id: LogId {
            leader_id: LeaderId {
                term: 1,
                node_id: 2,
            },
            index,
        },
        data: Response::new(None),
        membership: None,
    }
}

fn redirect(id: Option<u64>, addr: Option<&str>) -> ForwardReply {
    ForwardReply::Refused(RaftError::APIError(ClientWriteError::ForwardToLeader(
        ForwardToLeader {
            leader_id: id,
            leader_node: addr.map(node),
        },
    )))
}

/// Runs a write against replies handed out in order, as the sending loop
/// does; gives the result and the addresses the write was sent to.
fn write(
    client: &mut RaftClient,
    mut replies: Vec<ForwardReply>,
) -> (Result<ClientWriteResponse, WriteError>, Vec<String>) {
    replies.reverse();
    let mut sent = Vec::new();
    let mut step = client.begin_write();
    loop {
        match step {
            WriteStep::Retry { attempts_left } => {
                sent.push(client.leader_addr().to_string());
                let reply = replies.pop().expect("the mock network ran out of replies");
                step = client.on_reply(attempts_left, reply);
            }
            WriteStep::Done(response) => return (Ok(response), sent),
            WriteStep::Failed(e) => return (Err(e), sent),
        }
    }
}

#[test]
fn write_to_the_leader_succeeds_at_once() {
    let mut client = RaftClient::new(1, node("0.0.0.0:9091"));
    let (result, sent) = write(&mut client, vec![ForwardReply::Written(written(4))]);
    assert_eq!(result, Ok(written(4)));
    assert_eq!(sent, vec!["0.0.0.0:9091"]);
    assert_eq!(client.leader_id(), 1);
    assert_eq!(client.leader_addr(), "0.0.0.0:9091");
}

#[test]
fn stale_leader_is_replaced_on_redirect() {
    let mut client = RaftClient::new(1, node("0.0.0.0:9091"));
    let (result, sent) = write(
        &mut client,
        vec![
            redirect(Some(2), Some("0.0.0.0:9092")),
            ForwardReply::Written(written(8)),
        ],
    );
    assert_eq!(result, Ok(written(8)));
    assert_eq!(sent, vec!["0.0.0.0:9091", "0.0.0.0:9092"]);
    assert_eq!(client.leader_id(), 2);
    assert_eq!(client.leader_addr(), "0.0.0.0:9092");
}

#[test]
fn write_gives_up_when_the_budget_is_spent() {
    assert_eq!(WRITE_ATTEMPTS, 3);
    let mut client = RaftClient::new(1, node("n1"));
    let (result, sent) = write(
        &mut client,
        vec![
            redirect(Some(2), Some("n2")),
            redirect(Some(3), Some("n3")),
            redirect(Some(1), Some("n1")),
            ForwardReply::Written(written(1)),
        ],
    );
    assert_eq!(result, Err(WriteError::NoLeaderFound));
    assert_eq!(sent, vec!["n1", "n2", "n3"]);
    // the last redirect is still put on record
    assert_eq!(client.leader_id(), 1);
    assert_eq!(client.leader_addr(), "n1");
}

#[test]
fn two_redirects_fit_in_the_budget() {
    let mut client = RaftClient::new(1, node("n1"));
    let (result, sent) = write(
        &mut client,
        vec![
            redirect(Some(2), Some("n2")),
            redirect(Some(3), Some("n3")),
            ForwardReply::Written(written(5)),
        ],
    );
    assert_eq!(result, Ok(written(5)));
    assert_eq!(sent, vec!["n1", "n2", "n3"]);
    assert_eq!(client.leader_id(), 3);
}

#[test]
fn redirect_without_a_leader_fails_the_write() {
    for reply in [
        redirect(None, None),
        redirect(Some(2), None),
        redirect(None, Some("n2")),
    ] {
        let mut client = RaftClient::new(1, node("n1"));
        let expected = match &reply {
            ForwardReply::Refused(RaftError::APIError(ClientWriteError::ForwardToLeader(f))) => {
                WriteError::Refused(RaftError::APIError(ClientWriteError::ForwardToLeader(
                    ForwardToLeader {
                        leader_id: f.leader_id,
                        leader_node: f.leader_node.clone(),
                    },
                )))
            }
            _ => unreachable!(),
        };
        let (result, sent) = write(&mut client, vec![reply]);
        assert_eq!(result, Err(expected));
        assert_eq!(sent, vec!["n1"]);
        assert_eq!(client.leader_id(), 1);
        assert_eq!(client.leader_addr(), "n1");
    }
}

#[test]
fn other_failures_are_handed_on() {
    let mut client = RaftClient::new(1, node("n1"));
    let (result, _) = write(
        &mut client,
        vec![ForwardReply::Refused(RaftError::Fatal(
            "stopped".to_string(),
        ))],
    );
    assert_eq!(
        result,
        Err(WriteError::Refused(RaftError::Fatal("stopped".to_string())))
    );
    let (result, _) = write(
        &mut client,
        vec![ForwardReply::Refused(RaftError::APIError(
            ClientWriteError::ChangeMembershipError("in progress".to_string()),
        ))],
    );
    assert_eq!(
        result,
        Err(WriteError::Refused(RaftError::APIError(
            ClientWriteError::ChangeMembershipError("in progress".to_string())
        )))
    );
    let (result, sent) = write(&mut client, vec![ForwardReply::Unreachable]);
    assert_eq!(result, Err(WriteError::Unreachable));
    assert_eq!(sent, vec!["n1"]);
    assert_eq!(client.leader_id(), 1);
}

#[test]
fn forward_to_leader_is_found_in_api_errors_only() {
    let f = ForwardToLeader {
        leader_id: Some(2),
        leader_node: None,
    };
    let e = RaftError::APIError(ClientWriteError::ForwardToLeader(ForwardToLeader {
        leader_id: Some(2),
        leader_node: None,
    }));
    assert_eq!(e.forward_to_leader(), Some(&f));
    assert_eq!(RaftError::Fatal("x".to_string()).forward_to_leader(), None);
    assert_eq!(
        RaftError::APIError(ClientWriteError::ChangeMembershipError("x".to_string()))
            .forward_to_leader(),
        None
    );
}

#[test]
fn read_is_served_from_the_local_store() {
    let client = RaftClient::new(1, node("n1"));
    let mut store = Store::new();
    let key = ChannelId::new("c1".to_string());
    assert_eq!(
        client.read(&store, &key),
        Err(ReadError::ClientKeyNotFoundError)
    );
    let value = Value {
        channel_id: ChannelId::new("c1".to_string()),
        router: Router::new(2, "l".to_string(), "r".to_string()),
        channel_status: ChannelStatus::Established,
    };
    store
        .apply_to_state_machine(&vec![Entry {
            log_id: LogId {
                leader_id: LeaderId {
                    term: 1,
                    node_id: 1,
                },
                index: 1,
            },
            payload: EntryPayload::Normal(Request::Connect {
                value: value.clone(),
            }),
        }])
        .unwrap();
    assert_eq!(client.read(&store, &key), Ok(value));
}
