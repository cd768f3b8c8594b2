use broker_cluster::channel::{ChannelId, ChannelStatus};
use broker_cluster::pool::PoolItemBuilder;
use broker_cluster::protocol::{
    HeartbeatRecv, Packet, PacketError, RawPacket, SignInFire, SignInRecv,
};
use broker_cluster::router::{
    forward_request, Delivery, Remotes, Router, RouterClient, RouterError, RouterReply,
    RouterRequest, RouterStorage, RouterSvc, Status, Value,
};
use broker_cluster::session::{Channel, SharedSession};
use std::cell::RefCell;
use std::rc::Rc;

/// Records each address it is asked to connect to.
#[derive(Clone)]
struct Recording {
    asked: Rc<RefCell<Vec<String>>>,
}

impl PoolItemBuilder for Recording {
    type Item = String;
    type Error = ();

    fn build(&self, token: &String) -> Result<String, ()> {
        self.asked.borrow_mut().push(token.clone());
        if token.is_empty() {
            Err(())
        } else {
            Ok(format!("connection to {}", token))
        }
    }
}

fn remotes() -> (Remotes<Recording>, Rc<RefCell<Vec<String>>>) {
    let asked = Rc::new(RefCell::new(Vec::new()));
    (
        Remotes::new(Recording {
            asked: asked.clone(),
        }),
        asked,
    )
}

/// A session table whose handles are numbers.
fn sessions(names: &[&str]) -> SharedSession<usize> {
    let mut session = SharedSession::init();
    for (i, name) in names.iter().enumerate() {
        session.add(Channel::new(
            ChannelId::new(name.to_string()),
            "192.168.0.9:5000".to_string(),
            i,
        ));
    }
    session
}

fn owned_by(channel: &str, router: u64, remote_addr: &str) -> Value {
    Value {
        channel_id: ChannelId::new(channel.to_string()),
        router: Router::new(router, "127.0.0.1:1883".to_string(), remote_addr.to_string()),
        channel_status: ChannelStatus::Established,
    }
}

struct Table(Vec<Value>);

impl RouterStorage for Table {
    fn get_channel_router(&self, key: ChannelId) -> Option<Value> {
        self.0.iter().find(|v| v.channel_id == key).cloned()
    }

    fn update_or_insert_channel_node(&mut self, value: Value) -> Value {
        self.0.retain(|v| v.channel_id != value.channel_id);
        self.0.push(value.clone());
        value
    }

    fn router_lease(&mut self, router: u64) -> Option<u64> {
        Some(router)
    }
}

#[test]
fn packet_for_a_local_channel_goes_to_the_session() {
    let (_remotes, asked) = remotes();
    let router = RouterClient::new(1);
    let raw = RawPacket::read("3,c1".to_string()).unwrap();
    let delivery = router.route(&raw, Some(owned_by("c1", 1, "10.0.0.1:9090")));
    assert_eq!(
        delivery,
        Ok(Delivery::Local {
            channel_id: ChannelId::new("c1".to_string()),
            packet: Packet::HeartBeat(HeartbeatRecv { seq: 0 }),
        })
    );
    // no connection was asked for
    assert!(asked.borrow().is_empty());
}

#[test]
fn packet_for_a_remote_channel_is_forwarded_to_its_owner() {
    let (mut remotes, asked) = remotes();
    let router = RouterClient::new(1);
    let owner = owned_by("c2", 2, "10.0.0.2:9090");
    let raw = RawPacket::read("3,c2".to_string()).unwrap();
    assert_eq!(raw.packet(), Packet::HeartBeat(HeartbeatRecv { seq: 0 }));
    let delivery = router.route(&raw, Some(owner.clone())).unwrap();
    assert_eq!(
        delivery,
        Delivery::Remote {
            owner: owner.clone(),
            packet: Packet::HeartBeat(HeartbeatRecv { seq: 0 }),
        }
    );
    // the sending side: one connection to the owner's address
    let (connection, request) = remotes.send(owner.clone(), raw.packet()).unwrap();
    assert_eq!(connection, "connection to 10.0.0.2:9090");
    assert_eq!(
        request,
        RouterRequest {
            channel_id: "c2".to_string(),
            packet: "3,0".to_string(),
        }
    );
    assert_eq!(*asked.borrow(), vec!["10.0.0.2:9090".to_string()]);
    // the receiving side hands the packet to its session and echoes it
    let session = sessions(&["c1", "c2"]);
    let (handle, packet, reply) = RouterSvc::new().send_packet(&session, request).unwrap();
    assert_eq!(*handle, 1);
    assert_eq!(packet, Packet::HeartBeat(HeartbeatRecv { seq: 0 }));
    assert_eq!(
        reply,
        RouterReply {
            packet: "3,0".to_string()
        }
    );
    // the sender reads the echo back
    assert_eq!(
        Remotes::<Recording>::receive_reply(Ok(reply)),
        Ok(Packet::HeartBeat(HeartbeatRecv { seq: 0 }))
    );
    // a second packet to the same owner asks for no new connection
    let again = RawPacket::read("3,77".to_string()).unwrap();
    let (_, request) = remotes.send(owner, again.packet()).unwrap();
    assert_eq!(request.packet, "3,77");
    assert_eq!(asked.borrow().len(), 1);
}

#[test]
fn packet_for_an_unknown_channel_is_dropped() {
    let router = RouterClient::new(1);
    let raw = RawPacket::read("3,1".to_string()).unwrap();
    assert_eq!(router.route(&raw, None), Err(RouterError::UnknownChannel));
}

#[test]
fn send_looks_the_owner_up_in_the_storage() {
    let mut table = Table(vec![]);
    table.update_or_insert_channel_node(owned_by("dev-1", 1, "10.0.0.1:9090"));
    table.update_or_insert_channel_node(owned_by("dev-2", 2, "10.0.0.2:9090"));
    assert_eq!(table.router_lease(4), Some(4));
    let router = RouterClient::new(1);
    let local = RawPacket::read("1,dev-1,user,secret".to_string()).unwrap();
    assert_eq!(
        router.send(&table, &local),
        Ok(Delivery::Local {
            channel_id: ChannelId::new("dev-1".to_string()),
            packet: local.packet(),
        })
    );
    let remote = RawPacket::read("1,dev-2,user,secret".to_string()).unwrap();
    assert_eq!(
        router.send(&table, &remote),
        Ok(Delivery::Remote {
            owner: owned_by("dev-2", 2, "10.0.0.2:9090"),
            packet: remote.packet(),
        })
    );
    let nobody = RawPacket::read("1,dev-3,user,secret".to_string()).unwrap();
    assert_eq!(router.send(&table, &nobody), Err(RouterError::UnknownChannel));
    assert_eq!(
        RouterClient::channel_of(&nobody),
        ChannelId::new("dev-3".to_string())
    );
}

#[test]
fn unreachable_owner_is_a_channel_connect_error() {
    let (mut remotes, asked) = remotes();
    let owner = owned_by("c2", 2, "");
    let packet = Packet::HeartBeat(HeartbeatRecv { seq: 1 });
    assert_eq!(
        remotes.send(owner.clone(), packet.clone()),
        Err(RouterError::ChannelConnectError)
    );
    // not cached: the next packet tries the address again
    assert_eq!(
        remotes.send(owner.clone(), packet),
        Err(RouterError::ChannelConnectError)
    );
    assert_eq!(asked.borrow().len(), 2);
    // whatever the packet: the pool is asked before the packet is written
    assert_eq!(
        remotes.send(owner, Packet::Close(())),
        Err(RouterError::ChannelConnectError)
    );
    assert_eq!(asked.borrow().len(), 3);
}

#[test]
fn close_packet_has_no_forward_line() {
    let (mut remotes, asked) = remotes();
    let owner = owned_by("c2", 2, "10.0.0.2:9090");
    let expected = RouterError::SendMessageError(PacketError::UnSupportFirePacketError {
        packet: Packet::Close(()),
    });
    assert_eq!(
        remotes.send(owner.clone(), Packet::Close(())),
        Err(RouterError::SendMessageError(
            PacketError::UnSupportFirePacketError {
                packet: Packet::Close(())
            }
        ))
    );
    // the connection was asked for first, and stays pooled
    assert_eq!(*asked.borrow(), vec!["10.0.0.2:9090".to_string()]);
    assert!(remotes
        .send(owner, Packet::HeartBeat(HeartbeatRecv { seq: 1 }))
        .is_ok());
    assert_eq!(asked.borrow().len(), 1);
    assert_eq!(
        forward_request(ChannelId::new("c2".to_string()), &Packet::Close(())),
        Err(expected)
    );
}

#[test]
fn remote_error_status_is_handed_on() {
    assert_eq!(
        Remotes::<Recording>::receive_reply(Err(Status {
            code: 14,
            message: "unavailable".to_string(),
        })),
        Err(RouterError::ReplyErrorStatus(Status {
            code: 14,
            message: "unavailable".to_string(),
        }))
    );
    assert_eq!(
        Remotes::<Recording>::receive_reply(Ok(RouterReply {
            packet: "garbage".to_string()
        })),
        Err(RouterError::SendMessageError(
            PacketError::ParsePacketHeaderError {
                raw: "garbage".to_string()
            }
        ))
    );
}

#[test]
fn receiver_never_forwards_again() {
    let svc = RouterSvc::new();
    let request = || RouterRequest {
        channel_id: "c5".to_string(),
        packet: "2,100".to_string(),
    };
    // a channel that this node has no session of: the sender is told
    let strangers = sessions(&["c1", "c2"]);
    assert_eq!(
        svc.send_packet(&strangers, request()),
        Err(RouterError::SessionNotFound)
    );
    let mut session = sessions(&["c4", "c5"]);
    let (handle, packet, reply) = svc.send_packet(&session, request()).unwrap();
    assert_eq!(*handle, 1);
    assert_eq!(
        packet,
        Packet::SignInAck(SignInFire {
            code: "100".to_string()
        })
    );
    assert_eq!(reply.packet, "2,100");
    assert_eq!(
        svc.send_packet(
            &session,
            RouterRequest {
                channel_id: "c5".to_string(),
                packet: "9,1".to_string(),
            },
        ),
        Err(RouterError::SendMessageError(
            PacketError::UnKnowRecvPacketError {
                raw: "9,1".to_string()
            }
        ))
    );
    // a closed channel takes no packet either
    session.close(&ChannelId::new("c5".to_string()));
    assert_eq!(
        svc.send_packet(&session, request()),
        Err(RouterError::SessionNotFound)
    );
}

#[test]
fn forward_lines_read_back() {
    let packets = vec![
        Packet::HeartBeat(HeartbeatRecv { seq: 0 }),
        Packet::HeartBeat(HeartbeatRecv { seq: u32::MAX }),
        Packet::SignInAck(SignInFire {
            code: "100".to_string(),
        }),
        Packet::SignInAck(SignInFire {
            code: "".to_string(),
        }),
        Packet::SignIn(SignInRecv {
            client_id: "dev".to_string(),
            username: "ユーザー".to_string(),
            password: "".to_string(),
        }),
    ];
    for packet in packets {
        let line = packet.forward_line().unwrap();
        assert_eq!(Packet::from_forward_line(line), Ok(packet));
    }
    assert_eq!(
        Packet::HeartBeat(HeartbeatRecv { seq: 4294967295 }).forward_line(),
        Ok("3,4294967295".to_string())
    );
    assert_eq!(
        Packet::SignIn(SignInRecv {
            client_id: "a".to_string(),
            username: "b".to_string(),
            password: "c".to_string(),
        })
        .forward_line(),
        Ok("1,a,b,c".to_string())
    );
    // a comma inside a field makes a line of another shape
    let line = Packet::SignInAck(SignInFire {
        code: "1,2".to_string(),
    })
    .forward_line()
    .unwrap();
    assert_eq!(
        Packet::from_forward_line(line.clone()),
        Err(PacketError::ParsePacketError { raw: line })
    );
}

#[test]
fn warming_the_pool_passes_over_unreachable_routers() {
    let (mut remotes, asked) = remotes();
    remotes.init(&vec![
        (1, "10.0.0.1:9090".to_string()),
        (2, "".to_string()),
        (3, "10.0.0.3:9090".to_string()),
    ]);
    assert_eq!(asked.borrow().len(), 3);
    // the reachable ones are served from the pool from now on
    remotes
        .send(
            owned_by("c", 3, "10.0.0.3:9090"),
            Packet::HeartBeat(HeartbeatRecv { seq: 1 }),
        )
        .unwrap();
    assert_eq!(asked.borrow().len(), 3);
}

#[test]
fn record_getters_give_what_was_put_in() {
    let value = owned_by("c1", 7, "10.0.0.7:9090");
    assert_eq!(value.channel_id(), ChannelId::new("c1".to_string()));
    assert_eq!(value.router.router(), 7);
    assert_eq!(value.router.local_address(), "127.0.0.1:1883");
    assert_eq!(value.router.remote_addr(), "10.0.0.7:9090");
    assert_eq!(ChannelId::from("x".to_string()), ChannelId::new("x".to_string()));
    assert!(ChannelId::new("a".to_string()).same(&ChannelId::new("a".to_string())));
    assert!(!ChannelId::new("a".to_string()).same(&ChannelId::new("b".to_string())));
    assert_eq!(ChannelStatus::Established.level(), 0);
    assert_eq!(ChannelStatus::Closing.level(), 1);
    assert_eq!(ChannelStatus::Closed.level(), 2);
    assert_eq!(ChannelStatus::Established.as_str(), "Established");
    assert_eq!(ChannelStatus::Closing.as_str(), "Closing");
    assert_eq!(ChannelStatus::Closed.as_str(), "Closed");
}
