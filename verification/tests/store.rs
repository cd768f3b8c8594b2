use broker_cluster::channel::{ChannelId, ChannelStatus};
use broker_cluster::log::IndexBound;
use broker_cluster::raft::{
    Entry, EntryPayload, LeaderId, LogId, Member, Membership, Node, Request, Response,
    StorageError, StoredMembership, Vote,
};
use broker_cluster::router::{Router, Value};
use broker_cluster::snapshot::{decode_state_machine, encode_state_machine};
use broker_cluster::state_machine::StateMachine;
use broker_cluster::store::{snapshot_id, SnapshotMeta, Store};

fn log_id(term: u64, node_id: u64, index: u64) -> LogId {
    LogId {
        leader_id: LeaderId { term, node_id },
        index,
    }
}

fn record(channel: &str, router: u64, status: ChannelStatus) -> Value {
    Value {
        channel_id: ChannelId::new(channel.to_string()),
        router: Router::new(
            router,
            format!("127.0.0.1:{}", 8000 + router),
            format!("10.0.0.{}:9090", router),
        ),
        channel_status: status,
    }
}

fn blank(index: u64) -> Entry {
    Entry {
        log_id: log_id(1, 1, index),
        payload: EntryPayload::Blank,
    }
}

fn connect(index: u64, channel: &str, router: u64) -> Entry {
    Entry {
        log_id: log_id(1, 1, index),
        payload: EntryPayload::Normal(Request::Connect {
            value: record(channel, router, ChannelStatus::Established),
        }),
    }
}

fn disconnect(index: u64, channel: &str, router: u64, status: ChannelStatus) -> Entry {
    Entry {
        log_id: log_id(1, 1, index),
        payload: EntryPayload::Normal(Request::DisConnect {
            value: record(channel, router, status),
        }),
    }
}

fn members() -> Membership {
    Membership {
        configs: vec![vec![1, 2, 3], vec![2, 3]],
        nodes: vec![
            Member {
                id: 1,
                node: Node {
                    addr: "0.0.0.0:9091".to_string(),
                },
            },
            Member {
                id: 2,
                node: Node {
                    addr: "0.0.0.0:9092".to_string(),
                },
            },
            Member {
                id: 3,
                node: Node {
                    addr: "0.0.0.0:9093".to_string(),
                },
            },
        ],
    }
}

fn indexes(entries: &[Entry]) -> Vec<u64> {
    entries.iter().map(|e| e.log_id.index).collect()
}

fn all() -> (IndexBound, IndexBound) {
    (IndexBound::Unbounded, IndexBound::Unbounded)
}

#[test]
fn new_store_is_empty() {
    let store = Store::new();
    let state = store.get_log_state();
    assert_eq!(state.last_purged_log_id, None);
    assert_eq!(state.last_log_id, None);
    assert_eq!(store.read_vote(), None);
    assert_eq!(store.get_current_snapshot(), None);
    let (last, membership) = store.last_applied_state();
    assert_eq!(last, None);
    assert_eq!(membership, StoredMembership::default());
    assert!(store.try_get_log_entries(all().0, all().1).is_empty());
    assert!(store.begin_receiving_snapshot().is_empty());
}

#[test]
fn append_keeps_entries_in_index_order() {
    let mut store = Store::new();
    store.append_to_log(vec![blank(5), blank(2), blank(9), blank(3)]);
    let got = store.try_get_log_entries(all().0, all().1);
    assert_eq!(indexes(&got), vec![2, 3, 5, 9]);
    assert_eq!(store.get_log_state().last_log_id, Some(log_id(1, 1, 9)));
}

#[test]
fn append_at_taken_index_overwrites() {
    let mut store = Store::new();
    store.append_to_log(vec![blank(1), blank(2), blank(3)]);
    store.append_to_log(vec![connect(2, "c1", 1)]);
    let got = store.try_get_log_entries(all().0, all().1);
    assert_eq!(got, vec![blank(1), connect(2, "c1", 1), blank(3)]);
    // the same batch once more changes nothing
    store.append_to_log(vec![connect(2, "c1", 1)]);
    assert_eq!(
        store.try_get_log_entries(all().0, all().1),
        vec![blank(1), connect(2, "c1", 1), blank(3)]
    );
    // within one batch the later entry wins
    store.append_to_log(vec![connect(3, "a", 1), connect(3, "b", 2)]);
    assert_eq!(
        store.try_get_log_entries(IndexBound::Included(3), IndexBound::Included(3)),
        vec![connect(3, "b", 2)]
    );
}

#[test]
fn log_reads_by_range() {
    let mut store = Store::new();
    store.append_to_log((1..=6).map(blank).collect());
    let read = |s: &Store, a, b| indexes(&s.try_get_log_entries(a, b));
    assert_eq!(
        read(&store, IndexBound::Included(2), IndexBound::Excluded(5)),
        vec![2, 3, 4]
    );
    assert_eq!(
        read(&store, IndexBound::Included(2), IndexBound::Included(5)),
        vec![2, 3, 4, 5]
    );
    assert_eq!(
        read(&store, IndexBound::Excluded(2), IndexBound::Unbounded),
        vec![3, 4, 5, 6]
    );
    assert_eq!(
        read(&store, IndexBound::Unbounded, IndexBound::Excluded(3)),
        vec![1, 2]
    );
    assert_eq!(
        read(&store, IndexBound::Included(7), IndexBound::Unbounded),
        Vec::<u64>::new()
    );
    assert_eq!(
        read(&store, IndexBound::Included(5), IndexBound::Excluded(2)),
        Vec::<u64>::new()
    );
    assert_eq!(
        read(&store, IndexBound::Excluded(3), IndexBound::Excluded(3)),
        Vec::<u64>::new()
    );
    assert_eq!(
        read(&store, IndexBound::Excluded(u64::MAX), IndexBound::Unbounded),
        Vec::<u64>::new()
    );
    assert_eq!(
        read(&store, IndexBound::Included(0), IndexBound::Included(u64::MAX)),
        vec![1, 2, 3, 4, 5, 6]
    );
}

#[test]
fn delete_conflict_logs_removes_the_suffix() {
    let mut store = Store::new();
    store.append_to_log((1..=6).map(blank).collect());
    store.delete_conflict_logs_since(log_id(1, 1, 4));
    assert_eq!(
        indexes(&store.try_get_log_entries(all().0, all().1)),
        vec![1, 2, 3]
    );
    store.delete_conflict_logs_since(log_id(1, 1, 10));
    assert_eq!(
        indexes(&store.try_get_log_entries(all().0, all().1)),
        vec![1, 2, 3]
    );
    store.delete_conflict_logs_since(log_id(1, 1, 0));
    assert!(store.try_get_log_entries(all().0, all().1).is_empty());
}

#[test]
fn purge_removes_the_prefix_and_is_remembered() {
    let mut store = Store::new();
    store.append_to_log((1..=6).map(blank).collect());
    assert_eq!(store.purge_logs_upto(log_id(1, 1, 3)), Ok(()));
    assert_eq!(
        indexes(&store.try_get_log_entries(all().0, all().1)),
        vec![4, 5, 6]
    );
    let state = store.get_log_state();
    assert_eq!(state.last_purged_log_id, Some(log_id(1, 1, 3)));
    assert_eq!(state.last_log_id, Some(log_id(1, 1, 6)));
    assert_eq!(store.purge_logs_upto(log_id(1, 1, 6)), Ok(()));
    let state = store.get_log_state();
    assert_eq!(state.last_purged_log_id, Some(log_id(1, 1, 6)));
    assert_eq!(state.last_log_id, Some(log_id(1, 1, 6)));
    assert_eq!(store.purge_logs_upto(log_id(1, 1, u64::MAX)), Ok(()));
}

#[test]
fn backward_purge_is_rejected() {
    let mut store = Store::new();
    store.append_to_log((1..=6).map(blank).collect());
    assert_eq!(store.purge_logs_upto(log_id(2, 1, 3)), Ok(()));
    // a lower index
    assert_eq!(
        store.purge_logs_upto(log_id(2, 1, 2)),
        Err(StorageError::PurgeBackward)
    );
    // a lower term, whatever the index
    assert_eq!(
        store.purge_logs_upto(log_id(1, 9, 5)),
        Err(StorageError::PurgeBackward)
    );
    // a lower node id in the same term
    assert_eq!(
        store.purge_logs_upto(log_id(2, 0, 5)),
        Err(StorageError::PurgeBackward)
    );
    // nothing changed
    assert_eq!(
        store.get_log_state().last_purged_log_id,
        Some(log_id(2, 1, 3))
    );
    assert_eq!(
        indexes(&store.try_get_log_entries(all().0, all().1)),
        vec![4, 5, 6]
    );
    // the same log id again is no step backward
    assert_eq!(store.purge_logs_upto(log_id(2, 1, 3)), Ok(()));
    assert_eq!(store.purge_logs_upto(log_id(2, 2, 0)), Ok(()));
}

#[test]
fn vote_term_never_goes_backward() {
    let mut store = Store::new();
    let first = Vote {
        leader_id: LeaderId {
            term: 4,
            node_id: 1,
        },
        committed: false,
    };
    assert_eq!(store.save_vote(&first), Ok(()));
    assert_eq!(store.read_vote(), Some(first));
    let lower = Vote {
        leader_id: LeaderId {
            term: 3,
            node_id: 2,
        },
        committed: true,
    };
    assert_eq!(store.save_vote(&lower), Err(StorageError::VoteBackward));
    assert_eq!(store.read_vote(), Some(first));
    let same_term = Vote {
        leader_id: LeaderId {
            term: 4,
            node_id: 1,
        },
        committed: true,
    };
    assert_eq!(store.save_vote(&same_term), Ok(()));
    assert_eq!(store.read_vote(), Some(same_term));
}

#[test]
fn apply_answers_each_entry() {
    let mut store = Store::new();
    let membership = Entry {
        log_id: log_id(1, 1, 3),
        payload: EntryPayload::Membership(members()),
    };
    let batch = vec![
        blank(0),
        connect(1, "c1", 1),
        connect(2, "c2", 2),
        membership,
        Entry {
            log_id: log_id(1, 1, 4),
            payload: EntryPayload::Normal(Request::GetClientNodeId {
                channel_id: ChannelId::new("c2".to_string()),
            }),
        },
        Entry {
            log_id: log_id(1, 1, 5),
            payload: EntryPayload::Normal(Request::GetClientNodeId {
                channel_id: ChannelId::new("nobody".to_string()),
            }),
        },
    ];
    let responses = store.apply_to_state_machine(&batch).unwrap();
    assert_eq!(
        responses,
        vec![
            Response::new(None),
            Response::new(Some(record("c1", 1, ChannelStatus::Established))),
            Response::new(Some(record("c2", 2, ChannelStatus::Established))),
            Response::new(None),
            Response::new(Some(record("c2", 2, ChannelStatus::Established))),
            Response::new(None),
        ]
    );
    let (last, membership) = store.last_applied_state();
    assert_eq!(last, Some(log_id(1, 1, 5)));
    assert_eq!(
        membership,
        StoredMembership::new(Some(log_id(1, 1, 3)), members())
    );
    assert_eq!(
        store.read(&ChannelId::new("c1".to_string())),
        Some(record("c1", 1, ChannelStatus::Established))
    );
    assert_eq!(store.read(&ChannelId::new("c3".to_string())), None);
}

#[test]
fn apply_rejects_a_batch_out_of_order() {
    let mut store = Store::new();
    assert!(store.apply_to_state_machine(&vec![connect(7, "c1", 1)]).is_ok());
    // replay of the same batch
    assert_eq!(
        store.apply_to_state_machine(&vec![connect(7, "c1", 2)]),
        Err(StorageError::ApplyOutOfOrder)
    );
    // a gap after the last applied entry
    assert_eq!(
        store.apply_to_state_machine(&vec![connect(9, "c2", 1)]),
        Err(StorageError::ApplyOutOfOrder)
    );
    // a gap inside the batch
    assert_eq!(
        store.apply_to_state_machine(&vec![connect(8, "c2", 1), connect(10, "c3", 1)]),
        Err(StorageError::ApplyOutOfOrder)
    );
    // nothing of a rejected batch was applied
    assert_eq!(store.read(&ChannelId::new("c2".to_string())), None);
    assert_eq!(
        store.read(&ChannelId::new("c1".to_string())),
        Some(record("c1", 1, ChannelStatus::Established))
    );
    assert_eq!(store.last_applied_state().0, Some(log_id(1, 1, 7)));
    // the next entries are taken
    assert!(store
        .apply_to_state_machine(&vec![connect(8, "c2", 1), connect(9, "c3", 1)])
        .is_ok());
    // the empty batch is always in order
    assert_eq!(store.apply_to_state_machine(&vec![]), Ok(vec![]));
}

#[test]
fn connect_replaces_the_record_of_a_channel() {
    let mut store = Store::new();
    store
        .apply_to_state_machine(&vec![
            connect(1, "c1", 1),
            connect(2, "c2", 1),
            connect(3, "c1", 2),
        ])
        .unwrap();
    assert_eq!(
        store.read(&ChannelId::new("c1".to_string())),
        Some(record("c1", 2, ChannelStatus::Established))
    );
    assert_eq!(
        store.read(&ChannelId::new("c2".to_string())),
        Some(record("c2", 1, ChannelStatus::Established))
    );
}

#[test]
fn at_most_one_record_per_channel() {
    let mut sm = StateMachine::new();
    let names = ["a", "b", "a", "c", "b", "a"];
    for (i, name) in names.iter().enumerate() {
        sm.apply(&connect(i as u64, name, (i % 3) as u64));
        sm.apply(&disconnect(
            100 + i as u64,
            names[(i + 1) % names.len()],
            0,
            ChannelStatus::Closing,
        ));
    }
    let mut seen: Vec<String> = sm
        .records()
        .iter()
        .map(|v| v.channel_id().into_string())
        .collect();
    assert_eq!(seen, vec!["a", "b", "c"]);
    seen.dedup();
    assert_eq!(seen.len(), 3);
}

#[test]
fn disconnect_moves_status_forward_only() {
    let mut store = Store::new();
    let status_of = |s: &Store| {
        s.read(&ChannelId::new("c1".to_string()))
            .map(|v| v.channel_status)
    };
    let r = store
        .apply_to_state_machine(&vec![
            connect(1, "c1", 1),
            disconnect(2, "c1", 1, ChannelStatus::Closing),
        ])
        .unwrap();
    assert_eq!(
        r[1],
        Response::new(Some(record("c1", 1, ChannelStatus::Closing)))
    );
    assert_eq!(status_of(&store), Some(ChannelStatus::Closing));
    // the same again changes nothing
    store
        .apply_to_state_machine(&vec![disconnect(3, "c1", 1, ChannelStatus::Closing)])
        .unwrap();
    assert_eq!(status_of(&store), Some(ChannelStatus::Closing));
    store
        .apply_to_state_machine(&vec![disconnect(4, "c1", 1, ChannelStatus::Closed)])
        .unwrap();
    assert_eq!(status_of(&store), Some(ChannelStatus::Closed));
    // closed is terminal for a disconnect
    store
        .apply_to_state_machine(&vec![disconnect(5, "c1", 1, ChannelStatus::Closing)])
        .unwrap();
    assert_eq!(status_of(&store), Some(ChannelStatus::Closed));
    // a disconnect that names the status Established asks for Closing
    let r = store
        .apply_to_state_machine(&vec![
            connect(6, "c9", 3),
            disconnect(7, "c9", 3, ChannelStatus::Established),
        ])
        .unwrap();
    assert_eq!(
        r[1],
        Response::new(Some(record("c9", 3, ChannelStatus::Closing)))
    );
    // a disconnect keeps the owner on record, whoever sent it
    let r = store
        .apply_to_state_machine(&vec![
            connect(8, "c7", 3),
            disconnect(9, "c7", 5, ChannelStatus::Closed),
        ])
        .unwrap();
    assert_eq!(
        r[1],
        Response::new(Some(record("c7", 3, ChannelStatus::Closed)))
    );
    // a channel without a record stays without one
    let r = store
        .apply_to_state_machine(&vec![disconnect(10, "ghost", 1, ChannelStatus::Closed)])
        .unwrap();
    assert_eq!(r, vec![Response::new(None)]);
    assert_eq!(store.read(&ChannelId::new("ghost".to_string())), None);
}

#[test]
fn broker_shutdown_closes_every_channel_of_the_node() {
    let mut store = Store::new();
    let r = store
        .apply_to_state_machine(&vec![
            connect(1, "c1", 1),
            connect(2, "c2", 2),
            connect(3, "c3", 1),
            Entry {
                log_id: log_id(1, 1, 4),
                payload: EntryPayload::Normal(Request::BrokerShutdown { router_id: 1 }),
            },
        ])
        .unwrap();
    assert_eq!(r[3], Response::new(None));
    let status_of = |name: &str| {
        store
            .read(&ChannelId::new(name.to_string()))
            .map(|v| v.channel_status)
    };
    assert_eq!(status_of("c1"), Some(ChannelStatus::Closed));
    assert_eq!(status_of("c2"), Some(ChannelStatus::Established));
    assert_eq!(status_of("c3"), Some(ChannelStatus::Closed));
}

#[test]
fn snapshot_ids_are_numbered() {
    assert_eq!(snapshot_id(None, 1), "--1");
    assert_eq!(snapshot_id(Some(log_id(4, 2, 17)), 3), "4-2-17-3");
    assert_eq!(
        snapshot_id(Some(log_id(0, 0, 0)), u64::MAX),
        "0-0-0-18446744073709551615"
    );
    let mut store = Store::new();
    assert_eq!(store.build_snapshot().unwrap().meta.snapshot_id, "--1");
    store
        .apply_to_state_machine(&vec![connect(12, "c1", 1)])
        .unwrap();
    let second = store.build_snapshot().unwrap();
    assert_eq!(second.meta.snapshot_id, "1-1-12-2");
    assert_eq!(second.meta.last_log_id, Some(log_id(1, 1, 12)));
    assert_eq!(store.get_current_snapshot(), Some(second));
}

#[test]
fn snapshot_installs_on_an_empty_store() {
    let mut first = Store::new();
    first
        .apply_to_state_machine(&vec![
            connect(1, "c1", 1),
            connect(2, "c2", 2),
            Entry {
                log_id: log_id(1, 1, 3),
                payload: EntryPayload::Membership(members()),
            },
            connect(4, "c3", 3),
            disconnect(5, "c2", 2, ChannelStatus::Closing),
        ])
        .unwrap();
    let snapshot = first.build_snapshot().unwrap();
    assert_eq!(snapshot.meta.last_log_id, Some(log_id(1, 1, 5)));
    assert_eq!(
        snapshot.meta.last_membership,
        StoredMembership::new(Some(log_id(1, 1, 3)), members())
    );

    let mut second = Store::new();
    assert_eq!(
        second.install_snapshot(&snapshot.meta, snapshot.snapshot.clone()),
        Ok(())
    );
    assert_eq!(second.last_applied_state(), first.last_applied_state());
    for name in ["c1", "c2", "c3", "c4"] {
        let key = ChannelId::new(name.to_string());
        assert_eq!(second.read(&key), first.read(&key));
    }
    assert_eq!(
        second.read(&ChannelId::new("c2".to_string())),
        Some(record("c2", 2, ChannelStatus::Closing))
    );
    assert_eq!(second.get_current_snapshot(), Some(snapshot));
    // the next entry after the snapshot is taken, an earlier one is not
    assert_eq!(
        second.apply_to_state_machine(&vec![connect(5, "c9", 1)]),
        Err(StorageError::ApplyOutOfOrder)
    );
    assert!(second
        .apply_to_state_machine(&vec![connect(6, "c9", 1)])
        .is_ok());
}

#[test]
fn state_machine_bytes_read_back() {
    let mut sm = StateMachine::new();
    sm.apply(&connect(1, "c1", 1));
    sm.apply(&connect(2, "çà-ユーザー", 2));
    sm.apply(&Entry {
        log_id: log_id(3, 2, 3),
        payload: EntryPayload::Membership(members()),
    });
    sm.apply(&disconnect(4, "c1", 1, ChannelStatus::Closed));
    let bytes = encode_state_machine(&sm);
    assert_eq!(decode_state_machine(&bytes), Some(sm));
    let empty = StateMachine::new();
    assert_eq!(
        decode_state_machine(&encode_state_machine(&empty)),
        Some(empty)
    );
}

#[test]
fn state_machine_bytes_are_laid_out_as_documented() {
    let mut sm = StateMachine::new();
    sm.apply(&Entry {
        log_id: log_id(2, 3, 4),
        payload: EntryPayload::Normal(Request::Connect {
            value: Value {
                channel_id: ChannelId::new("é".to_string()),
                router: Router::new(7, "a".to_string(), "".to_string()),
                channel_status: ChannelStatus::Closing,
            },
        }),
    });
    let mut expected: Vec<u8> = vec![1];
    for n in [2u64, 3, 4] {
        expected.extend_from_slice(&n.to_le_bytes());
    }
    expected.push(0); // no membership log id
    expected.extend_from_slice(&0u64.to_le_bytes()); // no voter set
    expected.extend_from_slice(&0u64.to_le_bytes()); // no member
    expected.extend_from_slice(&1u64.to_le_bytes()); // one record
    expected.extend_from_slice(&2u64.to_le_bytes());
    expected.extend_from_slice("é".as_bytes());
    expected.extend_from_slice(&7u64.to_le_bytes());
    expected.extend_from_slice(&1u64.to_le_bytes());
    expected.push(b'a');
    expected.extend_from_slice(&0u64.to_le_bytes());
    expected.push(1);
    assert_eq!(encode_state_machine(&sm), expected);
}

#[test]
fn corrupt_snapshot_is_rejected() {
    let mut source = Store::new();
    source
        .apply_to_state_machine(&vec![connect(1, "c1", 1), connect(2, "c2", 2)])
        .unwrap();
    let snapshot = source.build_snapshot().unwrap();
    let good = snapshot.snapshot.clone();

    let mut target = Store::new();
    target
        .apply_to_state_machine(&vec![connect(1, "mine", 9)])
        .unwrap();
    let untouched = |s: &Store| {
        assert_eq!(
            s.read(&ChannelId::new("mine".to_string())),
            Some(record("mine", 9, ChannelStatus::Established))
        );
        assert_eq!(s.get_current_snapshot(), None);
    };

    // cut short
    let mut short = good.clone();
    short.pop();
    assert_eq!(
        target.install_snapshot(&snapshot.meta, short),
        Err(StorageError::SnapshotCorrupt)
    );
    untouched(&target);
    // bytes left over
    let mut long = good.clone();
    long.push(0);
    assert_eq!(
        target.install_snapshot(&snapshot.meta, long),
        Err(StorageError::SnapshotCorrupt)
    );
    untouched(&target);
    // empty
    assert_eq!(
        target.install_snapshot(&snapshot.meta, vec![]),
        Err(StorageError::SnapshotCorrupt)
    );
    // a status byte that is no status
    let mut bad_status = good.clone();
    let last = bad_status.len() - 1;
    bad_status[last] = 3;
    assert_eq!(
        target.install_snapshot(&snapshot.meta, bad_status),
        Err(StorageError::SnapshotCorrupt)
    );
    // a text that is not UTF-8: the first record's channel id is "c1"
    let mut bad_text = good.clone();
    let at = bad_text.iter().position(|b| *b == b'c').unwrap();
    bad_text[at] = 0xff;
    assert_eq!(
        target.install_snapshot(&snapshot.meta, bad_text),
        Err(StorageError::SnapshotCorrupt)
    );
    // two records of one channel: rename "c2" to "c1"
    let mut twice = good.clone();
    let at = twice.windows(2).position(|w| w == b"c2").unwrap();
    twice[at + 1] = b'1';
    assert_eq!(
        target.install_snapshot(&snapshot.meta, twice),
        Err(StorageError::SnapshotCorrupt)
    );
    untouched(&target);
    // a list length that the bytes cannot hold
    let mut huge = vec![0u8, 0u8];
    huge.extend_from_slice(&u64::MAX.to_le_bytes());
    assert_eq!(
        target.install_snapshot(&snapshot.meta, huge),
        Err(StorageError::SnapshotCorrupt)
    );
    untouched(&target);
    // and the good bytes are taken
    assert_eq!(target.install_snapshot(&snapshot.meta, good), Ok(()));
    assert_eq!(target.read(&ChannelId::new("mine".to_string())), None);
}

#[test]
fn install_keeps_log_and_vote() {
    let mut source = Store::new();
    source
        .apply_to_state_machine(&vec![connect(1, "c1", 1)])
        .unwrap();
    let snapshot = source.build_snapshot().unwrap();
    let mut target = Store::new();
    target.append_to_log(vec![blank(1), blank(2)]);
    let vote = Vote {
        leader_id: LeaderId {
            term: 1,
            node_id: 1,
        },
        committed: true,
    };
    target.save_vote(&vote).unwrap();
    let meta = SnapshotMeta {
        last_log_id: snapshot.meta.last_log_id,
        last_membership: snapshot.meta.last_membership.clone(),
        snapshot_id: "given".to_string(),
    };
    target.install_snapshot(&meta, snapshot.snapshot).unwrap();
    assert_eq!(
        indexes(&target.try_get_log_entries(all().0, all().1)),
        vec![1, 2]
    );
    assert_eq!(target.read_vote(), Some(vote));
    assert_eq!(
        target.get_current_snapshot().unwrap().meta.snapshot_id,
        "given"
    );
}

#[test]
fn later_connect_of_a_channel_wins() {
    let mut store = Store::new();
    store
        .apply_to_state_machine(&vec![connect(1, "other", 3), connect(2, "c", 1), connect(3, "c", 2)])
        .unwrap();
    assert_eq!(
        store.read(&ChannelId::new("c".to_string())),
        Some(record("c", 2, ChannelStatus::Established))
    );
    assert_eq!(
        store.read(&ChannelId::new("other".to_string())),
        Some(record("other", 3, ChannelStatus::Established))
    );
    assert_eq!(store.last_applied_state().0, Some(log_id(1, 1, 3)));
    let mut snapshot_source = StateMachine::new();
    snapshot_source.apply(&connect(1, "other", 3));
    snapshot_source.apply(&connect(2, "c", 1));
    snapshot_source.apply(&connect(3, "c", 2));
    assert_eq!(snapshot_source.records().len(), 2);
}
