use node::node::{
    inspect_block, plan_shards, shard_store_path, with_wildcard_ip, BlockSummary, IpAddress,
    SocketAddress, CHANNEL_CAPACITY, DEFAULT_GC_ROUND, DEFAULT_SHARDS,
};
use tokio::sync::mpsc::channel;
use tokio::sync::mpsc::error::TrySendError;

#[test]
fn store_paths_are_decimal() {
    assert_eq!(shard_store_path(0), "db_0");
    assert_eq!(shard_store_path(7), "db_7");
    assert_eq!(shard_store_path(14), "db_14");
    assert_eq!(shard_store_path(100_000), "db_100000");
    assert_eq!(shard_store_path(u64::MAX), "db_18446744073709551615");
}

#[test]
fn plan_has_one_shard_per_index_with_distinct_stores() {
    let plan = plan_shards(DEFAULT_SHARDS);
    assert_eq!(plan.len(), 15);
    for (i, shard) in plan.iter().enumerate() {
        assert_eq!(shard.index, i as u64);
        assert_eq!(shard.store_path, format!("db_{}", i));
        assert_eq!(shard.channel_capacity, 1_000);
    }
    for a in 0..plan.len() {
        for b in 0..plan.len() {
            if a != b {
                assert_ne!(plan[a].store_path, plan[b].store_path);
            }
        }
    }
}

#[test]
fn plan_of_zero_shards_is_empty() {
    assert!(plan_shards(0).is_empty());
}

#[test]
fn inspect_flags_payload_and_sentinel_round() {
    let r = inspect_block(&BlockSummary { round: 3, payload_len: 0 });
    assert!(!r.has_transactions);
    assert!(!r.sentinel_round);
    let r = inspect_block(&BlockSummary { round: DEFAULT_GC_ROUND, payload_len: 2 });
    assert!(r.has_transactions);
    assert!(r.sentinel_round);
    let r = inspect_block(&BlockSummary { round: 100_000, payload_len: 0 });
    assert!(r.sentinel_round);
}

#[test]
fn wildcard_keeps_port() {
    let addr = SocketAddress { ip: IpAddress::V4([127, 0, 0, 1]), port: 9000 };
    let w = with_wildcard_ip(addr);
    assert_eq!(w.ip, IpAddress::V4([0, 0, 0, 0]));
    assert_eq!(w.port, 9000);
    let addr6 = SocketAddress { ip: IpAddress::V6([0, 0, 0, 0, 0, 0, 0, 1]), port: 443 };
    let w = with_wildcard_ip(addr6);
    assert_eq!(w, SocketAddress { ip: IpAddress::V4([0, 0, 0, 0]), port: 443 });
}

#[test]
fn full_commit_channel_holds_sender_until_drained() {
    let (tx, mut rx) = channel::<u64>(CHANNEL_CAPACITY);
    for round in 0..CHANNEL_CAPACITY as u64 {
        assert!(tx.try_send(round).is_ok());
    }
    assert!(matches!(tx.try_send(1_000), Err(TrySendError::Full(1_000))));
    assert_eq!(rx.try_recv().ok(), Some(0));
    assert!(tx.try_send(1_000).is_ok());
}

#[test]
fn commit_channel_delivers_in_order() {
    let (tx, mut rx) = channel::<BlockSummary>(CHANNEL_CAPACITY);
    for round in 1..=5u64 {
        tx.try_send(BlockSummary { round, payload_len: (round % 2) as usize }).unwrap();
    }
    drop(tx);
    let mut seen = Vec::new();
    while let Ok(b) = rx.try_recv() {
        seen.push((b.round, inspect_block(&b).has_transactions));
    }
    assert_eq!(seen, vec![(1, true), (2, false), (3, true), (4, false), (5, true)]);
}
