use qwartz::sync::{SyncNode, ZABSync};
use qwartz::QwartzError;

#[test]
fn test_sync() {
    let mut sync = ZABSync::new("node1");
    sync.add_peer(SyncNode::new("node2", "192.168.1.1", 9000));

    let result = sync.sync_with("node2");
    assert!(result.is_ok());

    let stats = sync.stats();
    assert_eq!(stats.peer_count, 1);
    assert_eq!(stats.connected_count, 1);
}

#[test]
fn new_node_is_disconnected() {
    let n = SyncNode::new("a", "10.0.0.1", 1);
    assert_eq!(n.id, "a");
    assert_eq!(n.address, "10.0.0.1");
    assert_eq!(n.port, 1);
    assert_eq!(n.last_sync, 0);
    assert!(!n.connected);
}

#[test]
fn sync_reply_and_missing_peer() {
    let mut sync = ZABSync::new("node1");
    sync.add_peer(SyncNode::new("node2", "h", 1));
    assert_eq!(sync.sync_with_at("node2", 100).unwrap(), b"SYNC:node1:1".to_vec());
    assert_eq!(sync.sync_with_at("node2", 200).unwrap(), b"SYNC:node1:2".to_vec());
    match sync.sync_with_at("nodeX", 300) {
        Err(QwartzError::SyncError(m)) => assert_eq!(m, "Peer not found"),
        _ => panic!("expected SyncError"),
    }
    let stats = sync.stats();
    assert_eq!(stats.sync_count, 2);
    assert_eq!(stats.local_id, "node1");
    assert_eq!(sync.connected_peers()[0].last_sync, 200);
}

#[test]
fn sync_counts_in_decimal() {
    let mut sync = ZABSync::new("n");
    sync.add_peer(SyncNode::new("p", "h", 1));
    let mut last = Vec::new();
    for _ in 0..10 {
        last = sync.sync_with_at("p", 1).unwrap();
    }
    assert_eq!(last, b"SYNC:n:10".to_vec());
}

#[test]
fn remove_peer_removes_every_match() {
    let mut sync = ZABSync::new("n");
    sync.add_peer(SyncNode::new("a", "h", 1));
    sync.add_peer(SyncNode::new("b", "h", 2));
    sync.add_peer(SyncNode::new("a", "h", 3));
    sync.remove_peer("a");
    assert_eq!(sync.stats().peer_count, 1);
    sync.sync_with_at("b", 5).unwrap();
    assert_eq!(sync.connected_peers()[0].port, 2);
    sync.remove_peer("zzz");
    assert_eq!(sync.stats().peer_count, 1);
}

#[test]
fn only_first_matching_peer_syncs() {
    let mut sync = ZABSync::new("n");
    sync.add_peer(SyncNode::new("a", "h", 1));
    sync.add_peer(SyncNode::new("a", "h", 2));
    sync.sync_with_at("a", 7).unwrap();
    let connected = sync.connected_peers();
    assert_eq!(connected.len(), 1);
    assert_eq!(connected[0].port, 1);
}

#[test]
fn broadcast_connects_everyone() {
    let mut sync = ZABSync::new("n");
    sync.add_peer(SyncNode::new("a", "h", 1));
    sync.add_peer(SyncNode::new("b", "h", 2));
    assert_eq!(sync.broadcast(b"data").unwrap(), 2);
    let stats = sync.stats();
    assert_eq!(stats.connected_count, 2);
    assert_eq!(stats.sync_count, 1);
}

#[test]
fn health_check_disconnects_stale_peers() {
    let mut sync = ZABSync::new("n");
    sync.add_peer(SyncNode::new("old", "h", 1));
    sync.add_peer(SyncNode::new("fresh", "h", 2));
    sync.add_peer(SyncNode::new("edge", "h", 3));
    sync.sync_with_at("old", 100).unwrap();
    sync.sync_with_at("fresh", 150).unwrap();
    sync.sync_with_at("edge", 101).unwrap();
    sync.check_health_at(161);
    let ports: Vec<u16> = sync.connected_peers().iter().map(|p| p.port).collect();
    assert_eq!(ports, vec![2, 3]);
}

#[test]
fn health_check_against_clock() {
    let mut sync = ZABSync::new("n");
    sync.add_peer(SyncNode::new("never", "h", 1));
    sync.add_peer(SyncNode::new("now", "h", 2));
    sync.sync_with("now").unwrap();
    sync.check_health();
    let ports: Vec<u16> = sync.connected_peers().iter().map(|p| p.port).collect();
    assert_eq!(ports, vec![2]);
    // A stamp in the future leaves everything as it is.
    let mut future = ZABSync::new("n");
    future.add_peer(SyncNode::new("f", "h", 9));
    future.sync_with_at("f", u64::MAX).unwrap();
    future.check_health();
    assert_eq!(future.stats().connected_count, 1);
}
