use sherpresent::channel::{ChannelManager, Peer};

#[test]
fn test_peer_management() {
    let mut manager = ChannelManager::new("test-id".to_string(), "test-channel".to_string());
    let peer = Peer::new(
        "peer-1".to_string(),
        "192.168.1.100:9000".to_string(),
        "test-channel".to_string(),
    );
    manager.add_peer(peer);
    assert_eq!(manager.get_peers().len(), 1);
    manager.remove_peer("peer-1");
    assert_eq!(manager.get_peers().len(), 0);
}

#[test]
fn test_should_execute() {
    let manager = ChannelManager::new("my-id".to_string(), "channel".to_string());
    assert!(!manager.should_execute("my-id"));
    assert!(manager.should_execute("other-id"));
}

#[test]
fn known_peer_is_refreshed_not_duplicated() {
    let mut m = ChannelManager::new("me".to_string(), "main".to_string());
    m.add_peer_at(Peer::new_at("a".into(), "1.1.1.1:1".into(), "main".into(), 0), 0);
    m.add_peer_at(Peer::new_at("a".into(), "2.2.2.2:2".into(), "other".into(), 0), 500);
    let peers = m.get_peers();
    assert_eq!(peers.len(), 1);
    assert_eq!(peers[0].address, "2.2.2.2:2");
    assert_eq!(peers[0].channel, "main");
    assert_eq!(peers[0].last_seen, 500);
}

#[test]
fn stale_peers_are_pruned_and_skipped() {
    let mut m = ChannelManager::new("me".to_string(), "main".to_string());
    m.add_peer_at(Peer::new_at("old".into(), "1:1".into(), "main".into(), 0), 0);
    m.add_peer_at(Peer::new_at("new".into(), "2:2".into(), "main".into(), 10_000), 10_000);
    assert_eq!(m.get_peer_addresses_at(15_000), vec!["1:1".to_string(), "2:2".to_string()]);
    assert_eq!(m.get_peer_addresses_at(15_001), vec!["2:2".to_string()]);
    let gone = m.prune_stale_peers_at(15_001);
    assert_eq!(gone, vec!["old".to_string()]);
    assert_eq!(m.get_peers().len(), 1);
    m.touch_peer_at("new", 30_000);
    assert!(m.prune_stale_peers_at(40_000).is_empty());
    assert!(!Peer::new_at("x".into(), "".into(), "".into(), 100).is_stale_at(50));
}

#[test]
fn changing_channel_forgets_peers() {
    let mut m = ChannelManager::new("me".to_string(), "main".to_string());
    m.add_peer_at(Peer::new_at("a".into(), "1:1".into(), "main".into(), 0), 0);
    m.set_channel_name("backup".to_string());
    assert_eq!(m.channel_name, "backup");
    assert!(m.get_peers().is_empty());
}

#[test]
fn adding_a_known_peer_refreshes_its_address() {
    let mut m = ChannelManager::new("me".to_string(), "main".to_string());
    m.add_peer(Peer::new_at("a".into(), "1.1.1.1:1".into(), "main".into(), 0));
    m.add_peer(Peer::new_at("a".into(), "2.2.2.2:2".into(), "main".into(), 0));
    let peers = m.get_peers();
    assert_eq!(peers.len(), 1);
    assert_eq!(peers[0].address, "2.2.2.2:2");
    assert!(peers[0].last_seen > 0);
}
