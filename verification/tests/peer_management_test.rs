use nautilus::record::{CacheError, CacheRead, PeerAddr, PeerManagement, PeerRecord};

fn peer1() -> PeerRecord {
    PeerRecord {
        addr: PeerAddr::v4(127, 0, 0, 1, 8000),
        peer_id: Some("peer1".to_string()),
        public_key: None,
        is_active: true,
        last_seen: None,
    }
}

#[test]
fn test_add_or_update_peer() {
    let mut peer_manager = PeerManagement::new("test_peers.json".to_string());
    let peer = peer1();

    peer_manager.add_or_update_peer(peer.clone());
    let retrieved_peer = peer_manager.get_peer("peer1");
    assert_eq!(retrieved_peer.unwrap().addr, peer.addr);
}

#[test]
fn test_remove_peer() {
    let mut peer_manager = PeerManagement::new("test_peers.json".to_string());
    let peer = peer1();

    peer_manager.add_or_update_peer(peer.clone());
    peer_manager.remove_peer("peer1", 0);
    let retrieved_peer = peer_manager.get_peer("peer1");
    assert!(retrieved_peer.is_none());
}

#[test]
fn test_load_and_save_peers() {
    let test_file = "test_peers.json";
    let mut peer_manager = PeerManagement::new(test_file.to_string());
    let peer = peer1();

    peer_manager.add_or_update_peer(peer.clone());
    let snapshot = peer_manager.save_to_file(0);

    let mut loaded_peer_manager = PeerManagement::new(test_file.to_string());
    loaded_peer_manager.load_from_file(CacheRead::Loaded(snapshot), 0).unwrap();
    let retrieved_peer = loaded_peer_manager.get_peer("peer1");
    assert_eq!(retrieved_peer.unwrap().addr, peer.addr);
}

#[test]
fn upsert_then_get_returns_the_record() {
    let mut registry = PeerManagement::new("peers.json".to_string());
    let record = PeerRecord {
        addr: PeerAddr::v4(10, 0, 0, 7, 4040),
        peer_id: Some("node-7".to_string()),
        public_key: Some("key-7".to_string()),
        is_active: false,
        last_seen: Some(42),
    };
    registry.add_or_update_peer(record.clone());
    let found = registry.get_peer(&record.key()).unwrap();
    assert_eq!(found.addr, record.addr);
    assert_eq!(found.peer_id, record.peer_id);
    assert_eq!(found.public_key, record.public_key);
    assert_eq!(found.is_active, record.is_active);
    assert_eq!(found.last_seen, record.last_seen);
}

#[test]
fn record_without_identity_is_filed_under_its_address() {
    let mut registry = PeerManagement::new("peers.json".to_string());
    let record = PeerRecord::seen(PeerAddr::v4(192, 168, 1, 20, 9000), 5);
    assert_eq!(record.key(), "192.168.1.20:9000");
    registry.add_or_update_peer(record);
    assert_eq!(registry.get_all_peers(), vec!["192.168.1.20:9000".to_string()]);
    let found = registry.get_peer("192.168.1.20:9000").unwrap();
    assert!(found.is_active);
    assert_eq!(found.last_seen, Some(5));
    assert_eq!(found.peer_id, None);
}

#[test]
fn upsert_with_the_same_key_overwrites() {
    let mut registry = PeerManagement::new("peers.json".to_string());
    registry.add_or_update_peer(peer1());
    let mut newer = peer1();
    newer.addr = PeerAddr::v4(127, 0, 0, 1, 9999);
    newer.is_active = false;
    registry.add_or_update_peer(newer);
    assert_eq!(registry.get_all_peers().len(), 1);
    let found = registry.get_peer("peer1").unwrap();
    assert_eq!(found.addr, PeerAddr::v4(127, 0, 0, 1, 9999));
    assert!(!found.is_active);
}

#[test]
fn remove_of_an_unknown_key_changes_nothing() {
    let mut registry = PeerManagement::new("peers.json".to_string());
    registry.add_or_update_peer(peer1());
    let snapshot = registry.remove_peer("nobody", 3);
    assert_eq!(snapshot.len(), 1);
    assert_eq!(snapshot[0].0, "peer1");
    assert!(registry.get_peer("peer1").is_some());
}

#[test]
fn remove_hands_back_the_snapshot_without_the_peer() {
    let mut registry = PeerManagement::new("peers.json".to_string());
    registry.add_or_update_peer(peer1());
    registry.add_or_update_peer(PeerRecord::seen(PeerAddr::v4(10, 1, 1, 1, 1), 90));
    let snapshot = registry.remove_peer("peer1", 100);
    assert_eq!(snapshot.len(), 1);
    assert_eq!(snapshot[0].0, "10.1.1.1:1");
    assert_eq!(snapshot[0].1.last_seen, Some(10));
    assert_eq!(registry.get_all_peers(), vec!["10.1.1.1:1".to_string()]);
}

#[test]
fn load_of_a_missing_file_gives_an_empty_registry() {
    let mut registry = PeerManagement::new("does_not_exist.json".to_string());
    assert_eq!(registry.load_from_file(CacheRead::Missing, 0), Ok(()));
    assert!(registry.get_all_peers().is_empty());
    assert_eq!(registry.cache_file(), "does_not_exist.json");
}

#[test]
fn load_of_a_bad_file_is_an_error() {
    let mut registry = PeerManagement::new("peers.json".to_string());
    registry.add_or_update_peer(peer1());
    assert_eq!(
        registry.load_from_file(CacheRead::Malformed, 0),
        Err(CacheError::Malformed)
    );
    assert_eq!(
        registry.load_from_file(CacheRead::Unreadable, 0),
        Err(CacheError::Unreadable)
    );
    assert_eq!(registry.get_all_peers().len(), 1);
}

#[test]
fn save_then_load_keeps_keys_and_fields() {
    let mut registry = PeerManagement::new("peers.json".to_string());
    registry.add_or_update_peer(PeerRecord {
        addr: PeerAddr::v4(1, 2, 3, 4, 5),
        peer_id: Some("a".to_string()),
        public_key: Some("pk".to_string()),
        is_active: true,
        last_seen: Some(70),
    });
    registry.add_or_update_peer(PeerRecord {
        addr: PeerAddr::v4(5, 6, 7, 8, 9),
        peer_id: None,
        public_key: None,
        is_active: false,
        last_seen: None,
    });
    let snapshot = registry.save_to_file(100);
    assert_eq!(snapshot.len(), 2);
    assert_eq!(snapshot[0].1.last_seen, Some(30));
    assert_eq!(snapshot[1].1.last_seen, None);

    let mut loaded = PeerManagement::new("peers.json".to_string());
    loaded.load_from_file(CacheRead::Loaded(snapshot), 1000).unwrap();
    let mut keys = loaded.get_all_peers();
    keys.sort();
    assert_eq!(keys, vec!["5.6.7.8:9".to_string(), "a".to_string()]);
    let a = loaded.get_peer("a").unwrap();
    assert_eq!(a.addr, PeerAddr::v4(1, 2, 3, 4, 5));
    assert_eq!(a.peer_id, Some("a".to_string()));
    assert_eq!(a.public_key, Some("pk".to_string()));
    assert!(a.is_active);
    assert_eq!(a.last_seen, Some(970));
    let b = loaded.get_peer("5.6.7.8:9").unwrap();
    assert_eq!(b.addr, PeerAddr::v4(5, 6, 7, 8, 9));
    assert!(!b.is_active);
    assert_eq!(b.last_seen, None);
}

#[test]
fn load_replaces_what_the_registry_held() {
    let mut registry = PeerManagement::new("peers.json".to_string());
    registry.add_or_update_peer(peer1());
    let mut other = PeerManagement::new("peers.json".to_string());
    other.add_or_update_peer(PeerRecord::seen(PeerAddr::v4(9, 9, 9, 9, 9), 1));
    let snapshot = other.save_to_file(1);
    registry.load_from_file(CacheRead::Loaded(snapshot), 1).unwrap();
    assert_eq!(registry.get_all_peers(), vec!["9.9.9.9:9".to_string()]);
}

#[test]
fn times_before_the_clock_started_are_kept_at_its_start() {
    let record = PeerRecord::seen(PeerAddr::v4(1, 1, 1, 1, 1), 50);
    let stored = record.to_stored(20);
    assert_eq!(stored.last_seen, Some(0));
    let stored = record.to_stored(80);
    assert_eq!(stored.last_seen, Some(30));
    let live = PeerRecord::from_stored(&stored, 10);
    assert_eq!(live.last_seen, Some(0));
}
