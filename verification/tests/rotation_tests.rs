use vpn_daemon::key_rotation::{
    copy_config, KeyRotationManager, PeerSession, RotationConfig, RotationError,
};
use vpn_daemon::kyber::KyberSecretKey;
use vpn_daemon::pq_handshake::{
    HandshakeError, HandshakeMessage, HandshakeResult, PeerInfo, PostQuantumHandshake,
};
use vpn_daemon::session::{copy_key_material, key_material_from};

fn create_test_handshake_result() -> HandshakeResult {
    HandshakeResult {
        send_key: vec![1u8; 32],
        recv_key: vec![2u8; 32],
        combined_secret: vec![3u8; 32],
        message: HandshakeMessage {
            kyber_public: vec![4u8; 1184],
            x25519_public: [5u8; 32],
            encrypted_timestamp: vec![6u8; 8],
            nonce: [7u8; 12],
        },
        session_id: "test-session-123".to_string(),
        kyber_sk: KyberSecretKey { data: vec![8u8; 2400] },
        x25519_sk: vec![9u8; 32],
    }
}

fn result_named(session_id: &str) -> HandshakeResult {
    let mut r = create_test_handshake_result();
    r.session_id = session_id.to_string();
    r
}

fn info(id: &str) -> PeerInfo {
    PeerInfo { id: id.to_string(), static_public_key: None, kyber_public_key: None }
}

#[test]
fn test_register_and_get_keys() {
    let config = RotationConfig::default();
    let mut manager = KeyRotationManager::new(config);

    let peer_id = "peer-1".to_string();
    let peer_info = PeerInfo {
        id: peer_id.clone(),
        static_public_key: None,
        kyber_public_key: None,
    };

    let handshake_result = create_test_handshake_result();

    manager.register_peer(peer_id.clone(), peer_info, handshake_result).unwrap();

    let keys = manager.get_current_keys(&peer_id).unwrap();
    assert_eq!(keys.session_id, "test-session-123");
    assert_eq!(keys.key_id, 0);
}

#[test]
fn test_unregister_peer() {
    let config = RotationConfig::default();
    let mut manager = KeyRotationManager::new(config);

    let peer_id = "peer-1".to_string();
    let peer_info = PeerInfo {
        id: peer_id.clone(),
        static_public_key: None,
        kyber_public_key: None,
    };

    manager.register_peer(peer_id.clone(), peer_info, create_test_handshake_result()).unwrap();

    manager.unregister_peer(&peer_id);

    let result = manager.get_current_keys(&peer_id);
    assert!(result.is_err());
}

#[test]
fn test_get_stats() {
    let config = RotationConfig::default();
    let mut manager = KeyRotationManager::new(config);

    // Register multiple peers
    for i in 0..5 {
        let peer_id = format!("peer-{}", i);
        let peer_info = PeerInfo {
            id: peer_id.clone(),
            static_public_key: None,
            kyber_public_key: None,
        };
        manager.register_peer(peer_id, peer_info, create_test_handshake_result()).unwrap();
    }

    let stats = manager.get_stats();
    assert_eq!(stats.total_peers, 5);
    assert_eq!(stats.total_keys, 5);
}

#[test]
fn test_packet_threshold_rekey() {
    let mut config = RotationConfig::default();
    config.rekey_packet_threshold = Some(100);

    let mut manager = KeyRotationManager::new(config);

    let peer_id = "peer-1".to_string();
    let peer_info = PeerInfo {
        id: peer_id.clone(),
        static_public_key: None,
        kyber_public_key: None,
    };

    manager.register_peer(peer_id.clone(), peer_info, create_test_handshake_result()).unwrap();

    // Increment packets up to threshold
    for _ in 0..99 {
        manager.increment_packet_count(&peer_id).unwrap();
    }

    // Should not have triggered rekey yet
    let keys = manager.get_current_keys(&peer_id).unwrap();
    assert_eq!(keys.key_id, 0);

    // One more packet crosses the threshold and rotates the keys
    let _ = manager.increment_packet_count(&peer_id);
    let keys = manager.get_current_keys(&peer_id).unwrap();
    assert_eq!(keys.key_id, 1);
    assert_eq!(manager.get_stats().total_keys, 2);

    // The count starts again after the rotation
    for _ in 0..99 {
        manager.increment_packet_count(&peer_id).unwrap();
    }
    assert_eq!(manager.get_current_keys(&peer_id).unwrap().key_id, 1);
    manager.increment_packet_count(&peer_id).unwrap();
    assert_eq!(manager.get_current_keys(&peer_id).unwrap().key_id, 2);
}

#[test]
fn register_rekey_unregister() {
    let mut manager = KeyRotationManager::new(RotationConfig::default());
    manager.register_peer("p1".to_string(), info("p1"), result_named("abc123")).unwrap();
    let keys = manager.get_current_keys("p1").unwrap();
    assert_eq!(keys.key_id, 0);
    assert_eq!(keys.session_id, "abc123");
    assert_eq!(keys.send_key, vec![1u8; 32]);
    assert_eq!(keys.recv_key, vec![2u8; 32]);
    assert_eq!(keys.kyber_sk.data, vec![8u8; 2400]);
    assert_eq!(keys.x25519_sk, vec![9u8; 32]);

    let result = manager.initiate_rekey("p1").unwrap();
    let keys = manager.get_current_keys("p1").unwrap();
    assert_eq!(keys.key_id, 1);
    assert_eq!(keys.session_id, result.session_id);
    assert_eq!(keys.send_key, result.send_key);
    assert_eq!(keys.recv_key, result.recv_key);
    assert_eq!(keys.kyber_sk.data, result.kyber_sk.data);
    assert_eq!(keys.x25519_sk, result.x25519_sk);
    let stats = manager.get_stats();
    assert_eq!(stats.total_peers, 1);
    assert_eq!(stats.total_keys, 2);

    manager.unregister_peer("p1");
    match manager.get_current_keys("p1") {
        Err(RotationError::PeerNotFound(name)) => assert_eq!(name, "p1"),
        _ => panic!("the peer is still there"),
    }
    assert_eq!(manager.get_stats().total_peers, 0);
}

#[test]
fn rekey_in_progress_is_refused_and_changes_nothing() {
    let mut manager = KeyRotationManager::new(RotationConfig::default());
    manager.register_peer("p".to_string(), info("p"), result_named("first")).unwrap();
    manager.begin_rekey("p").unwrap();
    assert!(manager.is_rekeying("p"));
    assert!(matches!(manager.initiate_rekey("p"), Err(RotationError::RekeyInProgress)));
    assert!(matches!(manager.initiate_rekey_at("p", 5), Err(RotationError::RekeyInProgress)));
    assert!(matches!(manager.begin_rekey("p"), Err(RotationError::RekeyInProgress)));
    let keys = manager.get_current_keys("p").unwrap();
    assert_eq!(keys.key_id, 0);
    assert_eq!(keys.session_id, "first");
    assert_eq!(manager.get_stats().total_keys, 1);

    let outcome = PostQuantumHandshake::new().perform_initiator_handshake(&info("p"));
    let result = manager.finish_rekey_at("p", outcome, 10).unwrap();
    assert!(!manager.is_rekeying("p"));
    let keys = manager.get_current_keys("p").unwrap();
    assert_eq!(keys.key_id, 1);
    assert_eq!(keys.session_id, result.session_id);
    assert_eq!(keys.created_at, 10);
    assert!(manager.initiate_rekey("p").is_ok());
}

#[test]
fn failed_handshake_clears_the_mark_and_keeps_the_keys() {
    let mut manager = KeyRotationManager::new(RotationConfig::default());
    manager.register_peer_at("p".to_string(), info("p"), result_named("first"), 1).unwrap();
    manager.begin_rekey("p").unwrap();
    let r = manager.finish_rekey_at("p", Err(HandshakeError::TimestampError), 2);
    assert!(matches!(r, Err(RotationError::HandshakeError(HandshakeError::TimestampError))));
    assert!(!manager.is_rekeying("p"));
    assert_eq!(manager.get_current_keys("p").unwrap().key_id, 0);
    assert!(matches!(
        manager.finish_rekey_at("nobody", Err(HandshakeError::InvalidMessage), 2),
        Err(RotationError::PeerNotFound(_))
    ));
}

#[test]
fn retained_keys_never_exceed_the_maximum() {
    let mut config = RotationConfig::default();
    config.max_keys_per_peer = 3;
    let mut manager = KeyRotationManager::new(config);
    manager.register_peer("p".to_string(), info("p"), create_test_handshake_result()).unwrap();
    for n in 1u64..=8 {
        let result = manager.initiate_rekey("p").unwrap();
        let keys = manager.get_current_keys("p").unwrap();
        assert_eq!(keys.key_id, n);
        assert_eq!(keys.session_id, result.session_id);
        let stats = manager.get_stats();
        assert!(stats.total_keys <= 3);
        assert_eq!(stats.total_keys, if n < 3 { n as usize + 1 } else { 3 });
    }
}

#[test]
fn unknown_peers_are_not_found() {
    let mut manager = KeyRotationManager::new(RotationConfig::default());
    assert!(matches!(manager.get_current_keys("x"), Err(RotationError::PeerNotFound(_))));
    assert!(matches!(manager.initiate_rekey("x"), Err(RotationError::PeerNotFound(_))));
    assert!(matches!(manager.increment_packet_count("x"), Err(RotationError::PeerNotFound(_))));
    assert!(matches!(manager.begin_rekey("x"), Err(RotationError::PeerNotFound(_))));
    let msg = create_test_handshake_result().message;
    assert!(matches!(manager.complete_rekey("x", msg), Err(RotationError::PeerNotFound(_))));
    assert!(!manager.is_rekeying("x"));
    assert!(!manager.rotation_due("x", 1_000_000));
    manager.unregister_peer("x");
    assert_eq!(manager.get_stats().total_peers, 0);
}

#[test]
fn a_registered_identifier_is_not_overwritten() {
    let mut manager = KeyRotationManager::new(RotationConfig::default());
    manager.register_peer("p".to_string(), info("p"), result_named("first")).unwrap();
    let second = manager.register_peer("p".to_string(), info("p"), result_named("second"));
    assert!(matches!(second, Err(RotationError::KeyGeneration(_))));
    assert_eq!(manager.get_current_keys("p").unwrap().session_id, "first");
    assert_eq!(manager.get_stats().total_peers, 1);
}

#[test]
fn responder_rekey_installs_the_answer() {
    let mut manager = KeyRotationManager::new(RotationConfig::default());
    manager.register_peer_at("p".to_string(), info("p"), create_test_handshake_result(), 100).unwrap();
    for _ in 0..3 {
        manager.increment_packet_count_at("p", 100).unwrap();
    }
    let init = PostQuantumHandshake::new().perform_initiator_handshake(&info("me")).unwrap();
    let result = manager.complete_rekey_at("p", &init.message, 200).unwrap();
    assert_eq!(result.message.kyber_public.len(), 1088);
    let keys = manager.get_current_keys("p").unwrap();
    assert_eq!(keys.key_id, 1);
    assert_eq!(keys.created_at, 200);
    assert_eq!(keys.send_key, result.send_key);
    assert_eq!(manager.get_stats_at(200).total_keys, 2);
    let again = manager.complete_rekey("p", init.message).unwrap();
    assert_eq!(manager.get_current_keys("p").unwrap().session_id, again.session_id);

    let bad = create_test_handshake_result().message;
    let mut short = bad;
    short.kyber_public.truncate(5);
    assert!(matches!(
        manager.complete_rekey_at("p", &short, 300),
        Err(RotationError::HandshakeError(HandshakeError::KyberError(_)))
    ));
    assert_eq!(manager.get_current_keys("p").unwrap().key_id, 2);
}

#[test]
fn sweep_rotates_only_overdue_peers() {
    let mut config = RotationConfig::default();
    config.rotation_interval = 100;
    let mut manager = KeyRotationManager::new(config);
    manager.register_peer_at("old".to_string(), info("old"), result_named("o"), 1_000).unwrap();
    manager.register_peer_at("new".to_string(), info("new"), result_named("n"), 1_950).unwrap();
    manager.register_peer_at("busy".to_string(), info("busy"), result_named("b"), 1_000).unwrap();
    manager.begin_rekey("busy").unwrap();

    assert!(!manager.rotation_due("old", 1_100));
    assert!(manager.rotation_due("old", 1_101));
    assert!(!manager.rotation_due("busy", 2_000));
    let stats = manager.get_stats_at(2_000);
    assert_eq!(stats.total_peers, 3);
    assert_eq!(stats.total_keys, 3);
    assert_eq!(stats.peers_needing_rotation, 2);
    assert_eq!(stats.config.rotation_interval, 100);

    let failed = manager.sweep_at(2_000);
    assert!(failed.is_empty());
    let old = manager.get_current_keys("old").unwrap();
    assert_eq!(old.key_id, 1);
    assert_eq!(old.created_at, 2_000);
    assert_eq!(manager.get_current_keys("new").unwrap().key_id, 0);
    assert_eq!(manager.get_current_keys("busy").unwrap().key_id, 0);
    let stats = manager.get_stats_at(2_000);
    assert_eq!(stats.total_keys, 4);
    assert_eq!(stats.peers_needing_rotation, 1);

    manager.rotate_peer_keys("new", 2_000).unwrap();
    assert_eq!(manager.get_current_keys("new").unwrap().key_id, 0);
    manager.rotate_peer_keys("new", 2_051).unwrap();
    assert_eq!(manager.get_current_keys("new").unwrap().key_id, 1);
    assert!(manager.sweep().is_empty());
    assert_eq!(manager.get_stats().total_peers, 3);
    assert!(manager.sweep_at(1_000_000).is_empty());
    assert_eq!(manager.get_current_keys("old").unwrap().key_id, 2);
    assert_eq!(manager.get_current_keys("new").unwrap().key_id, 2);
    assert_eq!(manager.get_current_keys("busy").unwrap().key_id, 0);
    assert!(manager.rotate_peer_keys("nobody", 1_000_000).is_ok());
}

#[test]
fn sweep_does_nothing_when_rotation_is_off() {
    let mut config = RotationConfig::default();
    config.rotation_interval = 0;
    config.auto_rotate = false;
    let mut manager = KeyRotationManager::new(config);
    manager.register_peer_at("p".to_string(), info("p"), result_named("x"), 1).unwrap();
    assert!(manager.sweep().is_empty());
    assert_eq!(manager.get_current_keys("p").unwrap().key_id, 0);
    assert!(!manager.config().auto_rotate);
}

#[test]
fn expired_keys_are_dropped() {
    let mut config = RotationConfig::default();
    config.key_expiration = 1_000;
    let mut session = PeerSession::new(info("p"), &result_named("k0"), 0);
    assert_eq!(session.keys.len(), 1);
    assert_eq!(session.key_counter, 1);
    session.install_key(&result_named("k1"), &config, 600, true).unwrap();
    session.install_key(&result_named("k2"), &config, 999, true).unwrap();
    let ids: Vec<u64> = session.keys.iter().map(|k| k.key_id).collect();
    assert_eq!(ids, vec![2, 1, 0]);
    session.install_key(&result_named("k3"), &config, 1_000, true).unwrap();
    let ids: Vec<u64> = session.keys.iter().map(|k| k.key_id).collect();
    assert_eq!(ids, vec![3, 2, 1]);
    session.cleanup_old_keys(&config, 1_999);
    let ids: Vec<u64> = session.keys.iter().map(|k| k.key_id).collect();
    assert_eq!(ids, vec![3]);
    session.cleanup_old_keys(&config, 2_000);
    assert!(session.keys.is_empty());
    assert!(session.current_key().is_none());
    assert_eq!(session.key_counter, 4);
}

#[test]
fn pruning_keeps_the_newest_entries() {
    let mut config = RotationConfig::default();
    config.max_keys_per_peer = 2;
    let mut session = PeerSession::new(info("p"), &result_named("k0"), 10);
    for n in 1u64..=4 {
        session.packets_sent = 7;
        session.install_key(&result_named("k"), &config, 10 + n, n % 2 == 0).unwrap();
        assert_eq!(session.keys[0].key_id, n);
        assert_eq!(session.keys[0].created_at, 10 + n);
        assert_eq!(session.keys.len(), 2);
        assert_eq!(session.keys[1].key_id, n - 1);
        assert_eq!(session.last_rotation, 10 + n);
        assert_eq!(session.packets_sent, if n % 2 == 0 { 0 } else { 7 });
    }
    config.max_keys_per_peer = 0;
    session.cleanup_old_keys(&config, 20);
    assert!(session.keys.is_empty());
    let future = key_material_from(&result_named("later"), 9, 1_000);
    assert_eq!(copy_key_material(&future).created_at, 1_000);
    session.keys.push(future);
    config.max_keys_per_peer = 5;
    session.cleanup_old_keys(&config, 20);
    assert_eq!(session.keys.len(), 1);
}

#[test]
fn exhausted_counter_is_an_error() {
    let config = RotationConfig::default();
    let mut session = PeerSession::new(info("p"), &result_named("k0"), 0);
    session.key_counter = u64::MAX;
    let r = session.install_key(&result_named("k1"), &config, 1, true);
    assert!(matches!(r, Err(RotationError::KeyGeneration(_))));
    assert_eq!(session.keys.len(), 1);
    assert_eq!(session.key_counter, u64::MAX);
}

#[test]
fn packets_are_counted_up_to_the_threshold() {
    let mut session = PeerSession::new(info("p"), &result_named("k0"), 0);
    assert!(!session.record_packet(Some(2)));
    assert_eq!(session.packets_sent, 1);
    assert!(session.record_packet(Some(2)));
    assert!(session.record_packet(Some(2)));
    assert_eq!(session.packets_sent, 3);
    assert!(!session.record_packet(None));
    session.rekeying = true;
    assert!(!session.record_packet(Some(2)));
    session.rekeying = false;
    session.packets_sent = u64::MAX;
    assert!(session.record_packet(Some(u64::MAX)));
    assert_eq!(session.packets_sent, u64::MAX);
    session.last_rotation = 50;
    assert!(!session.needs_rotation(101, 100));
    assert!(!session.needs_rotation(40, 100));
    session.last_rotation = 0;
    assert!(session.needs_rotation(101, 100));
    assert!(!session.needs_rotation(100, 100));
}

#[test]
fn default_configuration() {
    let c = RotationConfig::default();
    assert_eq!(c.rotation_interval, 7200);
    assert_eq!(c.max_keys_per_peer, 5);
    assert_eq!(c.key_expiration, 86400);
    assert!(c.auto_rotate);
    assert_eq!(c.rekey_packet_threshold, Some(1_000_000));
    let d = copy_config(&c);
    assert_eq!(d.max_keys_per_peer, 5);
    assert_eq!(d.rekey_packet_threshold, Some(1_000_000));
}

#[test]
fn packets_are_counted_without_rotating() {
    let mut config = RotationConfig::default();
    config.rekey_packet_threshold = Some(3);
    let mut manager = KeyRotationManager::new(config);
    manager.register_peer_at("p".to_string(), info("p"), result_named("x"), 1).unwrap();
    assert!(!manager.count_packet("p").unwrap());
    assert!(!manager.count_packet("p").unwrap());
    assert!(manager.count_packet("p").unwrap());
    assert!(manager.count_packet("p").unwrap());
    assert_eq!(manager.get_current_keys("p").unwrap().key_id, 0);
    manager.begin_rekey("p").unwrap();
    assert!(!manager.count_packet("p").unwrap());
    assert!(matches!(manager.count_packet("q"), Err(RotationError::PeerNotFound(_))));
}

#[test]
fn stored_peer_info_is_handed_out() {
    let mut manager = KeyRotationManager::new(RotationConfig::default());
    let stored = PeerInfo {
        id: "peer-7".to_string(),
        static_public_key: Some([3u8; 32]),
        kyber_public_key: Some(vpn_daemon::KyberPublicKey { data: vec![5u8; 1184] }),
    };
    manager.register_peer_at("p".to_string(), stored, result_named("x"), 1).unwrap();
    let copy = manager.peer_info_of("p").unwrap();
    assert_eq!(copy.id, "peer-7");
    assert_eq!(copy.static_public_key, Some([3u8; 32]));
    assert_eq!(copy.kyber_public_key.unwrap().data, vec![5u8; 1184]);
    assert!(manager.peer_info_of("q").is_none());
    manager.register_peer_at("r".to_string(), info("r"), result_named("y"), 1).unwrap();
    let plain = manager.peer_info_of("r").unwrap();
    assert!(plain.static_public_key.is_none());
    assert!(plain.kyber_public_key.is_none());
}

#[test]
fn answered_keys_are_installed_without_resetting_the_count() {
    let mut manager = KeyRotationManager::new(RotationConfig::default());
    manager.register_peer_at("p".to_string(), info("p"), result_named("first"), 10).unwrap();
    manager.count_packet("p").unwrap();
    manager.begin_rekey("p").unwrap();
    let r = manager.install_responder_keys_at("p", result_named("second"), 20).unwrap();
    assert_eq!(r.session_id, "second");
    let keys = manager.get_current_keys("p").unwrap();
    assert_eq!(keys.key_id, 1);
    assert_eq!(keys.session_id, "second");
    assert_eq!(keys.created_at, 20);
    assert!(manager.is_rekeying("p"));
    assert_eq!(manager.get_stats_at(20).total_keys, 2);
    assert!(matches!(
        manager.install_responder_keys_at("q", result_named("z"), 20),
        Err(RotationError::PeerNotFound(_))
    ));
}

#[test]
fn due_peers_are_listed() {
    let mut config = RotationConfig::default();
    config.rotation_interval = 100;
    let mut manager = KeyRotationManager::new(config);
    manager.register_peer_at("a".to_string(), info("a"), result_named("a"), 1_000).unwrap();
    manager.register_peer_at("b".to_string(), info("b"), result_named("b"), 1_950).unwrap();
    manager.register_peer_at("c".to_string(), info("c"), result_named("c"), 1_000).unwrap();
    manager.register_peer_at("d".to_string(), info("d"), result_named("d"), 900).unwrap();
    manager.begin_rekey("c").unwrap();
    assert!(manager.due_peers_at(1_000).is_empty());
    let mut due = manager.due_peers_at(2_000);
    due.sort();
    assert_eq!(due, vec!["a".to_string(), "d".to_string()]);
    let mut later = manager.due_peers_at(2_051);
    later.sort();
    assert_eq!(later, vec!["a".to_string(), "b".to_string(), "d".to_string()]);
}
