use vpn_daemon::encoding::{encode, u64_from_le_bytes, u64_to_le_bytes};
use vpn_daemon::hash::{append_bytes, array12_from, array32_from, bytes_equal, copy_range};
use vpn_daemon::kyber::{Kyber768, KyberError, KyberSecretKey};
use vpn_daemon::pq_handshake::{
    copy_message, HandshakeError, HandshakeMessage, PeerInfo, PostQuantumHandshake,
};
use vpn_daemon::x25519::{basepoint, x25519_public_key, x25519_shared_secret};

fn peer(name: &str) -> PeerInfo {
    PeerInfo { id: name.to_string(), static_public_key: None, kyber_public_key: None }
}

fn unhex(s: &str) -> Vec<u8> {
    (0..s.len() / 2).map(|i| u8::from_str_radix(&s[2 * i..2 * i + 2], 16).unwrap()).collect()
}

#[test]
fn test_full_handshake() {
    let handshake = PostQuantumHandshake::new();

    // Initiator creates handshake
    let peer_a = PeerInfo {
        id: "peer-a".to_string(),
        static_public_key: None,
        kyber_public_key: None,
    };

    let result_a = handshake.perform_initiator_handshake(&peer_a).unwrap();
    assert_eq!(result_a.send_key.len(), 32);
    assert_eq!(result_a.recv_key.len(), 32);
    assert!(!result_a.session_id.is_empty());

    // Responder processes and responds
    let peer_b = PeerInfo {
        id: "peer-b".to_string(),
        static_public_key: None,
        kyber_public_key: None,
    };

    let result_b = handshake.perform_responder_handshake(&result_a.message, &peer_b).unwrap();
    assert_eq!(result_b.send_key.len(), 32);
    assert_eq!(result_b.recv_key.len(), 32);
}

#[test]
fn test_message_serialization() {
    let handshake = PostQuantumHandshake::new();

    let msg = HandshakeMessage {
        kyber_public: vec![1u8; 1184],
        x25519_public: [2u8; 32],
        encrypted_timestamp: vec![3u8; 8],
        nonce: [4u8; 12],
    };

    let serialized = handshake.serialize_message(&msg);
    let deserialized = handshake.deserialize_message(&serialized).unwrap();

    assert_eq!(msg.kyber_public, deserialized.kyber_public);
    assert_eq!(msg.x25519_public, deserialized.x25519_public);
    assert_eq!(msg.encrypted_timestamp, deserialized.encrypted_timestamp);
    assert_eq!(msg.nonce, deserialized.nonce);
}

#[test]
fn test_different_handshakes_different_keys() {
    let handshake = PostQuantumHandshake::new();

    let peer = PeerInfo {
        id: "peer".to_string(),
        static_public_key: None,
        kyber_public_key: None,
    };

    let result1 = handshake.perform_initiator_handshake(&peer).unwrap();
    let result2 = handshake.perform_initiator_handshake(&peer).unwrap();

    assert_ne!(result1.send_key, result2.send_key);
    assert_ne!(result1.recv_key, result2.recv_key);
    assert_ne!(result1.session_id, result2.session_id);
}

#[test]
fn test_session_id_derivation() {
    let handshake = PostQuantumHandshake::new();

    let secret1 = vec![1u8; 32];
    let secret2 = vec![2u8; 32];

    let id1 = handshake.derive_session_id(&secret1);
    let id2 = handshake.derive_session_id(&secret2);
    let id1_again = handshake.derive_session_id(&secret1);

    assert_eq!(id1, id1_again);
    assert_ne!(id1, id2);
    assert_eq!(id1.len(), 32); // 16 bytes as hex = 32 chars
}

#[test]
fn session_id_is_hex_of_a_digest() {
    let handshake = PostQuantumHandshake::new();
    assert_eq!(handshake.derive_session_id(&[1u8; 32]), "d6c2c72e85851d3dc50121e5e5bf451a");
    assert_eq!(handshake.derive_session_id(&[2u8; 32]), "a7af27c44374df53a6aa5717f8b92fa5");
}

#[test]
fn derived_secrets_have_their_exact_values() {
    let handshake = PostQuantumHandshake::new();
    assert_eq!(
        handshake.combine_secrets(&[1u8; 32], &[2u8; 32]),
        unhex("60911b5042a652ee94a1e7354a2eefdf4a92f9b82afed56c405508579f1517d0")
    );
    assert_eq!(
        handshake.derive_interim_secret(&[3u8; 4], &[4u8; 2]),
        unhex("d259891a5430e6ac4dd4956ce365d3ac52a0ad89cfae37ae3fe9babe4f642778")
    );
    let (send, recv) = handshake.derive_traffic_keys(&[1u8; 32], &[5u8; 32], &[6u8; 32]);
    assert_eq!(send, unhex("01822600e425ccbc23a184a64a4cb0835500704a0c447718e513d6eda6a9ba45"));
    assert_eq!(recv, unhex("ac4b4eb291c2d17eab5e6accddf25d4fc5adf5f57cf199425aafdbaf1f17e501"));
    let (isend, irecv) = handshake.derive_initial_keys(&[1u8; 32]);
    assert_eq!(isend, unhex("c9e936fc15a721730f4eb1aaf6dff6354e938c06c26600c5a19077061dd0f1e0"));
    assert_eq!(irecv, unhex("61e1d91b9d1f94a2fc4ce518741add147c0b49f050cfa4e4883ac399c20b4c24"));
}

#[test]
fn x25519_matches_the_published_vector() {
    let alice: [u8; 32] = array32_from(
        &unhex("77076d0a7318a57d3c16c17251b26645df4c2f87ebc0992ab177fba51db92c2a"),
        0,
    );
    let bob: [u8; 32] = array32_from(
        &unhex("5dab087e624a8a4b79e17f8b83800ee66f3bb1292618b6fd1c2f8b27ff88e0eb"),
        0,
    );
    let alice_public = x25519_public_key(&alice);
    let bob_public = x25519_public_key(&bob);
    assert_eq!(
        alice_public.to_vec(),
        unhex("8520f0098930a754748b7ddcb43ef75a0dbf3a0d26381af4eba4a98eaa9b4e6a")
    );
    assert_eq!(
        bob_public.to_vec(),
        unhex("de9edb7d7b7dc1b4d35b61c2ece435373f8343c85b78674dadfc7e146f882b4f")
    );
    let shared = unhex("4a5d9d5ba4ce2de1728e3bf480350f25e07e21c947d19e3376f09b3c1e161742");
    assert_eq!(x25519_shared_secret(&alice, &bob_public).to_vec(), shared);
    assert_eq!(x25519_shared_secret(&bob, &alice_public).to_vec(), shared);
    let mut nine = [0u8; 32];
    nine[0] = 9;
    assert_eq!(basepoint(), nine);
}

#[test]
fn both_sides_derive_the_same_keys() {
    let handshake = PostQuantumHandshake::new();
    let a = handshake.perform_initiator_handshake(&peer("peer-b")).unwrap();
    assert_eq!(a.message.kyber_public.len(), 1184);
    assert_eq!(a.kyber_sk.data.len(), 2400);
    assert_eq!(&a.kyber_sk.data[1152..2336], &a.message.kyber_public[..]);
    assert_eq!(a.x25519_sk.len(), 32);
    assert_eq!(a.session_id.len(), 32);
    assert_eq!(a.message.encrypted_timestamp.len(), 8);

    let b = handshake.perform_responder_handshake(&a.message, &peer("peer-a")).unwrap();
    assert_eq!(b.message.kyber_public.len(), 1088);

    let secret: [u8; 32] = array32_from(&a.x25519_sk, 0);
    let done =
        handshake.complete_initiator_handshake_at(&a.kyber_sk, &secret, &b.message, 0).unwrap();
    assert_eq!(done.combined_secret, b.combined_secret);
    assert_eq!(done.send_key, b.recv_key);
    assert_eq!(done.recv_key, b.send_key);
    assert_ne!(done.send_key, done.recv_key);
    assert_eq!(done.session_id, b.session_id);
    assert_eq!(done.session_id, handshake.derive_session_id(&done.combined_secret));
    assert_eq!(done.message.kyber_public, b.message.kyber_public);
}

#[test]
fn initiator_result_follows_from_its_keys() {
    let handshake = PostQuantumHandshake::new();
    let a = handshake.perform_initiator_handshake(&peer("p")).unwrap();
    let secret: [u8; 32] = array32_from(&a.x25519_sk, 0);
    assert_eq!(a.message.x25519_public, x25519_public_key(&secret));
    let interim =
        handshake.derive_interim_secret(&a.message.kyber_public, &a.message.x25519_public);
    assert_eq!(a.combined_secret, interim);
    let (send, recv) = handshake.derive_initial_keys(&interim);
    assert_eq!(a.send_key, send);
    assert_eq!(a.recv_key, recv);
    assert_eq!(a.session_id, handshake.derive_session_id(&interim));
    let pair = handshake.generate_ephemeral(&mut rand::rngs::OsRng).unwrap();
    assert_eq!(pair.x25519_public, x25519_public_key(&pair.x25519_secret));
}

#[test]
fn frames_have_the_stated_layout() {
    let handshake = PostQuantumHandshake::new();
    let msg = HandshakeMessage {
        kyber_public: vec![0xaa; 3],
        x25519_public: [0xbb; 32],
        encrypted_timestamp: vec![0xcc; 2],
        nonce: [0xdd; 12],
    };
    let frame = handshake.serialize_message(&msg);
    let mut expected = vec![3u8, 0, 0xaa, 0xaa, 0xaa];
    expected.extend_from_slice(&[0xbb; 32]);
    expected.extend_from_slice(&[2, 0, 0xcc, 0xcc]);
    expected.extend_from_slice(&[0xdd; 12]);
    assert_eq!(frame, expected);
    let long = HandshakeMessage {
        kyber_public: vec![1u8; 0x0102],
        x25519_public: [0; 32],
        encrypted_timestamp: Vec::new(),
        nonce: [0; 12],
    };
    let frame = handshake.serialize_message(&long);
    assert_eq!(&frame[0..2], &[0x02, 0x01]);
    assert_eq!(frame.len(), 2 + 0x0102 + 32 + 2 + 12);
}

#[test]
fn smallest_frame_round_trips() {
    let handshake = PostQuantumHandshake::new();
    let msg = HandshakeMessage {
        kyber_public: Vec::new(),
        x25519_public: [7; 32],
        encrypted_timestamp: Vec::new(),
        nonce: [8; 12],
    };
    let frame = handshake.serialize_message(&msg);
    assert_eq!(frame.len(), 48);
    let back = handshake.deserialize_message(&frame).unwrap();
    assert!(back.kyber_public.is_empty());
    assert!(back.encrypted_timestamp.is_empty());
    assert_eq!(back.x25519_public, [7; 32]);
    assert_eq!(back.nonce, [8; 12]);
    let mut longer = frame.clone();
    longer.extend_from_slice(&[1, 2, 3]);
    let again = handshake.deserialize_message(&longer).unwrap();
    assert_eq!(again.nonce, [8; 12]);
    let copy = copy_message(&back);
    assert_eq!(copy.x25519_public, back.x25519_public);
    assert_eq!(copy.nonce, back.nonce);
}

#[test]
fn malformed_frames_are_refused() {
    let handshake = PostQuantumHandshake::new();
    assert!(matches!(handshake.deserialize_message(&[]), Err(HandshakeError::InvalidMessage)));
    assert!(matches!(
        handshake.deserialize_message(&[0u8; 47]),
        Err(HandshakeError::InvalidMessage)
    ));
    assert!(handshake.deserialize_message(&[0u8; 48]).is_ok());
    let mut overrun = vec![0u8; 60];
    overrun[0] = 13;
    assert!(matches!(
        handshake.deserialize_message(&overrun),
        Err(HandshakeError::InvalidMessage)
    ));
    overrun[0] = 12;
    assert!(handshake.deserialize_message(&overrun).is_ok());
    let mut second = vec![0u8; 60];
    second[34] = 13;
    assert!(matches!(
        handshake.deserialize_message(&second),
        Err(HandshakeError::InvalidMessage)
    ));
    second[34] = 12;
    let ok = handshake.deserialize_message(&second).unwrap();
    assert_eq!(ok.encrypted_timestamp.len(), 12);
    let mut huge = vec![0u8; 100];
    huge[0] = 0xff;
    huge[1] = 0xff;
    assert!(matches!(handshake.deserialize_message(&huge), Err(HandshakeError::InvalidMessage)));
}

#[test]
fn timestamps_are_masked_and_checked() {
    let handshake = PostQuantumHandshake::new();
    let mut key = vec![0u8; 32];
    for i in 0..32 {
        key[i] = (i as u8) * 3 + 1;
    }
    let sk = KyberSecretKey { data: key.clone() };
    let t: u64 = 0x0102_0304_0506_0708;
    let masked = handshake.mask_timestamp(t, &sk);
    let plain = t.to_le_bytes();
    for i in 0..8 {
        assert_eq!(masked[i], plain[i] ^ key[i]);
    }
    let nonce = [0u8; 12];
    assert_eq!(handshake.verify_timestamp_at(&masked, &nonce, &sk, t).unwrap(), t);
    assert_eq!(handshake.verify_timestamp_at(&masked, &nonce, &sk, t + 300).unwrap(), t);
    assert!(matches!(
        handshake.verify_timestamp_at(&masked, &nonce, &sk, t + 301),
        Err(HandshakeError::TimestampError)
    ));
    assert_eq!(handshake.verify_timestamp_at(&masked, &nonce, &sk, 0).unwrap(), t);
    let short = handshake.verify_timestamp_at(&masked[..2], &nonce, &sk, 0).unwrap();
    assert_eq!(short, 0x0708);
    let (enc, _) = handshake.encrypt_timestamp(t, &sk).unwrap();
    assert_eq!(enc, masked);
    let fresh = handshake.mask_timestamp(u64::MAX, &sk);
    assert_eq!(handshake.verify_timestamp(&fresh, &nonce, &sk).unwrap(), u64::MAX);
    let old = handshake.mask_timestamp(1, &sk);
    assert!(matches!(
        handshake.verify_timestamp(&old, &nonce, &sk),
        Err(HandshakeError::TimestampError)
    ));
}

#[test]
fn completion_checks_sizes_and_freshness() {
    let handshake = PostQuantumHandshake::new();
    let kyber = Kyber768::new();
    let (sk, pk) = kyber.keygen_from_seed(&[1u8; 32], &[2u8; 32]);
    let (ct, ss) = kyber.encapsulate_message(&pk, &[3u8; 32]).unwrap();
    let now: u64 = 1_000_000;
    let answer = HandshakeMessage {
        kyber_public: ct.clone(),
        x25519_public: x25519_public_key(&[5u8; 32]),
        encrypted_timestamp: handshake.mask_timestamp(now - 10, &sk),
        nonce: [0u8; 12],
    };
    let secret = [4u8; 32];
    let done = handshake.complete_initiator_handshake_at(&sk, &secret, &answer, now).unwrap();
    let dh = x25519_shared_secret(&secret, &answer.x25519_public);
    let combined = handshake.combine_secrets(&ss, &dh);
    assert_eq!(done.combined_secret, combined);
    let (send, recv) = handshake.derive_traffic_keys(&combined, &pk.data[0..32], &ct[0..32]);
    assert_eq!(done.send_key, send);
    assert_eq!(done.recv_key, recv);
    assert_eq!(done.kyber_sk.data, sk.data);
    assert_eq!(done.x25519_sk, secret.to_vec());

    assert!(matches!(
        handshake.complete_initiator_handshake_at(&sk, &secret, &answer, now + 291),
        Err(HandshakeError::TimestampError)
    ));
    assert!(handshake.complete_initiator_handshake_at(&sk, &secret, &answer, now + 290).is_ok());

    let mut short = copy_message(&answer);
    short.kyber_public.pop();
    assert!(matches!(
        handshake.complete_initiator_handshake_at(&sk, &secret, &short, now),
        Err(HandshakeError::KyberError(KyberError::InvalidCiphertextSize {
            expected: 1088,
            actual: 1087
        }))
    ));
    let bad_sk = KyberSecretKey { data: vec![0u8; 100] };
    assert!(matches!(
        handshake.complete_initiator_handshake_at(&bad_sk, &secret, &answer, now),
        Err(HandshakeError::KyberError(KyberError::InvalidSecretKeySize {
            expected: 2400,
            actual: 100
        }))
    ));
    assert!(handshake.complete_initiator_handshake(&bad_sk, &secret, &answer).is_err());
}

#[test]
fn responder_refuses_a_key_of_the_wrong_size() {
    let handshake = PostQuantumHandshake::new();
    let msg = HandshakeMessage {
        kyber_public: vec![1u8; 100],
        x25519_public: [2u8; 32],
        encrypted_timestamp: vec![3u8; 8],
        nonce: [4u8; 12],
    };
    assert!(matches!(
        handshake.perform_responder_handshake(&msg, &peer("x")),
        Err(HandshakeError::KyberError(KyberError::InvalidPublicKeySize {
            expected: 1184,
            actual: 100
        }))
    ));
}

#[test]
fn hex_and_little_endian_encodings() {
    assert_eq!(encode(&[0x00, 0xab, 0xff, 0x10, 0x09]), "00abff1009");
    assert_eq!(encode(&[]), "");
    assert_eq!(u64_to_le_bytes(0x0102_0304_0506_0708), vec![8, 7, 6, 5, 4, 3, 2, 1]);
    assert_eq!(u64_to_le_bytes(300), vec![44, 1, 0, 0, 0, 0, 0, 0]);
    assert_eq!(u64_from_le_bytes(&[44, 1, 0, 0, 0, 0, 0, 0]), 300);
    assert_eq!(u64_from_le_bytes(&[0xff; 8]), u64::MAX);
    assert_eq!(u64_from_le_bytes(&[0, 0, 0, 0, 0, 0, 0, 0x80]), 1u64 << 63);
}

#[test]
fn byte_helpers() {
    let mut v = vec![1u8, 2];
    append_bytes(&mut v, &[3, 4, 5]);
    assert_eq!(v, vec![1, 2, 3, 4, 5]);
    assert_eq!(copy_range(&v, 1, 4), vec![2, 3, 4]);
    assert_eq!(copy_range(&v, 2, 2), Vec::<u8>::new());
    assert!(bytes_equal(&v, &[1, 2, 3, 4, 5]));
    assert!(!bytes_equal(&v, &[1, 2, 3, 4, 6]));
    assert!(!bytes_equal(&v, &[1, 2, 3, 4]));
    let long: Vec<u8> = (0u8..50).collect();
    assert_eq!(array32_from(&long, 3).to_vec(), long[3..35].to_vec());
    assert_eq!(array12_from(&long, 38).to_vec(), long[38..50].to_vec());
}

#[test]
fn default_handler_works_like_a_new_one() {
    let handshake = PostQuantumHandshake::default();
    assert_eq!(
        handshake.derive_session_id(&[1u8; 32]),
        PostQuantumHandshake::new().derive_session_id(&[1u8; 32])
    );
}
