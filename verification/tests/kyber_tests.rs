use rand::rngs::OsRng;
use sha2::{Digest, Sha256};
use vpn_daemon::kyber::{
    Kyber768, KyberError, KyberPublicKey, KyberSecretKey, KYBER_CIPHERTEXT_BYTES,
    KYBER_PUBLIC_KEY_BYTES, KYBER_SECRET_KEY_BYTES, KYBER_SHARED_SECRET_BYTES,
};

#[test]
fn test_keygen_sizes() {
    let kyber = Kyber768::new();
    let (sk, pk) = kyber.keygen(&mut OsRng).unwrap();

    assert_eq!(pk.data.len(), KYBER_PUBLIC_KEY_BYTES);
    assert_eq!(sk.data.len(), KYBER_SECRET_KEY_BYTES);
}

#[test]
fn test_encapsulate_decapsulate() {
    let kyber = Kyber768::new();
    let (sk, pk) = kyber.keygen(&mut OsRng).unwrap();

    let (ct, ss1) = kyber.encapsulate(&pk).unwrap();
    assert_eq!(ct.len(), KYBER_CIPHERTEXT_BYTES);
    assert_eq!(ss1.len(), KYBER_SHARED_SECRET_BYTES);

    let ss2 = kyber.decapsulate(&sk, &ct).unwrap();
    assert_eq!(ss1, ss2);
}

#[test]
fn test_multiple_encapsulations() {
    let kyber = Kyber768::new();
    let (sk, pk) = kyber.keygen(&mut OsRng).unwrap();

    for _ in 0..10 {
        let (ct, ss1) = kyber.encapsulate(&pk).unwrap();
        let ss2 = kyber.decapsulate(&sk, &ct).unwrap();
        assert_eq!(ss1, ss2);
    }
}

#[test]
fn test_different_keys_produce_different_secrets() {
    let kyber = Kyber768::new();
    let (sk1, pk1) = kyber.keygen(&mut OsRng).unwrap();
    let (_, pk2) = kyber.keygen(&mut OsRng).unwrap();

    let (ct1, ss1) = kyber.encapsulate(&pk1).unwrap();
    let (ct2, ss2) = kyber.encapsulate(&pk2).unwrap();

    assert_ne!(ct1, ct2);
    assert_ne!(ss1, ss2);

    // ss1 should decrypt with sk1
    let dec1 = kyber.decapsulate(&sk1, &ct1).unwrap();
    assert_eq!(ss1, dec1);

    // ss1 should NOT decrypt to ss2 with sk1
    assert_ne!(dec1, ss2);
}

#[test]
fn test_invalid_ciphertext() {
    let kyber = Kyber768::new();
    let (sk, pk) = kyber.keygen(&mut OsRng).unwrap();

    let (ct, ss1) = kyber.encapsulate(&pk).unwrap();

    // Corrupt ciphertext
    let mut corrupted = ct.clone();
    corrupted[0] ^= 0xFF;

    // Should still return a shared secret (implicit rejection)
    let ss2 = kyber.decapsulate(&sk, &corrupted).unwrap();

    // But it should differ from the secret of the intact ciphertext
    assert_ne!(ss1, ss2);
}

#[test]
fn round_trip_over_many_keys() {
    let kyber = Kyber768::new();
    for round in 0u8..20 {
        let d = [round; 32];
        let z = [round.wrapping_add(100); 32];
        let (sk, pk) = kyber.keygen_from_seed(&d, &z);
        for msg in 0u8..5 {
            let m = [msg.wrapping_mul(51).wrapping_add(round); 32];
            let (ct, ss) = kyber.encapsulate_message(&pk, &m).unwrap();
            assert_eq!(kyber.decrypt(&sk.data, &ct), m.to_vec());
            assert_eq!(kyber.decapsulate(&sk, &ct).unwrap(), ss);
        }
    }
}

#[test]
fn keygen_from_seed_is_a_function_of_the_seeds() {
    let kyber = Kyber768::new();
    let (sk1, pk1) = kyber.keygen_from_seed(&[1u8; 32], &[2u8; 32]);
    let (sk2, pk2) = kyber.keygen_from_seed(&[1u8; 32], &[2u8; 32]);
    let (sk3, pk3) = kyber.keygen_from_seed(&[3u8; 32], &[2u8; 32]);
    assert_eq!(sk1.data, sk2.data);
    assert_eq!(pk1.data, pk2.data);
    assert_ne!(pk1.data, pk3.data);
    assert_ne!(sk1.data, sk3.data);
    assert_eq!(pk1.data.len(), 1184);
    assert_eq!(sk1.data.len(), 2400);
}

#[test]
fn secret_key_embeds_public_key_digest_and_seed() {
    let kyber = Kyber768::new();
    let z = [0x5au8; 32];
    let (sk, pk) = kyber.keygen_from_seed(&[4u8; 32], &z);
    assert_eq!(&sk.data[1152..2336], &pk.data[..]);
    assert_eq!(&sk.data[2336..2368], &Sha256::digest(&pk.data)[..]);
    assert_eq!(&sk.data[2368..2400], &z[..]);
    let mut rho_input = vec![4u8; 32];
    rho_input.push(0);
    assert_eq!(&pk.data[1152..1184], &Sha256::digest(&rho_input)[..]);
    let (s, pk_in, h, z_in) = kyber.deserialize_secret_key(&sk.data).unwrap();
    assert_eq!(pk_in, pk.data);
    assert_eq!(h, Sha256::digest(&pk.data).to_vec());
    assert_eq!(z_in, z);
    let mut sigma_input = vec![4u8; 32];
    sigma_input.push(1);
    let sigma = Sha256::digest(&sigma_input);
    let expected: Vec<Vec<i16>> = kyber
        .sample_noise_vector(&sigma, 3, 0)
        .iter()
        .map(|p| p.iter().map(|c| ((*c as i32 + 3329) % 3329) as i16).collect())
        .collect();
    assert_eq!(s, expected);
}

#[test]
fn shared_secret_is_digest_of_message_and_ciphertext_digest() {
    let kyber = Kyber768::new();
    let (_, pk) = kyber.keygen_from_seed(&[8u8; 32], &[9u8; 32]);
    let m = [0xa7u8; 32];
    let (ct, ss) = kyber.encapsulate_message(&pk, &m).unwrap();
    assert_eq!(ct, kyber.encrypt(&pk.data, &m));
    let mut input = m.to_vec();
    input.extend_from_slice(&Sha256::digest(&ct));
    assert_eq!(ss, Sha256::digest(&input).to_vec());
    let (ct2, ss2) = kyber.encapsulate_message(&pk, &m).unwrap();
    assert_eq!(ct, ct2);
    assert_eq!(ss, ss2);
    let (ct3, _) = kyber.encapsulate_message(&pk, &[0xa8u8; 32]).unwrap();
    assert_ne!(ct, ct3);
}

#[test]
fn corrupted_ciphertext_gives_the_rejection_secret() {
    let kyber = Kyber768::new();
    let z = [0x33u8; 32];
    let (sk, pk) = kyber.keygen_from_seed(&[6u8; 32], &z);
    let (ct, ss) = kyber.encapsulate_message(&pk, &[0x11u8; 32]).unwrap();
    for position in [0usize, 1, 7, 500, 959, 960, 1000, 1087] {
        for bit in [0u8, 3, 7] {
            let mut bad = ct.clone();
            bad[position] ^= 1 << bit;
            let out = kyber.decapsulate(&sk, &bad).unwrap();
            assert_eq!(out.len(), 32);
            assert_ne!(out, ss);
            let mut input = z.to_vec();
            input.extend_from_slice(&Sha256::digest(&bad));
            assert_eq!(out, Sha256::digest(&input).to_vec());
        }
    }
}

#[test]
fn independent_keygens_differ() {
    let kyber = Kyber768::new();
    let mut seen: Vec<Vec<u8>> = Vec::new();
    for _ in 0..20 {
        let (_, pk) = kyber.keygen(&mut OsRng).unwrap();
        assert!(!seen.contains(&pk.data));
        seen.push(pk.data);
    }
}

#[test]
fn wrong_sizes_are_refused() {
    let kyber = Kyber768::new();
    let (sk, pk) = kyber.keygen_from_seed(&[1u8; 32], &[1u8; 32]);
    let short_pk = KyberPublicKey { data: vec![0u8; 1183] };
    match kyber.encapsulate(&short_pk) {
        Err(KyberError::InvalidPublicKeySize { expected, actual }) => {
            assert_eq!(expected, 1184);
            assert_eq!(actual, 1183);
        }
        _ => panic!("a short public key was not refused"),
    }
    assert!(matches!(
        kyber.encapsulate_message(&KyberPublicKey { data: Vec::new() }, &[0u8; 32]),
        Err(KyberError::InvalidPublicKeySize { expected: 1184, actual: 0 })
    ));
    assert!(matches!(
        kyber.deserialize_public_key(&vec![0u8; 1185]),
        Err(KyberError::InvalidPublicKeySize { expected: 1184, actual: 1185 })
    ));
    let (ct, _) = kyber.encapsulate_message(&pk, &[0u8; 32]).unwrap();
    let long_sk = KyberSecretKey { data: vec![0u8; 2401] };
    assert!(matches!(
        kyber.decapsulate(&long_sk, &ct),
        Err(KyberError::InvalidSecretKeySize { expected: 2400, actual: 2401 })
    ));
    assert!(matches!(
        kyber.decapsulate(&long_sk, &ct[..10]),
        Err(KyberError::InvalidSecretKeySize { expected: 2400, actual: 2401 })
    ));
    assert!(matches!(
        kyber.decapsulate(&sk, &ct[..1087]),
        Err(KyberError::InvalidCiphertextSize { expected: 1088, actual: 1087 })
    ));
    assert!(matches!(
        kyber.deserialize_secret_key(&[0u8; 7]),
        Err(KyberError::InvalidSecretKeySize { expected: 2400, actual: 7 })
    ));
}

#[test]
fn public_key_serialization_round_trip() {
    let kyber = Kyber768::new();
    let (_, pk) = kyber.keygen_from_seed(&[12u8; 32], &[13u8; 32]);
    let (t, rho) = kyber.deserialize_public_key(&pk.data).unwrap();
    assert_eq!(rho, pk.data[1152..].to_vec());
    assert_eq!(kyber.serialize_public_key(&t, &rho), pk.data);
    assert_eq!(kyber.serialize_public_key(&t, &[]).len(), 1152);
}

#[test]
fn any_sized_ciphertext_of_right_length_decapsulates() {
    let kyber = Kyber768::new();
    let (sk, _) = kyber.keygen_from_seed(&[21u8; 32], &[22u8; 32]);
    for fill in [0u8, 0xff, 0x5a] {
        let ct = vec![fill; 1088];
        let out = kyber.decapsulate(&sk, &ct).unwrap();
        assert_eq!(out.len(), 32);
    }
}

#[test]
fn keys_compare_by_their_bytes() {
    let kyber = Kyber768::default();
    let (sk1, pk1) = kyber.keygen_from_seed(&[1u8; 32], &[2u8; 32]);
    let (sk2, pk2) = kyber.keygen_from_seed(&[1u8; 32], &[2u8; 32]);
    let (sk3, pk3) = kyber.keygen_from_seed(&[1u8; 32], &[3u8; 32]);
    assert!(pk1 == pk2);
    assert!(sk1 == sk2);
    assert!(pk1 == pk3);
    assert!(sk1 != sk3);
    assert!(sk1.clone() == sk1);
}

#[test]
fn parameters_of_the_mechanism() {
    assert_eq!(vpn_daemon::kyber::KYBER_768_N, 256);
    assert_eq!(vpn_daemon::kyber::KYBER_768_Q, 3329);
    assert_eq!(vpn_daemon::kyber::KYBER_768_K, 3);
    assert_eq!(vpn_daemon::kyber::KYBER_768_ETA1, 3);
    assert_eq!(vpn_daemon::kyber::KYBER_768_ETA2, 2);
    assert_eq!(KYBER_PUBLIC_KEY_BYTES, 1184);
    assert_eq!(KYBER_SECRET_KEY_BYTES, 2400);
    assert_eq!(KYBER_CIPHERTEXT_BYTES, 1088);
    assert_eq!(KYBER_SHARED_SECRET_BYTES, 32);
}
