use vpn_daemon::kyber::Kyber768;
use vpn_daemon::linear::{poly_add, poly_sub};
use vpn_daemon::ring::{compress_value, decompress_value, poly_zero, pow2_exec, reduce_mod_q};
use sha2::{Digest, Sha256};
use vpn_daemon::sampling::{accept_from_block, cbd_poly_from_block};

fn monomial(degree: usize, coeff: i16) -> Vec<i16> {
    let mut p = vec![0i16; 256];
    p[degree] = coeff;
    p
}

#[test]
fn reduce_brings_values_into_range() {
    assert_eq!(reduce_mod_q(0), 0);
    assert_eq!(reduce_mod_q(3329), 0);
    assert_eq!(reduce_mod_q(3330), 1);
    assert_eq!(reduce_mod_q(-1), 3328);
    assert_eq!(reduce_mod_q(-3329), 0);
    assert_eq!(reduce_mod_q(2147483647), (2147483647i64 % 3329) as i16);
    assert_eq!(reduce_mod_q(-2147483648), ((-2147483648i64).rem_euclid(3329)) as i16);
}

#[test]
fn powers_of_two() {
    assert_eq!(pow2_exec(0), 1);
    assert_eq!(pow2_exec(1), 2);
    assert_eq!(pow2_exec(12), 4096);
    assert_eq!(pow2_exec(16), 65536);
}

#[test]
fn poly_mul_wraps_with_sign_flip() {
    let kyber = Kyber768::new();
    let x = monomial(1, 1);
    let x255 = monomial(255, 1);
    let c = kyber.poly_mul(&x, &x255);
    assert_eq!(c[0], 3328);
    for k in 1..256 {
        assert_eq!(c[k], 0);
    }
}

#[test]
fn poly_mul_small_product() {
    let kyber = Kyber768::new();
    let mut a = vec![0i16; 256];
    a[0] = 1;
    a[1] = 1;
    let c = kyber.poly_mul(&a, &a);
    assert_eq!(c[0], 1);
    assert_eq!(c[1], 2);
    assert_eq!(c[2], 1);
    for k in 3..256 {
        assert_eq!(c[k], 0);
    }
}

#[test]
fn poly_mul_reduces_and_takes_negative_coefficients() {
    let kyber = Kyber768::new();
    let a = monomial(0, 3000);
    let b = monomial(0, 3000);
    let c = kyber.poly_mul(&a, &b);
    assert_eq!(c[0], (9_000_000i64 % 3329) as i16);
    let n = monomial(3, -2);
    let m = monomial(4, 5);
    let d = kyber.poly_mul(&n, &m);
    assert_eq!(d[7], 3329 - 10);
    let w = kyber.poly_mul(&monomial(200, -2), &monomial(100, 5));
    assert_eq!(w[44], 10);
}

#[test]
fn poly_mul_commutes_on_a_sample() {
    let kyber = Kyber768::new();
    let mut a = vec![0i16; 256];
    let mut b = vec![0i16; 256];
    for i in 0..256 {
        a[i] = ((i * 37 + 11) % 3329) as i16;
        b[i] = ((i * i + 5) % 3329) as i16;
    }
    assert_eq!(kyber.poly_mul(&a, &b), kyber.poly_mul(&b, &a));
}

#[test]
fn add_and_sub_reduce() {
    let a = monomial(0, 3328);
    let b = monomial(0, 2);
    assert_eq!(poly_add(&a, &b)[0], 1);
    assert_eq!(poly_sub(&b, &a)[0], 3);
    assert_eq!(poly_sub(&a, &b)[0], 3326);
    assert_eq!(poly_add(&poly_zero(), &monomial(5, -1))[5], 3328);
    assert_eq!(poly_zero(), vec![0i16; 256]);
}

#[test]
fn compress_values_are_rounded() {
    assert_eq!(compress_value(0, 1), 0);
    assert_eq!(compress_value(832, 1), 0);
    assert_eq!(compress_value(833, 1), 1);
    assert_eq!(compress_value(1665, 1), 1);
    assert_eq!(compress_value(2496, 1), 1);
    assert_eq!(compress_value(2497, 1), 0);
    assert_eq!(compress_value(1665, 4), 8);
    assert_eq!(compress_value(3328, 10), 0);
    assert_eq!(compress_value(1, 11), 1);
    assert_eq!(compress_value(-1, 12), compress_value(3328, 12));
    assert_eq!(compress_value(3328, 12), 4095);
}

#[test]
fn decompress_values_are_rounded() {
    assert_eq!(decompress_value(0, 1), 0);
    assert_eq!(decompress_value(1, 1), 1665);
    assert_eq!(decompress_value(8, 4), 1665);
    assert_eq!(decompress_value(1023, 10), 3326);
    assert_eq!(decompress_value(1, 11), 2);
    assert_eq!(decompress_value(4095, 12), 3328);
}

#[test]
fn compress_then_decompress_stays_close() {
    for d in 1u8..=12 {
        let levels: i64 = 1 << d;
        let bound: i64 = (3329 + levels) / (2 * levels);
        for x in 0i16..3329 {
            let y = decompress_value(compress_value(x, d), d);
            let r = ((y as i64 - x as i64) % 3329 + 3329) % 3329;
            let dist = if r <= 3329 - r { r } else { 3329 - r };
            assert!(dist <= bound);
        }
    }
}

#[test]
fn twelve_bits_lose_nothing() {
    for x in 0i16..3329 {
        assert_eq!(decompress_value(compress_value(x, 12), 12), x);
    }
}

#[test]
fn compress_poly_packs_low_bits_first() {
    let kyber = Kyber768::new();
    let mut p = vec![0i16; 256];
    p[0] = 1665;
    p[1] = 208;
    p[2] = 3121;
    let bytes = kyber.compress_poly(&p, 4);
    assert_eq!(bytes.len(), 128);
    assert_eq!(bytes[0], 8 | (1 << 4));
    assert_eq!(bytes[1], 15);
    let ten = kyber.compress_poly(&p, 10);
    assert_eq!(ten.len(), 320);
    assert_eq!(ten[0], 0);
    assert_eq!(ten[1], 2);
    assert_eq!(ten[2], 1);
    let one = kyber.compress_poly(&monomial(9, 1665), 1);
    assert_eq!(one.len(), 32);
    assert_eq!(one[1], 2);
    assert_eq!(one[0], 0);
}

#[test]
fn decompress_poly_reads_low_bits_first() {
    let kyber = Kyber768::new();
    let mut bytes = vec![0u8; 128];
    bytes[0] = 0x18;
    let p = kyber.decompress_poly(&bytes, 4);
    assert_eq!(p[0], 1665);
    assert_eq!(p[1], 208);
    assert_eq!(p[2], 0);
    let mut m = vec![0u8; 32];
    m[1] = 2;
    let q = kyber.decompress_poly(&m, 1);
    assert_eq!(q[9], 1665);
    assert_eq!(q[8], 0);
}

#[test]
fn poly_compression_round_trip_at_twelve_bits() {
    let kyber = Kyber768::new();
    let mut p = vec![0i16; 256];
    for i in 0..256 {
        p[i] = ((i * 13 + 7) % 3329) as i16;
    }
    let bytes = kyber.compress_poly(&p, 12);
    assert_eq!(bytes.len(), 384);
    assert_eq!(kyber.decompress_poly(&bytes, 12), p);
}

#[test]
fn vectors_compress_one_after_the_other() {
    let kyber = Kyber768::new();
    let v = vec![monomial(0, 1665), monomial(1, 1665), monomial(2, 1665)];
    let bytes = kyber.compress_vec(&v, 4);
    assert_eq!(bytes.len(), 384);
    assert_eq!(bytes[0], 8);
    assert_eq!(bytes[128], 8 << 4);
    assert_eq!(bytes[257], 8);
    let back = kyber.decompress_vec(&bytes, 4);
    assert_eq!(back.len(), 3);
    assert_eq!(back[1][1], 1665);
    assert_eq!(back[2][2], 1665);
    assert_eq!(back[0][1], 0);
    assert_eq!(kyber.compress_vec(&Vec::new(), 4), Vec::<u8>::new());
}

#[test]
fn cbd_counts_low_bits_against_high_bits() {
    assert_eq!(Kyber768::cbd(0b000111, 3), 3);
    assert_eq!(Kyber768::cbd(0b111000, 3), -3);
    assert_eq!(Kyber768::cbd(0b101011, 3), 0);
    assert_eq!(Kyber768::cbd(0b0110, 2), 0);
    assert_eq!(Kyber768::cbd(0b0011, 2), 2);
    assert_eq!(Kyber768::cbd(0b1100, 2), -2);
    assert_eq!(Kyber768::cbd(0xff, 2), 0);
    assert_eq!(Kyber768::cbd(0b01, 1), 1);
    assert_eq!(Kyber768::cbd(0x0f, 4), 4);
}

#[test]
fn uniform_sampling_rejects_large_values() {
    let block = [0x00u8, 0x0d, 0x01, 0x0d, 0x34, 0x12, 0xff, 0xff, 0x07];
    let mut p = vec![0i16; 256];
    let filled = accept_from_block(&mut p, 0, &block);
    assert_eq!(filled, 1);
    assert_eq!(p[0], 3328);
    assert_eq!(p[1], 0);
    let filled = accept_from_block(&mut p, filled, &[0x00, 0x0d, 0x01, 0x00, 0x00, 0x00]);
    assert_eq!(filled, 4);
    assert_eq!(&p[0..5], &[3328, 3328, 1, 0, 0]);
    p[4] = 77;
    assert_eq!(accept_from_block(&mut p, 4, &[0xff, 0xff]), 4);
    assert_eq!(p[4], 77);
}

#[test]
fn uniform_sampling_stops_at_256_values() {
    let mut p = vec![0i16; 256];
    let filled = accept_from_block(&mut p, 254, &[1, 0, 2, 0, 3, 0, 4, 0]);
    assert_eq!(filled, 256);
    assert_eq!(p[254], 1);
    assert_eq!(p[255], 2);
    assert_eq!(accept_from_block(&mut p, 256, &[9, 0]), 256);
    assert_eq!(p[255], 2);
    assert_eq!(p.len(), 256);
}

#[test]
fn uniform_poly_of_a_seed() {
    let kyber = Kyber768::new();
    let p = kyber.sample_uniform_poly(&[0u8; 32], 0);
    assert_eq!(p.len(), 256);
    assert_eq!(&p[0..6], &[1444, 1868, 2213, 1874, 375, 671]);
    assert_eq!(&p[250..], &[2915, 1185, 1278, 3033, 720, 1086]);
    assert_eq!(p.iter().map(|c| *c as i64).sum::<i64>() % 100000, 31425);
    assert_eq!(*p.iter().min().unwrap(), 10);
    assert_eq!(*p.iter().max().unwrap(), 3320);
    let q = kyber.sample_uniform_poly(&[0u8; 32], 5);
    assert_eq!(&q[0..4], &[1414, 1738, 610, 1984]);
    assert_eq!(q.iter().map(|c| *c as i64).sum::<i64>() % 100000, 44122);
    assert_eq!(p, kyber.sample_uniform_poly(&[0u8; 32], 0));
}

#[test]
fn uniform_poly_is_what_the_blocks_yield() {
    let kyber = Kyber768::new();
    let seed = [3u8; 32];
    let nonce: u16 = 0x0102;
    let mut expected = vec![0i16; 256];
    let mut filled = 0;
    let mut counter: u16 = 0;
    while filled < 256 {
        let mut input = seed.to_vec();
        input.extend_from_slice(&nonce.to_le_bytes());
        input.extend_from_slice(&counter.to_le_bytes());
        filled = accept_from_block(&mut expected, filled, &Sha256::digest(&input));
        counter += 1;
    }
    assert_eq!(kyber.sample_uniform_poly(&seed, nonce), expected);
    for c in expected.iter() {
        assert!(0 <= *c && *c < 3329);
    }
}

#[test]
fn noise_poly_of_a_seed() {
    let kyber = Kyber768::new();
    let p = kyber.sample_poly_cbd(&[7u8; 32], 2, 1);
    assert_eq!(&p[0..8], &[-1, 1, 0, 0, -2, 0, 1, -1]);
    assert_eq!(&p[64..72], &[1, -1, 0, 1, 0, -1, 1, 2]);
    assert_eq!(&p[248..], &[0, -2, 1, 0, -1, 2, -2, -2]);
    assert_eq!(p.iter().filter(|c| **c != 0).count(), 171);
    assert_eq!(p.iter().map(|c| *c as i64).sum::<i64>(), -6);
    let q = kyber.sample_poly_cbd(&[7u8; 32], 3, 1);
    assert_eq!(&q[0..8], &[-1, 1, 0, 2, 0, 0, -3, 0]);
    assert_eq!(&q[43..51], &[-1, 1, 0, -1, 1, 0, 1, 0]);
    assert_eq!(&q[250..], &[1, 0, -1, -1, 0, 1]);
    assert_eq!(q.iter().filter(|c| **c != 0).count(), 175);
    assert_eq!(q.iter().map(|c| *c as i64).sum::<i64>(), 19);
    for c in q.iter() {
        assert!(-3 <= *c && *c <= 3);
    }
}

#[test]
fn noise_poly_is_what_the_blocks_yield() {
    let kyber = Kyber768::new();
    let seed = [9u8; 32];
    for eta in [2u32, 3] {
        let mut buf: Vec<u8> = Vec::new();
        for c in 0..(2 * eta) as u8 {
            let mut input = seed.to_vec();
            input.push(4);
            input.push(c);
            buf.extend_from_slice(&Sha256::digest(&input));
        }
        assert_eq!(buf.len(), 64 * eta as usize);
        assert_eq!(kyber.sample_poly_cbd(&seed, eta, 4), cbd_poly_from_block(&buf, eta));
    }
}

#[test]
fn noise_from_a_block_of_ones() {
    let p = cbd_poly_from_block(&[0xffu8; 128], 2);
    assert_eq!(p, vec![0i16; 256]);
    let mut block = vec![0u8; 192];
    block[0] = 0b00_000111;
    let q = cbd_poly_from_block(&block, 3);
    assert_eq!(q[0], 3);
    assert_eq!(q[1], 0);
}

#[test]
fn matrix_and_its_transpose() {
    let kyber = Kyber768::new();
    let a = kyber.sample_matrix(&[9u8; 32], false);
    let t = kyber.sample_matrix(&[9u8; 32], true);
    for i in 0..3 {
        for j in 0..3 {
            assert_eq!(a[i][j], t[j][i]);
            assert_eq!(a[i][j], kyber.sample_uniform_poly(&[9u8; 32], (j + 3 * i) as u16));
        }
    }
}

#[test]
fn noise_vector_uses_consecutive_nonces() {
    let kyber = Kyber768::new();
    let v = kyber.sample_noise_vector(&[7u8; 32], 2, 4);
    assert_eq!(v.len(), 3);
    for i in 0..3 {
        assert_eq!(v[i], kyber.sample_poly_cbd(&[7u8; 32], 2, 4 + i as u8));
    }
}

#[test]
fn message_is_recovered_without_noise() {
    let kyber = Kyber768::new();
    let zero = vec![vec![0i16; 256]; 3];
    let mut m = [0u8; 32];
    m[0] = 0b1010_0101;
    m[31] = 0x80;
    let v = kyber.compute_ciphertext_v(&zero, &zero, &vec![0i16; 256], &m);
    assert_eq!(v[0], 1665);
    assert_eq!(v[1], 0);
    assert_eq!(v[255], 1665);
    let noisy = kyber.compute_message(&zero, &zero, &v);
    assert_eq!(kyber.compress_poly(&noisy, 1), m.to_vec());
}

#[test]
fn public_vector_is_matrix_times_secret_plus_error() {
    let kyber = Kyber768::new();
    let mut a = vec![vec![vec![0i16; 256]; 3]; 3];
    a[0][0][0] = 2;
    a[0][1][1] = 1;
    a[2][2][0] = 1;
    let mut s = vec![vec![0i16; 256]; 3];
    s[0][0] = 3;
    s[1][0] = -1;
    s[2][5] = 7;
    let mut e = vec![vec![0i16; 256]; 3];
    e[0][0] = 1;
    e[1][9] = -2;
    let t = kyber.compute_public_key(&a, &s, &e);
    assert_eq!(t[0][0], 7);
    assert_eq!(t[0][1], 3328);
    assert_eq!(t[1][9], 3327);
    assert_eq!(t[2][5], 7);
    assert_eq!(kyber.compute_ciphertext_u(&a, &s, &e), t);
    assert_eq!(kyber.inner_product(&a[0], &s)[0], 6);
}

#[test]
fn packed_ring_elements_come_back_close() {
    let kyber = Kyber768::default();
    let mut p = vec![0i16; 256];
    for i in 0..256 {
        p[i] = ((i * 13 + 1) % 3329) as i16;
    }
    p[7] = -5;
    p[8] = 3328;
    for d in [1u8, 4, 10, 11, 12] {
        let levels: i64 = 1 << d;
        let bound: i64 = (3329 + levels) / (2 * levels);
        let back = kyber.decompress_poly(&kyber.compress_poly(&p, d), d);
        for i in 0..256 {
            assert_eq!(back[i], decompress_value(compress_value(p[i], d), d));
            let r = ((back[i] as i64 - p[i] as i64) % 3329 + 3329) % 3329;
            let dist = if r <= 3329 - r { r } else { 3329 - r };
            assert!(dist <= bound);
        }
    }
}
