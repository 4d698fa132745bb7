//! Laws of the mechanism: when decryption recovers the message, and that
//! decapsulation then returns the secret of the encapsulation.

use crate::kyber::decapsulate_spec;
use crate::kyber::decrypt_spec;
use crate::kyber::embedded_public_key;
use crate::kyber::encode_public_key_spec;
use crate::kyber::public_key_seed;
use crate::kyber::public_key_vector;
use crate::kyber::rejection_secret_spec;
use crate::kyber::rejection_seed;
use crate::kyber::encrypt_spec;
use crate::kyber::secret_key_vector;
use crate::kyber::shared_secret_spec;
use crate::kyber::KyberError;
use crate::linear::message_poly_spec;
use crate::linear::message_spec;
use crate::packing::compress_poly_spec;
use crate::packing::decompress_poly_spec;
use crate::packing::decompress_vec_spec;
use crate::packing::packed_bit;
use crate::packing::packed_byte;
use crate::packing::stream_bit;
use crate::packing::unpacked_value;
use crate::packing_laws::lemma_low_bits_is_remainder;
use crate::packing_laws::lemma_vector_round_trip_exact;
use crate::packing_laws::low_bits;
use crate::ring::bit_of;
use crate::ring::compress_coeff;
use crate::ring::decompress_coeff;
use crate::ring::is_reduced;
use crate::ring::lemma_pow2_values;
use crate::ring::pow2;
use crate::ring::ring_distance;
use vstd::prelude::*;

verus! {

/// Bit `k` of a 32-byte message.
pub open spec fn message_bit(m: Seq<u8>, k: int) -> int {
    bit_of(m[k / 8] as int, (k % 8) as nat)
}

/// A coefficient within 831 of the value that carries a bit decodes to
/// that bit: 0 carries the bit 0, and 1665 carries the bit 1.
pub proof fn lemma_decode_bit(x: int, bit: int)
    requires
        bit == 0 || bit == 1,
        ring_distance(x, bit * 1665) < 832,
    ensures
        compress_coeff(x, 1) == bit,
{
    lemma_pow2_values();
    let xm = x % 3329;
    assert(2 * xm * pow2(1) == 4 * xm) by (nonlinear_arith)
        requires
            pow2(1) == 2,
    ;
    assert((x - bit * 1665) % 3329 == (xm - bit * 1665) % 3329);
    if bit == 0 {
        assert(xm <= 831 || xm >= 2498);
    } else {
        assert(834 <= xm <= 2496);
    }
}

/// Coefficient `k` of the ring element that carries a message is 1665
/// times bit `k` of the message.
pub proof fn lemma_message_poly_coefficient(m: Seq<u8>, k: int)
    requires
        0 <= k < 256,
    ensures
        message_poly_spec(m)[k] == 1665 * message_bit(m, k),
{
    lemma_pow2_values();
    reveal_with_fuel(unpacked_value, 2);
    let b = stream_bit(m, k * 1 + 1 - 1);
    assert(k * 1 + 1 - 1 == k);
    assert(unpacked_value(m, 1, k, 1) == b * pow2(0));
    assert(b == message_bit(m, k));
    assert(b == 0 || b == 1);
    assert(decompress_coeff(b, 1) == (b * 3329 + 1) / 2) by (nonlinear_arith)
        requires
            decompress_coeff(b, 1) == (b * 3329 + pow2(0)) / pow2(1),
            pow2(0) == 1,
            pow2(1) == 2,
    ;
}

/// The lowest `t` bits of byte `j` of a ring element packed at one bit
/// per coefficient are the lowest `t` bits of byte `j` of the message
/// whose bits the coefficients decode to.
proof fn lemma_one_bit_byte(p: Seq<i16>, m: Seq<u8>, j: int, t: nat)
    requires
        p.len() == 256,
        m.len() == 32,
        0 <= j < 32,
        t <= 8,
        forall|k: int| 0 <= k < 256 ==> compress_coeff(#[trigger] p[k] as int, 1) == message_bit(m, k),
    ensures
        packed_byte(p, 1, j, t) == low_bits(m[j] as int, t),
    decreases t,
{
    if t > 0 {
        lemma_one_bit_byte(p, m, j, (t - 1) as nat);
        lemma_pow2_values();
        let pos = 8 * j + t - 1;
        assert(pos / 1 == pos && pos % 1 == 0);
        let c = compress_coeff(p[pos] as int, 1);
        assert(c == message_bit(m, pos));
        assert(pos / 8 == j && pos % 8 == t - 1);
        assert(c == 0 || c == 1);
        assert(packed_bit(p, 1, pos) == bit_of(c, 0));
        assert(bit_of(c, 0) == c);
    }
}

/// A ring element whose coefficients decode to the bits of a message
/// packs, at one bit per coefficient, to the message.
pub proof fn lemma_one_bit_packing(p: Seq<i16>, m: Seq<u8>)
    requires
        p.len() == 256,
        m.len() == 32,
        forall|k: int| 0 <= k < 256 ==> compress_coeff(#[trigger] p[k] as int, 1) == message_bit(m, k),
    ensures
        compress_poly_spec(p, 1) == m,
{
    lemma_pow2_values();
    assert forall|j: int| 0 <= j < 32 implies compress_poly_spec(p, 1)[j] == m[j] by {
        lemma_one_bit_byte(p, m, j, 8);
        lemma_low_bits_is_remainder(m[j] as int, 8);
    }
    assert(compress_poly_spec(p, 1) =~= m);
}

/// The noise of a ciphertext for a message is small when every
/// coefficient of what the secret recovers lies within 831 of the
/// coefficient that carries the message's bit.
pub open spec fn noise_is_small(sk: Seq<u8>, ct: Seq<u8>, m: Seq<u8>) -> bool {
    let s = secret_key_vector(sk);
    let u = decompress_vec_spec(ct.subrange(0, 960), 10);
    let v = decompress_poly_spec(ct.subrange(960, 1088), 4);
    forall|k: int|
        0 <= k < 256 ==> ring_distance(
            #[trigger] message_spec(s, u, v)[k] as int,
            message_poly_spec(m)[k] as int,
        ) < 832
}

/// Decryption recovers the message of every ciphertext whose noise is
/// small.
pub proof fn lemma_decrypt_recovers_message(sk: Seq<u8>, ct: Seq<u8>, m: Seq<u8>)
    requires
        m.len() == 32,
        noise_is_small(sk, ct, m),
    ensures
        decrypt_spec(sk, ct) == m,
{
    let s = secret_key_vector(sk);
    let u = decompress_vec_spec(ct.subrange(0, 960), 10);
    let v = decompress_poly_spec(ct.subrange(960, 1088), 4);
    let noisy = message_spec(s, u, v);
    assert forall|k: int| 0 <= k < 256 implies compress_coeff(#[trigger] noisy[k] as int, 1)
        == message_bit(m, k) by {
        lemma_message_poly_coefficient(m, k);
        let bit = message_bit(m, k);
        assert(bit == 0 || bit == 1);
        assert(ring_distance(noisy[k] as int, message_poly_spec(m)[k] as int) < 832);
        assert(1665 * bit == bit * 1665);
        assert(message_poly_spec(m)[k] as int == bit * 1665);
        lemma_decode_bit(noisy[k] as int, bit);
    }
    lemma_one_bit_packing(noisy, m);
}

/// Decapsulation undoes encapsulation: if the secret key embeds the
/// public key and recovers the message `m` from its ciphertext, the
/// secret that decapsulation returns is the one that encapsulation
/// returned.
pub proof fn lemma_decapsulate_recovers_secret(sk: Seq<u8>, pk: Seq<u8>, m: Seq<u8>)
    requires
        sk.len() == 2400,
        embedded_public_key(sk) == pk,
        decrypt_spec(sk, encrypt_spec(pk, m)) == m,
        encrypt_spec(pk, m).len() == 1088,
    ensures
        decapsulate_spec(sk, encrypt_spec(pk, m)) == Ok::<Seq<u8>, KyberError>(
            shared_secret_spec(m, encrypt_spec(pk, m)),
        ),
{
}

/// Decapsulation undoes every encapsulation whose noise is small.
pub proof fn lemma_round_trip_when_noise_is_small(sk: Seq<u8>, pk: Seq<u8>, m: Seq<u8>)
    requires
        sk.len() == 2400,
        m.len() == 32,
        embedded_public_key(sk) == pk,
        encrypt_spec(pk, m).len() == 1088,
        noise_is_small(sk, encrypt_spec(pk, m), m),
    ensures
        decapsulate_spec(sk, encrypt_spec(pk, m)) == Ok::<Seq<u8>, KyberError>(
            shared_secret_spec(m, encrypt_spec(pk, m)),
        ),
{
    lemma_decrypt_recovers_message(sk, encrypt_spec(pk, m), m);
    lemma_decapsulate_recovers_secret(sk, pk, m);
}

/// Decapsulation fails on no ciphertext of the right length: for a secret
/// key of 2400 bytes and any 1088 bytes it returns a secret.
pub proof fn lemma_decapsulate_never_fails(sk: Seq<u8>, ct: Seq<u8>)
    requires
        sk.len() == 2400,
        ct.len() == 1088,
    ensures
        decapsulate_spec(sk, ct) is Ok,
{
}

/// A ciphertext that was changed in transit, but from which the secret
/// still recovers the message `m`, is not what encrypting `m` gives, so
/// decapsulation returns the secret derived from the rejection seed and
/// the changed ciphertext.
pub proof fn lemma_changed_ciphertext_is_rejected(
    sk: Seq<u8>,
    pk: Seq<u8>,
    m: Seq<u8>,
    changed: Seq<u8>,
)
    requires
        sk.len() == 2400,
        changed.len() == 1088,
        embedded_public_key(sk) == pk,
        changed != encrypt_spec(pk, m),
        decrypt_spec(sk, changed) == m,
    ensures
        decapsulate_spec(sk, changed) == Ok::<Seq<u8>, KyberError>(
            rejection_secret_spec(rejection_seed(sk), changed),
        ),
{
}

/// Decoding an encoded public key gives back the vector and the seed it
/// was made from, for a vector with coefficients in `[0, q)` and a seed
/// of 32 bytes.
pub proof fn lemma_public_key_round_trip(t: Seq<Seq<i16>>, rho: Seq<u8>)
    requires
        t.len() == 3,
        forall|i: int| 0 <= i < 3 ==> is_reduced(#[trigger] t[i]),
        rho.len() == 32,
    ensures
        encode_public_key_spec(t, rho).len() == 1184,
        public_key_vector(encode_public_key_spec(t, rho)) == t,
        public_key_seed(encode_public_key_spec(t, rho)) == rho,
{
    lemma_vector_round_trip_exact(t);
    let pk = encode_public_key_spec(t, rho);
    assert(pk.subrange(0, 1152) =~= crate::packing::compress_vec_spec(t, 12));
    assert(pk.subrange(1152, 1184) =~= rho);
}

} // verus!
