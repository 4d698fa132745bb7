//! The key-encapsulation mechanism: key generation, encapsulation and
//! decapsulation over the module of rank three.

pub use crate::ring::KYBER_768_ETA1;
pub use crate::ring::KYBER_768_ETA2;
pub use crate::ring::KYBER_768_K;
pub use crate::ring::KYBER_768_N;
pub use crate::ring::KYBER_768_Q;

use crate::entropy::os_random_bytes;
use crate::entropy::os_rng;
use crate::hash::append_bytes;
use crate::hash::array32_from;
use crate::hash::bytes_equal;
use crate::hash::copy_range;
use crate::hash::sha256;
use crate::hash::sha256_digest;
use crate::linear::ciphertext_v_spec;
use crate::linear::mat_vec_add_spec;
use crate::linear::message_spec;
use crate::packing::compress_poly_spec;
use crate::packing::compress_vec_spec;
use crate::packing::decompress_poly_spec;
use crate::packing::decompress_vec_spec;
use crate::ring::is_poly_vec;
use crate::ring::is_reduced;
use crate::ring::vec_polys;
use crate::sampling::matrix_spec;
use crate::sampling::noise_vector_spec;
use crate::sampling::sample_cbd_spec;
use rand::rngs::OsRng;
use vstd::prelude::*;

verus! {

/// Size of an encoded public key in bytes.
pub const KYBER_PUBLIC_KEY_BYTES: usize = 1184;

/// Size of an encoded secret key in bytes.
pub const KYBER_SECRET_KEY_BYTES: usize = 2400;

/// Size of a ciphertext in bytes.
pub const KYBER_CIPHERTEXT_BYTES: usize = 1088;

/// Size of a shared secret in bytes.
pub const KYBER_SHARED_SECRET_BYTES: usize = 32;

/// What the mechanism can refuse.
#[derive(Debug)]
pub enum KyberError {
    /// A public key of the wrong length.
    InvalidPublicKeySize { expected: usize, actual: usize },
    /// A secret key of the wrong length.
    InvalidSecretKeySize { expected: usize, actual: usize },
    /// A ciphertext of the wrong length.
    InvalidCiphertextSize { expected: usize, actual: usize },
    /// Decapsulation could not be carried out.
    DecapsulationFailed,
    /// A parameter was unusable; the text says which.
    InvalidParameter(String),
}

/// An encoded public key.
#[derive(Debug, Clone, PartialEq)]
pub struct KyberPublicKey {
    pub data: Vec<u8>,
}

/// An encoded secret key.
#[derive(Debug, Clone, PartialEq)]
pub struct KyberSecretKey {
    pub data: Vec<u8>,
}

/// The key-encapsulation mechanism. It holds no state.
pub struct Kyber768;

/// The seed of the public matrix, derived from the key seed `d`.
pub open spec fn matrix_seed_spec(d: Seq<u8>) -> Seq<u8> {
    sha256(d + seq![0u8])
}

/// The seed of the secret and the error, derived from the key seed `d`.
pub open spec fn noise_seed_spec(d: Seq<u8>) -> Seq<u8> {
    sha256(d + seq![1u8])
}

/// The secret vector `s` of the key seed `d`.
pub open spec fn secret_vector_spec(d: Seq<u8>) -> Seq<Seq<i16>> {
    noise_vector_spec(noise_seed_spec(d), 3, 0)
}

/// The public vector `t = A s + e` of the key seed `d`.
pub open spec fn public_vector_spec(d: Seq<u8>) -> Seq<Seq<i16>> {
    mat_vec_add_spec(
        matrix_spec(matrix_seed_spec(d), false),
        secret_vector_spec(d),
        noise_vector_spec(noise_seed_spec(d), 3, 3),
    )
}

/// The encoded public key: `t` at 12 bits per coefficient, then the matrix
/// seed.
pub open spec fn encode_public_key_spec(t: Seq<Seq<i16>>, rho: Seq<u8>) -> Seq<u8> {
    compress_vec_spec(t, 12) + rho
}

/// The encoded secret key: `s` at 12 bits per coefficient, the encoded
/// public key, its digest, and the rejection seed `z`.
pub open spec fn encode_secret_key_spec(s: Seq<Seq<i16>>, pk: Seq<u8>, z: Seq<u8>) -> Seq<u8> {
    compress_vec_spec(s, 12) + pk + sha256(pk) + z
}

/// The public key of the key seed `d`.
pub open spec fn public_key_spec(d: Seq<u8>) -> Seq<u8> {
    encode_public_key_spec(public_vector_spec(d), matrix_seed_spec(d))
}

/// The secret key of the key seed `d` and the rejection seed `z`.
pub open spec fn secret_key_spec(d: Seq<u8>, z: Seq<u8>) -> Seq<u8> {
    encode_secret_key_spec(secret_vector_spec(d), public_key_spec(d), z)
}

/// The vector `t` that an encoded public key holds.
pub open spec fn public_key_vector(pk: Seq<u8>) -> Seq<Seq<i16>> {
    decompress_vec_spec(pk.subrange(0, 1152), 12)
}

/// The matrix seed that an encoded public key holds.
pub open spec fn public_key_seed(pk: Seq<u8>) -> Seq<u8> {
    pk.subrange(1152, 1184)
}

/// The vector `s` that an encoded secret key holds.
pub open spec fn secret_key_vector(sk: Seq<u8>) -> Seq<Seq<i16>> {
    decompress_vec_spec(sk.subrange(0, 1152), 12)
}

/// The public key that an encoded secret key embeds.
pub open spec fn embedded_public_key(sk: Seq<u8>) -> Seq<u8> {
    sk.subrange(1152, 2336)
}

/// The digest of the public key that an encoded secret key holds.
pub open spec fn embedded_key_digest(sk: Seq<u8>) -> Seq<u8> {
    sk.subrange(2336, 2368)
}

/// The rejection seed that an encoded secret key holds.
pub open spec fn rejection_seed(sk: Seq<u8>) -> Seq<u8> {
    sk.subrange(2368, 2400)
}

/// The seed of the encryption noise: a digest of the message and of the
/// digest of the public key.
pub open spec fn coins_spec(pk: Seq<u8>, m: Seq<u8>) -> Seq<u8> {
    sha256(m + sha256(pk))
}

/// The ciphertext of the message `m` under the public key `pk`, with all
/// noise derived from `m` and `pk`.
pub open spec fn encrypt_spec(pk: Seq<u8>, m: Seq<u8>) -> Seq<u8> {
    let g = coins_spec(pk, m);
    let r = noise_vector_spec(g, 3, 0);
    let e1 = noise_vector_spec(g, 2, 3);
    let e2 = sample_cbd_spec(g, 2, 6);
    let u = mat_vec_add_spec(matrix_spec(public_key_seed(pk), true), r, e1);
    let v = ciphertext_v_spec(public_key_vector(pk), r, e2, m);
    compress_vec_spec(u, 10) + compress_poly_spec(v, 4)
}

/// The message that the secret key `sk` recovers from the ciphertext `ct`.
pub open spec fn decrypt_spec(sk: Seq<u8>, ct: Seq<u8>) -> Seq<u8> {
    let s = secret_key_vector(sk);
    let u = decompress_vec_spec(ct.subrange(0, 960), 10);
    let v = decompress_poly_spec(ct.subrange(960, 1088), 4);
    compress_poly_spec(message_spec(s, u, v), 1)
}

/// The shared secret of a message and its ciphertext.
pub open spec fn shared_secret_spec(m: Seq<u8>, ct: Seq<u8>) -> Seq<u8> {
    sha256(m + sha256(ct))
}

/// The secret that stands in when a ciphertext is not the encryption of
/// the message recovered from it.
pub open spec fn rejection_secret_spec(z: Seq<u8>, ct: Seq<u8>) -> Seq<u8> {
    sha256(z + sha256(ct))
}

/// Whether `ct` is exactly what encrypting the message recovered from it
/// under the embedded public key gives.
pub open spec fn ciphertext_checks(sk: Seq<u8>, ct: Seq<u8>) -> bool {
    encrypt_spec(embedded_public_key(sk), decrypt_spec(sk, ct)) == ct
}

/// The secret that decapsulation returns.
pub open spec fn decaps_spec(sk: Seq<u8>, ct: Seq<u8>) -> Seq<u8> {
    if ciphertext_checks(sk, ct) {
        shared_secret_spec(decrypt_spec(sk, ct), ct)
    } else {
        rejection_secret_spec(rejection_seed(sk), ct)
    }
}

/// What decapsulation owes for a secret key and a ciphertext of any length.
pub open spec fn decapsulate_spec(sk: Seq<u8>, ct: Seq<u8>) -> Result<Seq<u8>, KyberError> {
    if sk.len() != 2400 {
        Err(KyberError::InvalidSecretKeySize { expected: 2400, actual: sk.len() as usize })
    } else if ct.len() != 1088 {
        Err(KyberError::InvalidCiphertextSize { expected: 1088, actual: ct.len() as usize })
    } else {
        Ok(decaps_spec(sk, ct))
    }
}

/// A result of bytes, with the bytes taken as a sequence.
pub open spec fn bytes_result_view(r: Result<Vec<u8>, KyberError>) -> Result<Seq<u8>, KyberError> {
    match r {
        Ok(v) => Ok(v@),
        Err(e) => Err(e),
    }
}

impl Default for Kyber768 {
    /// A handle on the mechanism.
    fn default() -> (k: Self)
        ensures
            k == Kyber768,
    {
        Kyber768
    }
}

impl Kyber768 {
    /// A handle on the mechanism.
    pub fn new() -> (k: Self)
        ensures
            k == Kyber768,
    {
        Kyber768
    }

    /// Generates a key pair from fresh randomness. Fails only if the
    /// random number generator does.
    pub fn keygen(&self, rng: &mut OsRng) -> (r: Result<(KyberSecretKey, KyberPublicKey), KyberError>)
        ensures
            match r {
                Ok((sk, pk)) => exists|d: Seq<u8>, z: Seq<u8>|
                    {
                        &&& d.len() == 32
                        &&& z.len() == 32
                        &&& pk.data@ == public_key_spec(d)
                        &&& #[trigger] secret_key_spec(d, z) == sk.data@
                    },
                Err(e) => e is InvalidParameter,
            },
            r matches Ok((sk, pk)) ==> {
                &&& pk.data@.len() == 1184
                &&& sk.data@.len() == 2400
                &&& embedded_public_key(sk.data@) == pk.data@
            },
    {
        let d = match os_random_bytes(rng, 32) {
            Ok(bytes) => bytes,
            Err(_) => {
                return Err(KyberError::InvalidParameter("random number generator failed".to_owned()));
            },
        };
        let zv = match os_random_bytes(rng, 32) {
            Ok(bytes) => bytes,
            Err(_) => {
                return Err(KyberError::InvalidParameter("random number generator failed".to_owned()));
            },
        };
        let z: [u8; 32] = array32_from(zv.as_slice(), 0);
        assert(z@ == zv@);
        let dd: [u8; 32] = array32_from(d.as_slice(), 0);
        assert(dd@ == d@);
        let (sk, pk) = self.keygen_from_seed(&dd, &z);
        Ok((sk, pk))
    }

    /// The key pair of a key seed `d` and a rejection seed `z`.
    pub fn keygen_from_seed(&self, d: &[u8; 32], z: &[u8; 32]) -> (r: (
        KyberSecretKey,
        KyberPublicKey,
    ))
        ensures
            r.1.data@ == public_key_spec(d@),
            r.0.data@ == secret_key_spec(d@, z@),
            r.1.data@.len() == 1184,
            r.0.data@.len() == 2400,
            embedded_public_key(r.0.data@) == r.1.data@,
            rejection_seed(r.0.data@) == z@,
    {
        let mut rho_input: Vec<u8> = Vec::new();
        append_bytes(&mut rho_input, d.as_slice());
        rho_input.push(0u8);
        assert(rho_input@ =~= d@ + seq![0u8]);
        let rho: Vec<u8> = sha256_digest(rho_input.as_slice());
        let mut sigma_input: Vec<u8> = Vec::new();
        append_bytes(&mut sigma_input, d.as_slice());
        sigma_input.push(1u8);
        assert(sigma_input@ =~= d@ + seq![1u8]);
        let sigma: Vec<u8> = sha256_digest(sigma_input.as_slice());

        let a: Vec<Vec<Vec<i16>>> = self.sample_matrix(rho.as_slice(), false);
        let s: Vec<Vec<i16>> = self.sample_noise_vector(sigma.as_slice(), KYBER_768_ETA1, 0);
        let e: Vec<Vec<i16>> = self.sample_noise_vector(sigma.as_slice(), KYBER_768_ETA1, 3);
        let t: Vec<Vec<i16>> = self.compute_public_key(&a, &s, &e);
        let pk_bytes: Vec<u8> = self.serialize_public_key(&t, rho.as_slice());
        let sk_bytes: Vec<u8> = self.serialize_secret_key(&s, pk_bytes.as_slice(), z);
        assert(embedded_public_key(sk_bytes@) =~= pk_bytes@);
        assert(rejection_seed(sk_bytes@) =~= z@);
        (KyberSecretKey { data: sk_bytes }, KyberPublicKey { data: pk_bytes })
    }

    /// Encapsulates a fresh random message under `pk`: returns the
    /// ciphertext and the shared secret.
    pub fn encapsulate(&self, pk: &KyberPublicKey) -> (r: Result<(Vec<u8>, Vec<u8>), KyberError>)
        ensures
            pk.data@.len() != 1184 ==> r == Err::<(Vec<u8>, Vec<u8>), KyberError>(
                KyberError::InvalidPublicKeySize { expected: 1184, actual: pk.data@.len() as usize },
            ),
            match r {
                Ok((ct, ss)) => exists|m: Seq<u8>|
                    {
                        &&& m.len() == 32
                        &&& #[trigger] encrypt_spec(pk.data@, m) == ct@
                        &&& ss@ == shared_secret_spec(m, ct@)
                    },
                Err(e) => pk.data@.len() == 1184 ==> e is InvalidParameter,
            },
            r matches Ok((ct, ss)) ==> {
                &&& ct@.len() == 1088
                &&& ss@.len() == 32
                &&& pk.data@.len() == 1184
            },
    {
        if pk.data.len() != KYBER_PUBLIC_KEY_BYTES {
            return Err(
                KyberError::InvalidPublicKeySize {
                    expected: KYBER_PUBLIC_KEY_BYTES,
                    actual: pk.data.len(),
                },
            );
        }
        let mut rng: OsRng = os_rng();
        let mv = match os_random_bytes(&mut rng, 32) {
            Ok(bytes) => bytes,
            Err(_) => {
                return Err(KyberError::InvalidParameter("random number generator failed".to_owned()));
            },
        };
        let m: [u8; 32] = array32_from(mv.as_slice(), 0);
        self.encapsulate_message(pk, &m)
    }

    /// Encapsulates the given message under `pk`, with all noise derived
    /// from the message and the key.
    pub fn encapsulate_message(&self, pk: &KyberPublicKey, m: &[u8; 32]) -> (r: Result<
        (Vec<u8>, Vec<u8>),
        KyberError,
    >)
        ensures
            pk.data@.len() != 1184 ==> r == Err::<(Vec<u8>, Vec<u8>), KyberError>(
                KyberError::InvalidPublicKeySize { expected: 1184, actual: pk.data@.len() as usize },
            ),
            pk.data@.len() == 1184 ==> r is Ok,
            r matches Ok((ct, ss)) ==> {
                &&& ct@ == encrypt_spec(pk.data@, m@)
                &&& ss@ == shared_secret_spec(m@, ct@)
                &&& ct@.len() == 1088
                &&& ss@.len() == 32
            },
    {
        if pk.data.len() != KYBER_PUBLIC_KEY_BYTES {
            return Err(
                KyberError::InvalidPublicKeySize {
                    expected: KYBER_PUBLIC_KEY_BYTES,
                    actual: pk.data.len(),
                },
            );
        }
        let ct: Vec<u8> = self.encrypt(pk.data.as_slice(), m.as_slice());
        let ct_digest: Vec<u8> = sha256_digest(ct.as_slice());
        let mut input: Vec<u8> = Vec::new();
        append_bytes(&mut input, m.as_slice());
        append_bytes(&mut input, ct_digest.as_slice());
        let ss: Vec<u8> = sha256_digest(input.as_slice());
        Ok((ct, ss))
    }

    /// Encrypts a 32-byte message under an encoded public key.
    pub fn encrypt(&self, pk: &[u8], m: &[u8]) -> (ct: Vec<u8>)
        requires
            pk@.len() == 1184,
            m@.len() == 32,
        ensures
            ct@ == encrypt_spec(pk@, m@),
            ct@.len() == 1088,
    {
        let t_bytes: Vec<u8> = copy_range(pk, 0, 1152);
        let rho: Vec<u8> = copy_range(pk, 1152, 1184);
        let t: Vec<Vec<i16>> = self.decompress_vec(t_bytes.as_slice(), 12);
        let pk_digest: Vec<u8> = sha256_digest(pk);
        let mut input: Vec<u8> = Vec::new();
        append_bytes(&mut input, m);
        append_bytes(&mut input, pk_digest.as_slice());
        let g: Vec<u8> = sha256_digest(input.as_slice());
        let r: Vec<Vec<i16>> = self.sample_noise_vector(g.as_slice(), KYBER_768_ETA1, 0);
        let e1: Vec<Vec<i16>> = self.sample_noise_vector(g.as_slice(), KYBER_768_ETA2, 3);
        let e2: Vec<i16> = self.sample_poly_cbd(g.as_slice(), KYBER_768_ETA2, 6);
        let a_t: Vec<Vec<Vec<i16>>> = self.sample_matrix(rho.as_slice(), true);
        let u: Vec<Vec<i16>> = self.compute_ciphertext_u(&a_t, &r, &e1);
        let v: Vec<i16> = self.compute_ciphertext_v(&t, &r, &e2, m);
        let mut ct: Vec<u8> = self.compress_vec(&u, 10);
        let v_bytes: Vec<u8> = self.compress_poly(&v, 4);
        append_bytes(&mut ct, v_bytes.as_slice());
        ct
    }

    /// Recovers the 32-byte message of a ciphertext.
    pub fn decrypt(&self, sk: &[u8], ct: &[u8]) -> (m: Vec<u8>)
        requires
            sk@.len() == 2400,
            ct@.len() == 1088,
        ensures
            m@ == decrypt_spec(sk@, ct@),
            m@.len() == 32,
    {
        let s_bytes: Vec<u8> = copy_range(sk, 0, 1152);
        let s: Vec<Vec<i16>> = self.decompress_vec(s_bytes.as_slice(), 12);
        let u_bytes: Vec<u8> = copy_range(ct, 0, 960);
        let v_bytes: Vec<u8> = copy_range(ct, 960, 1088);
        let u: Vec<Vec<i16>> = self.decompress_vec(u_bytes.as_slice(), 10);
        let v: Vec<i16> = self.decompress_poly(v_bytes.as_slice(), 4);
        let noisy: Vec<i16> = self.compute_message(&s, &u, &v);
        self.compress_poly(&noisy, 1)
    }

    /// Decapsulates: recovers the message, encrypts it again under the
    /// embedded public key and compares. On a match the shared secret comes
    /// back, otherwise a secret derived from the rejection seed. A secret
    /// key and a ciphertext of the right lengths never give an error.
    pub fn decapsulate(&self, sk: &KyberSecretKey, ct: &[u8]) -> (r: Result<Vec<u8>, KyberError>)
        ensures
            bytes_result_view(r) == decapsulate_spec(sk.data@, ct@),
            r matches Ok(ss) ==> ss@.len() == 32,
    {
        if sk.data.len() != KYBER_SECRET_KEY_BYTES {
            return Err(
                KyberError::InvalidSecretKeySize {
                    expected: KYBER_SECRET_KEY_BYTES,
                    actual: sk.data.len(),
                },
            );
        }
        if ct.len() != KYBER_CIPHERTEXT_BYTES {
            return Err(
                KyberError::InvalidCiphertextSize {
                    expected: KYBER_CIPHERTEXT_BYTES,
                    actual: ct.len(),
                },
            );
        }
        let m: Vec<u8> = self.decrypt(sk.data.as_slice(), ct);
        let pk: Vec<u8> = copy_range(sk.data.as_slice(), 1152, 2336);
        let z: Vec<u8> = copy_range(sk.data.as_slice(), 2368, 2400);
        let again: Vec<u8> = self.encrypt(pk.as_slice(), m.as_slice());
        let ct_digest: Vec<u8> = sha256_digest(ct);
        let mut input: Vec<u8> = Vec::new();
        if bytes_equal(again.as_slice(), ct) {
            append_bytes(&mut input, m.as_slice());
        } else {
            append_bytes(&mut input, z.as_slice());
        }
        append_bytes(&mut input, ct_digest.as_slice());
        let ss: Vec<u8> = sha256_digest(input.as_slice());
        Ok(ss)
    }

    /// Encodes a public key: the vector at 12 bits per coefficient, then
    /// the matrix seed.
    pub fn serialize_public_key(&self, t: &Vec<Vec<i16>>, rho: &[u8]) -> (bytes: Vec<u8>)
        requires
            is_poly_vec(t@),
        ensures
            bytes@ == encode_public_key_spec(vec_polys(t@), rho@),
            bytes@.len() == 1152 + rho@.len(),
    {
        let mut bytes: Vec<u8> = self.compress_vec(t, 12);
        append_bytes(&mut bytes, rho);
        bytes
    }

    /// Decodes a public key into its vector and its matrix seed.
    pub fn deserialize_public_key(&self, bytes: &[u8]) -> (r: Result<
        (Vec<Vec<i16>>, Vec<u8>),
        KyberError,
    >)
        ensures
            bytes@.len() != 1184 ==> r == Err::<(Vec<Vec<i16>>, Vec<u8>), KyberError>(
                KyberError::InvalidPublicKeySize { expected: 1184, actual: bytes@.len() as usize },
            ),
            bytes@.len() == 1184 ==> r is Ok,
            r matches Ok((t, rho)) ==> {
                &&& vec_polys(t@) == public_key_vector(bytes@)
                &&& rho@ == public_key_seed(bytes@)
                &&& is_poly_vec(t@)
                &&& forall|i: int| 0 <= i < 3 ==> is_reduced(#[trigger] t@[i]@)
            },
    {
        if bytes.len() != KYBER_PUBLIC_KEY_BYTES {
            return Err(
                KyberError::InvalidPublicKeySize {
                    expected: KYBER_PUBLIC_KEY_BYTES,
                    actual: bytes.len(),
                },
            );
        }
        let t_bytes: Vec<u8> = copy_range(bytes, 0, 1152);
        let rho: Vec<u8> = copy_range(bytes, 1152, 1184);
        let t: Vec<Vec<i16>> = self.decompress_vec(t_bytes.as_slice(), 12);
        Ok((t, rho))
    }

    /// Encodes a secret key: the vector at 12 bits per coefficient, the
    /// encoded public key, its digest, and the rejection seed.
    pub fn serialize_secret_key(&self, s: &Vec<Vec<i16>>, pk: &[u8], z: &[u8; 32]) -> (bytes: Vec<
        u8,
    >)
        requires
            is_poly_vec(s@),
        ensures
            bytes@ == encode_secret_key_spec(vec_polys(s@), pk@, z@),
            bytes@.len() == 1152 + pk@.len() + 64,
            bytes@.subrange(1152, 1152 + pk@.len() as int) == pk@,
            bytes@.subrange(1152 + pk@.len() as int + 32, 1152 + pk@.len() as int + 64) == z@,
    {
        let mut bytes: Vec<u8> = self.compress_vec(s, 12);
        append_bytes(&mut bytes, pk);
        let digest: Vec<u8> = sha256_digest(pk);
        append_bytes(&mut bytes, digest.as_slice());
        append_bytes(&mut bytes, z.as_slice());
        assert(bytes@.subrange(1152, 1152 + pk@.len() as int) =~= pk@);
        assert(bytes@.subrange(1152 + pk@.len() as int + 32, 1152 + pk@.len() as int + 64) =~= z@);
        bytes
    }

    /// Decodes a secret key into its vector, the embedded public key, the
    /// digest of that key, and the rejection seed.
    pub fn deserialize_secret_key(&self, bytes: &[u8]) -> (r: Result<
        (Vec<Vec<i16>>, Vec<u8>, Vec<u8>, [u8; 32]),
        KyberError,
    >)
        ensures
            bytes@.len() != 2400 ==> r == Err::<
                (Vec<Vec<i16>>, Vec<u8>, Vec<u8>, [u8; 32]),
                KyberError,
            >(KyberError::InvalidSecretKeySize { expected: 2400, actual: bytes@.len() as usize }),
            bytes@.len() == 2400 ==> r is Ok,
            r matches Ok((s, pk, h_pk, z)) ==> {
                &&& vec_polys(s@) == secret_key_vector(bytes@)
                &&& pk@ == embedded_public_key(bytes@)
                &&& h_pk@ == embedded_key_digest(bytes@)
                &&& z@ == rejection_seed(bytes@)
                &&& is_poly_vec(s@)
            },
    {
        if bytes.len() != KYBER_SECRET_KEY_BYTES {
            return Err(
                KyberError::InvalidSecretKeySize {
                    expected: KYBER_SECRET_KEY_BYTES,
                    actual: bytes.len(),
                },
            );
        }
        let s_bytes: Vec<u8> = copy_range(bytes, 0, 1152);
        let pk: Vec<u8> = copy_range(bytes, 1152, 2336);
        let h_pk: Vec<u8> = copy_range(bytes, 2336, 2368);
        let z: [u8; 32] = array32_from(bytes, 2368);
        let s: Vec<Vec<i16>> = self.decompress_vec(s_bytes.as_slice(), 12);
        Ok((s, pk, h_pk, z))
    }
}

} // verus!
