//! The hybrid handshake: the key-encapsulation mechanism joined with an
//! X25519 exchange, and the keys derived from both.

pub use crate::wire::HandshakeMessage;

use crate::clock::unix_time_now;
use crate::encoding::encode;
use crate::encoding::hex_spec;
use crate::encoding::le_bytes_spec;
use crate::encoding::le_value_spec;
use crate::encoding::u64_from_le_bytes;
use crate::encoding::u64_to_le_bytes;
use crate::entropy::os_random_bytes;
use crate::entropy::os_rng;
use crate::hash::append_bytes;
use crate::hash::array12_from;
use crate::hash::array32_from;
use crate::hash::copy_range;
use crate::hash::sha256;
use crate::hash::sha256_digest;
use crate::kyber::decaps_spec;
use crate::kyber::embedded_public_key;
use crate::kyber::encrypt_spec;
use crate::kyber::shared_secret_spec;
use crate::kyber::Kyber768;
use crate::kyber::KyberError;
use crate::kyber::KyberPublicKey;
use crate::kyber::KyberSecretKey;
use crate::wire::HandshakeMessageView;
use crate::x25519::x25519_public_key;
use crate::x25519::x25519_public_spec;
use crate::x25519::x25519_shared_secret;
use crate::x25519::x25519_spec;
use rand::rngs::OsRng;
use vstd::prelude::*;
use vstd::string::StringSliceAdditionalSpecFns;

verus! {

/// The age in seconds beyond which a peer's timestamp is refused.
pub const MAX_TIMESTAMP_AGE_SECS: u64 = 300;

/// What a handshake can fail with.
#[derive(Debug)]
pub enum HandshakeError {
    /// The key-encapsulation mechanism refused an input.
    KyberError(KyberError),
    /// A buffer does not hold a frame.
    InvalidMessage,
    /// Keys could not be derived; the text says why.
    KeyDerivation(String),
    /// Encryption failed; the text says why.
    Encryption(String),
    /// The peer's timestamp is older than the freshness window, or the
    /// clock could not be read.
    TimestampError,
}

impl From<KyberError> for HandshakeError {
    /// An error of the key-encapsulation mechanism, as a handshake error.
    fn from(e: KyberError) -> (r: Self) {
        HandshakeError::KyberError(e)
    }
}

impl vstd::std_specs::convert::FromSpecImpl<KyberError> for HandshakeError {
    open spec fn obeys_from_spec() -> bool {
        true
    }

    open spec fn from_spec(e: KyberError) -> Self {
        HandshakeError::KyberError(e)
    }
}

/// The handshake handler.
pub struct PostQuantumHandshake {
    pub kyber: Kyber768,
}

/// The keys that a handshake derived, with the message to send.
#[derive(Debug, Clone)]
pub struct HandshakeResult {
    /// Key for sending data.
    pub send_key: Vec<u8>,
    /// Key for receiving data.
    pub recv_key: Vec<u8>,
    /// The secret that the keys were derived from.
    pub combined_secret: Vec<u8>,
    /// The message to send to the peer.
    pub message: HandshakeMessage,
    /// The session identifier.
    pub session_id: String,
    /// The KEM secret key of this side.
    pub kyber_sk: KyberSecretKey,
    /// The X25519 secret scalar of this side.
    pub x25519_sk: Vec<u8>,
}

/// An X25519 key pair made for one handshake.
#[derive(Debug)]
pub struct EphemeralKeyPair {
    /// The secret scalar.
    pub x25519_secret: [u8; 32],
    /// The public key that belongs to it.
    pub x25519_public: [u8; 32],
}

/// What is known of a peer before the handshake.
#[derive(Debug, Clone)]
pub struct PeerInfo {
    /// Peer identifier.
    pub id: String,
    /// The peer's static public key, if known.
    pub static_public_key: Option<[u8; 32]>,
    /// The KEM public key expected of the peer, if known.
    pub kyber_public_key: Option<KyberPublicKey>,
}

/// The secret that joins the two exchanged secrets: a digest of a label
/// and of each secret behind a byte that holds its length.
pub open spec fn combined_secret_spec(kyber_ss: Seq<u8>, x25519_ss: Seq<u8>) -> Seq<u8> {
    sha256(
        "PQ-VPN-v1.0".spec_bytes() + seq![(kyber_ss.len() % 256) as u8] + kyber_ss + seq![
            (x25519_ss.len() % 256) as u8,
        ] + x25519_ss,
    )
}

/// The key for the direction from initiator to responder.
pub open spec fn send_key_spec(combined: Seq<u8>, initiator: Seq<u8>, responder: Seq<u8>) -> Seq<
    u8,
> {
    sha256("send-key".spec_bytes() + combined + initiator + responder)
}

/// The key for the direction from responder to initiator.
pub open spec fn recv_key_spec(combined: Seq<u8>, initiator: Seq<u8>, responder: Seq<u8>) -> Seq<
    u8,
> {
    sha256("recv-key".spec_bytes() + combined + responder + initiator)
}

/// The secret that an initiator holds before the peer has answered.
pub open spec fn interim_secret_spec(kyber_pk: Seq<u8>, x25519_pk: Seq<u8>) -> Seq<u8> {
    sha256("interim".spec_bytes() + kyber_pk + x25519_pk)
}

/// The sending key derived from an interim secret.
pub open spec fn initial_send_key_spec(interim: Seq<u8>) -> Seq<u8> {
    sha256("initial".spec_bytes() + interim + seq![0u8])
}

/// The receiving key derived from an interim secret.
pub open spec fn initial_recv_key_spec(interim: Seq<u8>) -> Seq<u8> {
    sha256("initial".spec_bytes() + interim + seq![1u8])
}

/// The session identifier: the first 16 bytes of a digest of the combined
/// secret, as 32 hexadecimal digits.
pub open spec fn session_id_spec(combined: Seq<u8>) -> Seq<char> {
    hex_spec(sha256("session-id".spec_bytes() + combined).subrange(0, 16))
}

/// A timestamp under the mask of a secret key: each of its eight
/// little-endian bytes combined by exclusive or with the key byte at the
/// same place.
pub open spec fn masked_timestamp_spec(timestamp: u64, key: Seq<u8>) -> Seq<u8> {
    Seq::new(8, |i: int| le_bytes_spec(timestamp as nat, 8)[i] ^ key[i])
}

/// The eight bytes under the mask; bytes that the peer did not send count
/// as zero.
pub open spec fn unmasked_bytes_spec(encrypted: Seq<u8>, key: Seq<u8>) -> Seq<u8> {
    Seq::new(
        8,
        |i: int|
            if i < encrypted.len() {
                encrypted[i] ^ key[i]
            } else {
                0u8
            },
    )
}

/// The timestamp under the mask.
pub open spec fn unmasked_timestamp_spec(encrypted: Seq<u8>, key: Seq<u8>) -> nat {
    le_value_spec(unmasked_bytes_spec(encrypted, key))
}

/// A timestamp is stale when it lies more than the window before `now`.
pub open spec fn is_stale(timestamp: nat, now: u64) -> bool {
    now > timestamp && now - timestamp > 300
}

/// The first 32 bytes of a KEM field, by which a side is named when the
/// directional keys are derived.
pub open spec fn key_prefix(field: Seq<u8>) -> Seq<u8> {
    field.subrange(0, 32)
}

/// The result that an initiator holds after it has made its message.
pub open spec fn is_initiator_result(
    res: HandshakeResult,
    kyber_sk: Seq<u8>,
    kyber_pk: Seq<u8>,
    x25519_secret: Seq<u8>,
    nonce: Seq<u8>,
    timestamp: u64,
) -> bool {
    let x_pub = x25519_public_spec(x25519_secret);
    let interim = interim_secret_spec(kyber_pk, x_pub);
    &&& res.message@ == (HandshakeMessageView {
        kyber_public: kyber_pk,
        x25519_public: x_pub,
        encrypted_timestamp: masked_timestamp_spec(timestamp, kyber_sk),
        nonce: nonce,
    })
    &&& res.combined_secret@ == interim
    &&& res.send_key@ == initial_send_key_spec(interim)
    &&& res.recv_key@ == initial_recv_key_spec(interim)
    &&& res.session_id@ == session_id_spec(interim)
    &&& res.kyber_sk.data@ == kyber_sk
    &&& res.x25519_sk@ == x25519_secret
    &&& res.send_key@.len() == 32
    &&& res.recv_key@.len() == 32
    &&& res.combined_secret@.len() == 32
    &&& res.session_id@.len() == 32
}

/// The secret that both sides combine, seen from the side that holds the
/// X25519 scalar `x25519_secret` and learned the KEM secret `kyber_ss`.
pub open spec fn session_secret_spec(
    kyber_ss: Seq<u8>,
    x25519_secret: Seq<u8>,
    peer_x25519_public: Seq<u8>,
) -> Seq<u8> {
    combined_secret_spec(kyber_ss, x25519_spec(x25519_secret, peer_x25519_public))
}

/// The result of an initiator that has the responder's answer: the keys
/// come from the decapsulated secret and the X25519 agreement, and the
/// sides are named by the initiator's public key and the responder's
/// ciphertext.
pub open spec fn is_completed_result(
    res: HandshakeResult,
    kyber_sk: Seq<u8>,
    x25519_secret: Seq<u8>,
    peer: HandshakeMessageView,
) -> bool {
    let combined = session_secret_spec(
        decaps_spec(kyber_sk, peer.kyber_public),
        x25519_secret,
        peer.x25519_public,
    );
    let initiator = key_prefix(embedded_public_key(kyber_sk));
    let responder = key_prefix(peer.kyber_public);
    &&& res.combined_secret@ == combined
    &&& res.send_key@ == send_key_spec(combined, initiator, responder)
    &&& res.recv_key@ == recv_key_spec(combined, initiator, responder)
    &&& res.session_id@ == session_id_spec(combined)
    &&& res.message@ == peer
    &&& res.kyber_sk.data@ == kyber_sk
    &&& res.x25519_sk@ == x25519_secret
    &&& res.send_key@.len() == 32
    &&& res.recv_key@.len() == 32
    &&& res.combined_secret@.len() == 32
    &&& res.session_id@.len() == 32
}

/// What completing the handshake owes an initiator at the time `now`.
pub open spec fn completion_outcome(
    kyber_sk: Seq<u8>,
    peer: HandshakeMessageView,
    now: u64,
) -> Result<(), HandshakeError> {
    if kyber_sk.len() != 2400 {
        Err(
            HandshakeError::KyberError(
                KyberError::InvalidSecretKeySize { expected: 2400, actual: kyber_sk.len() as usize },
            ),
        )
    } else if is_stale(unmasked_timestamp_spec(peer.encrypted_timestamp, kyber_sk), now) {
        Err(HandshakeError::TimestampError)
    } else if peer.kyber_public.len() != 1088 {
        Err(
            HandshakeError::KyberError(
                KyberError::InvalidCiphertextSize {
                    expected: 1088,
                    actual: peer.kyber_public.len() as usize,
                },
            ),
        )
    } else {
        Ok(())
    }
}

/// The result of a responder: it encapsulated to the initiator's public
/// key, and its keys are the initiator's with the directions exchanged.
pub open spec fn is_responder_result(
    res: HandshakeResult,
    peer: HandshakeMessageView,
    our_sk: Seq<u8>,
    kyber_ct: Seq<u8>,
    kyber_ss: Seq<u8>,
    x25519_secret: Seq<u8>,
    nonce: Seq<u8>,
    timestamp: u64,
) -> bool {
    let combined = session_secret_spec(kyber_ss, x25519_secret, peer.x25519_public);
    let initiator = key_prefix(peer.kyber_public);
    let responder = key_prefix(kyber_ct);
    &&& res.combined_secret@ == combined
    &&& res.recv_key@ == send_key_spec(combined, initiator, responder)
    &&& res.send_key@ == recv_key_spec(combined, initiator, responder)
    &&& res.session_id@ == session_id_spec(combined)
    &&& res.message@ == (HandshakeMessageView {
        kyber_public: kyber_ct,
        x25519_public: x25519_public_spec(x25519_secret),
        encrypted_timestamp: masked_timestamp_spec(timestamp, our_sk),
        nonce: nonce,
    })
    &&& res.kyber_sk.data@ == our_sk
    &&& res.x25519_sk@ == x25519_secret
    &&& res.send_key@.len() == 32
    &&& res.recv_key@.len() == 32
    &&& res.combined_secret@.len() == 32
    &&& res.session_id@.len() == 32
}

/// A result that an initiator can have made: its fields are related as
/// `is_initiator_result` says, for the keys it holds and some reading of
/// the clock.
pub open spec fn opens_handshake(res: HandshakeResult) -> bool {
    exists|timestamp: u64| #[trigger]
        is_initiator_result(
            res,
            res.kyber_sk.data@,
            res.message@.kyber_public,
            res.x25519_sk@,
            res.message@.nonce,
            timestamp,
        )
}

/// A result that a responder can have made for the message `peer`: its
/// ciphertext encrypts some 32-byte message to the peer's public key, and
/// its fields are related as `is_responder_result` says for the shared
/// secret of that message and some reading of the clock.
pub open spec fn answers_handshake(res: HandshakeResult, peer: HandshakeMessageView) -> bool {
    exists|m: Seq<u8>, timestamp: u64|
        {
            &&& m.len() == 32
            &&& res.message@.kyber_public == encrypt_spec(peer.kyber_public, m)
            &&& #[trigger] is_responder_result(
                res,
                peer,
                res.kyber_sk.data@,
                res.message@.kyber_public,
                shared_secret_spec(m, res.message@.kyber_public),
                res.x25519_sk@,
                res.message@.nonce,
                timestamp,
            )
        }
}

/// Draws 32 random bytes; a failed draw becomes a handshake error.
fn random_array32(rng: &mut OsRng) -> (r: Result<[u8; 32], HandshakeError>)
    ensures
        r matches Err(e) ==> e is Encryption,
{
    match os_random_bytes(rng, 32) {
        Ok(bytes) => Ok(array32_from(bytes.as_slice(), 0)),
        Err(_) => Err(HandshakeError::Encryption("random number generator failed".to_owned())),
    }
}

impl Default for PostQuantumHandshake {
    /// A handshake handler.
    fn default() -> (h: Self)
        ensures
            h.kyber == Kyber768,
    {
        PostQuantumHandshake { kyber: Kyber768::new() }
    }
}

impl PostQuantumHandshake {
    /// A handshake handler.
    pub fn new() -> (h: Self)
        ensures
            h.kyber == Kyber768,
    {
        PostQuantumHandshake { kyber: Kyber768::new() }
    }

    /// Draws an X25519 key pair.
    pub fn generate_ephemeral(&self, rng: &mut OsRng) -> (r: Result<
        EphemeralKeyPair,
        HandshakeError,
    >)
        ensures
            match r {
                Ok(pair) => pair.x25519_public@ == x25519_public_spec(pair.x25519_secret@),
                Err(e) => e is Encryption,
            },
    {
        let secret: [u8; 32] = match random_array32(rng) {
            Ok(s) => s,
            Err(e) => {
                return Err(e);
            },
        };
        let public: [u8; 32] = x25519_public_key(&secret);
        Ok(EphemeralKeyPair { x25519_secret: secret, x25519_public: public })
    }

    /// Starts a handshake: makes fresh KEM and X25519 keys and the message
    /// that carries their public halves, with interim keys that hold until
    /// the peer answers.
    pub fn perform_initiator_handshake(&self, peer: &PeerInfo) -> (r: Result<
        HandshakeResult,
        HandshakeError,
    >)
        ensures
            match r {
                Ok(res) => opens_handshake(res),
                Err(e) => e is KyberError || e is Encryption || e is TimestampError,
            },
            r matches Ok(res) ==> {
                &&& res.kyber_sk.data@.len() == 2400
                &&& res.x25519_sk@.len() == 32
                &&& embedded_public_key(res.kyber_sk.data@) == res.message@.kyber_public
            },
    {
        let mut rng: OsRng = os_rng();
        let (kyber_sk, kyber_pk) = match self.kyber.keygen(&mut rng) {
            Ok(pair) => pair,
            Err(e) => {
                return Err(HandshakeError::KyberError(e));
            },
        };
        let pair: EphemeralKeyPair = match self.generate_ephemeral(&mut rng) {
            Ok(p) => p,
            Err(e) => {
                return Err(e);
            },
        };
        let timestamp: u64 = match unix_time_now() {
            Some(t) => t,
            None => {
                return Err(HandshakeError::TimestampError);
            },
        };
        let (encrypted_timestamp, nonce) = match self.encrypt_timestamp(timestamp, &kyber_sk) {
            Ok(p) => p,
            Err(e) => {
                return Err(e);
            },
        };
        let res: HandshakeResult = self.initiator_result(
            kyber_sk,
            kyber_pk,
            pair,
            encrypted_timestamp,
            nonce,
            Ghost(timestamp),
        );
        assert(is_initiator_result(
            res,
            res.kyber_sk.data@,
            res.message@.kyber_public,
            res.x25519_sk@,
            res.message@.nonce,
            timestamp,
        ));
        assert(opens_handshake(res));
        Ok(res)
    }

    /// Assembles the initiator's message and derives its interim keys.
    fn initiator_result(
        &self,
        kyber_sk: KyberSecretKey,
        kyber_pk: KyberPublicKey,
        pair: EphemeralKeyPair,
        encrypted_timestamp: Vec<u8>,
        nonce: [u8; 12],
        Ghost(timestamp): Ghost<u64>,
    ) -> (res: HandshakeResult)
        requires
            pair.x25519_public@ == x25519_public_spec(pair.x25519_secret@),
            encrypted_timestamp@ == masked_timestamp_spec(timestamp, kyber_sk.data@),
        ensures
            is_initiator_result(
                res,
                kyber_sk.data@,
                kyber_pk.data@,
                pair.x25519_secret@,
                nonce@,
                timestamp,
            ),
    {
        let combined: Vec<u8> = self.derive_interim_secret(
            kyber_pk.data.as_slice(),
            pair.x25519_public.as_slice(),
        );
        let session_id: String = self.derive_session_id(combined.as_slice());
        let (send_key, recv_key) = self.derive_initial_keys(combined.as_slice());
        let x25519_sk: Vec<u8> = copy_range(pair.x25519_secret.as_slice(), 0, 32);
        assert(x25519_sk@ =~= pair.x25519_secret@);
        let message = HandshakeMessage {
            kyber_public: kyber_pk.data,
            x25519_public: pair.x25519_public,
            encrypted_timestamp,
            nonce,
        };
        HandshakeResult {
            send_key,
            recv_key,
            combined_secret: combined,
            message,
            session_id,
            kyber_sk,
            x25519_sk,
        }
    }

    /// Completes the handshake with the responder's answer, reading the
    /// clock for the freshness check.
    pub fn complete_initiator_handshake(
        &self,
        kyber_sk: &KyberSecretKey,
        x25519_secret: &[u8; 32],
        peer_response: &HandshakeMessage,
    ) -> (r: Result<HandshakeResult, HandshakeError>)
        ensures
            r matches Ok(res) ==> is_completed_result(
                res,
                kyber_sk.data@,
                x25519_secret@,
                peer_response@,
            ),
            r matches Ok(res) ==> kyber_sk.data@.len() == 2400 && peer_response@.kyber_public.len()
                == 1088,
            kyber_sk.data@.len() != 2400 ==> r is Err,
            peer_response@.kyber_public.len() != 1088 ==> r is Err,
            r matches Err(e) ==> e is KyberError || e is TimestampError,
    {
        let now: u64 = match unix_time_now() {
            Some(t) => t,
            None => {
                return Err(HandshakeError::TimestampError);
            },
        };
        self.complete_initiator_handshake_at(kyber_sk, x25519_secret, peer_response, now)
    }

    /// Completes the handshake with the responder's answer at the time
    /// `now`: checks the sizes and the freshness of the peer's timestamp,
    /// decapsulates, agrees on the X25519 secret and derives the keys.
    pub fn complete_initiator_handshake_at(
        &self,
        kyber_sk: &KyberSecretKey,
        x25519_secret: &[u8; 32],
        peer_response: &HandshakeMessage,
        now: u64,
    ) -> (r: Result<HandshakeResult, HandshakeError>)
        ensures
            match r {
                Ok(res) => {
                    &&& completion_outcome(kyber_sk.data@, peer_response@, now) is Ok
                    &&& is_completed_result(res, kyber_sk.data@, x25519_secret@, peer_response@)
                },
                Err(e) => completion_outcome(kyber_sk.data@, peer_response@, now) == Err::<
                    (),
                    HandshakeError,
                >(e),
            },
    {
        if kyber_sk.data.len() != 2400 {
            return Err(
                HandshakeError::KyberError(
                    KyberError::InvalidSecretKeySize {
                        expected: 2400,
                        actual: kyber_sk.data.len(),
                    },
                ),
            );
        }
        match self.verify_timestamp_at(
            peer_response.encrypted_timestamp.as_slice(),
            &peer_response.nonce,
            kyber_sk,
            now,
        ) {
            Ok(_) => {},
            Err(e) => {
                return Err(e);
            },
        }
        let kyber_ss: Vec<u8> = match self.kyber.decapsulate(
            kyber_sk,
            peer_response.kyber_public.as_slice(),
        ) {
            Ok(ss) => ss,
            Err(e) => {
                return Err(HandshakeError::KyberError(e));
            },
        };
        let x25519_ss: [u8; 32] = x25519_shared_secret(x25519_secret, &peer_response.x25519_public);
        let combined: Vec<u8> = self.combine_secrets(kyber_ss.as_slice(), x25519_ss.as_slice());
        let initiator: Vec<u8> = copy_range(kyber_sk.data.as_slice(), 1152, 1184);
        let responder: Vec<u8> = copy_range(peer_response.kyber_public.as_slice(), 0, 32);
        assert(initiator@ =~= key_prefix(embedded_public_key(kyber_sk.data@)));
        let (send_key, recv_key) = self.derive_traffic_keys(
            combined.as_slice(),
            initiator.as_slice(),
            responder.as_slice(),
        );
        let session_id: String = self.derive_session_id(combined.as_slice());
        let x25519_sk: Vec<u8> = copy_range(x25519_secret.as_slice(), 0, 32);
        assert(x25519_sk@ =~= x25519_secret@);
        let sk_copy: Vec<u8> = copy_range(kyber_sk.data.as_slice(), 0, 2400);
        assert(sk_copy@ =~= kyber_sk.data@);
        let message: HandshakeMessage = copy_message(peer_response);
        Ok(
            HandshakeResult {
                send_key,
                recv_key,
                combined_secret: combined,
                message,
                session_id,
                kyber_sk: KyberSecretKey { data: sk_copy },
                x25519_sk,
            },
        )
    }

    /// Answers an initiator's message: makes fresh keys, encapsulates to
    /// the initiator's KEM public key, agrees on the X25519 secret, and
    /// derives the keys with the directions exchanged. The answer carries
    /// the KEM ciphertext in the place of a public key.
    pub fn perform_responder_handshake(&self, peer_message: &HandshakeMessage, peer: &PeerInfo) -> (r:
        Result<HandshakeResult, HandshakeError>)
        ensures
            match r {
                Ok(res) => peer_message@.kyber_public.len() == 1184 && answers_handshake(
                    res,
                    peer_message@,
                ),
                Err(e) => if peer_message@.kyber_public.len() != 1184 {
                    e == HandshakeError::KyberError(
                        KyberError::InvalidPublicKeySize {
                            expected: 1184,
                            actual: peer_message@.kyber_public.len() as usize,
                        },
                    )
                } else {
                    e is KyberError || e is Encryption || e is TimestampError
                },
            },
    {
        if peer_message.kyber_public.len() != 1184 {
            return Err(
                HandshakeError::KyberError(
                    KyberError::InvalidPublicKeySize {
                        expected: 1184,
                        actual: peer_message.kyber_public.len(),
                    },
                ),
            );
        }
        let mut rng: OsRng = os_rng();
        let (our_kyber_sk, _our_kyber_pk) = match self.kyber.keygen(&mut rng) {
            Ok(pair) => pair,
            Err(e) => {
                return Err(HandshakeError::KyberError(e));
            },
        };
        let pair: EphemeralKeyPair = match self.generate_ephemeral(&mut rng) {
            Ok(p) => p,
            Err(e) => {
                return Err(e);
            },
        };
        let pk_copy: Vec<u8> = copy_range(peer_message.kyber_public.as_slice(), 0, 1184);
        assert(pk_copy@ =~= peer_message@.kyber_public);
        let peer_kyber_pk = KyberPublicKey { data: pk_copy };
        let (kyber_ct, kyber_ss) = match self.kyber.encapsulate(&peer_kyber_pk) {
            Ok(p) => p,
            Err(e) => {
                return Err(HandshakeError::KyberError(e));
            },
        };
        let ghost m = choose|m: Seq<u8>|
            m.len() == 32 && #[trigger] encrypt_spec(peer_kyber_pk.data@, m) == kyber_ct@
                && kyber_ss@ == shared_secret_spec(m, kyber_ct@);
        let timestamp: u64 = match unix_time_now() {
            Some(t) => t,
            None => {
                return Err(HandshakeError::TimestampError);
            },
        };
        let (encrypted_timestamp, nonce) = match self.encrypt_timestamp(timestamp, &our_kyber_sk) {
            Ok(p) => p,
            Err(e) => {
                return Err(e);
            },
        };
        let res: HandshakeResult = self.responder_result(
            peer_message,
            our_kyber_sk,
            kyber_ct,
            kyber_ss,
            pair,
            encrypted_timestamp,
            nonce,
            Ghost(timestamp),
        );
        assert(m.len() == 32);
        assert(res.message@.kyber_public == encrypt_spec(peer_message@.kyber_public, m));
        assert(is_responder_result(
            res,
            peer_message@,
            res.kyber_sk.data@,
            res.message@.kyber_public,
            shared_secret_spec(m, res.message@.kyber_public),
            res.x25519_sk@,
            res.message@.nonce,
            timestamp,
        ));
        assert(answers_handshake(res, peer_message@));
        Ok(res)
    }

    /// Derives the responder's keys and assembles its answer.
    fn responder_result(
        &self,
        peer_message: &HandshakeMessage,
        our_kyber_sk: KyberSecretKey,
        kyber_ct: Vec<u8>,
        kyber_ss: Vec<u8>,
        pair: EphemeralKeyPair,
        encrypted_timestamp: Vec<u8>,
        nonce: [u8; 12],
        Ghost(timestamp): Ghost<u64>,
    ) -> (res: HandshakeResult)
        requires
            peer_message@.kyber_public.len() >= 32,
            kyber_ct@.len() >= 32,
            pair.x25519_public@ == x25519_public_spec(pair.x25519_secret@),
            encrypted_timestamp@ == masked_timestamp_spec(timestamp, our_kyber_sk.data@),
        ensures
            is_responder_result(
                res,
                peer_message@,
                our_kyber_sk.data@,
                kyber_ct@,
                kyber_ss@,
                pair.x25519_secret@,
                nonce@,
                timestamp,
            ),
    {
        let x25519_ss: [u8; 32] = x25519_shared_secret(
            &pair.x25519_secret,
            &peer_message.x25519_public,
        );
        let combined: Vec<u8> = self.combine_secrets(kyber_ss.as_slice(), x25519_ss.as_slice());
        let initiator: Vec<u8> = copy_range(peer_message.kyber_public.as_slice(), 0, 32);
        let responder: Vec<u8> = copy_range(kyber_ct.as_slice(), 0, 32);
        let (recv_key, send_key) = self.derive_traffic_keys(
            combined.as_slice(),
            initiator.as_slice(),
            responder.as_slice(),
        );
        let session_id: String = self.derive_session_id(combined.as_slice());
        let x25519_sk: Vec<u8> = copy_range(pair.x25519_secret.as_slice(), 0, 32);
        assert(x25519_sk@ =~= pair.x25519_secret@);
        let message = HandshakeMessage {
            kyber_public: kyber_ct,
            x25519_public: pair.x25519_public,
            encrypted_timestamp,
            nonce,
        };
        HandshakeResult {
            send_key,
            recv_key,
            combined_secret: combined,
            message,
            session_id,
            kyber_sk: our_kyber_sk,
            x25519_sk,
        }
    }

    /// Joins the KEM secret and the X25519 secret into one.
    pub fn combine_secrets(&self, kyber_ss: &[u8], x25519_ss: &[u8]) -> (combined: Vec<u8>)
        ensures
            combined@ == combined_secret_spec(kyber_ss@, x25519_ss@),
            combined@.len() == 32,
    {
        let mut input: Vec<u8> = Vec::new();
        append_bytes(&mut input, "PQ-VPN-v1.0".as_bytes());
        input.push((kyber_ss.len() % 256) as u8);
        append_bytes(&mut input, kyber_ss);
        input.push((x25519_ss.len() % 256) as u8);
        append_bytes(&mut input, x25519_ss);
        assert(input@ =~= "PQ-VPN-v1.0".spec_bytes() + seq![(kyber_ss@.len() % 256) as u8]
            + kyber_ss@ + seq![(x25519_ss@.len() % 256) as u8] + x25519_ss@);
        sha256_digest(input.as_slice())
    }

    /// Derives the two directional keys, as the initiator names them: the
    /// first is its sending key, the second its receiving key.
    pub fn derive_traffic_keys(
        &self,
        combined_ss: &[u8],
        initiator_pubkey: &[u8],
        responder_pubkey: &[u8],
    ) -> (keys: (Vec<u8>, Vec<u8>))
        ensures
            keys.0@ == send_key_spec(combined_ss@, initiator_pubkey@, responder_pubkey@),
            keys.1@ == recv_key_spec(combined_ss@, initiator_pubkey@, responder_pubkey@),
            keys.0@.len() == 32,
            keys.1@.len() == 32,
    {
        let mut send_input: Vec<u8> = Vec::new();
        append_bytes(&mut send_input, "send-key".as_bytes());
        append_bytes(&mut send_input, combined_ss);
        append_bytes(&mut send_input, initiator_pubkey);
        append_bytes(&mut send_input, responder_pubkey);
        let send_key: Vec<u8> = sha256_digest(send_input.as_slice());
        let mut recv_input: Vec<u8> = Vec::new();
        append_bytes(&mut recv_input, "recv-key".as_bytes());
        append_bytes(&mut recv_input, combined_ss);
        append_bytes(&mut recv_input, responder_pubkey);
        append_bytes(&mut recv_input, initiator_pubkey);
        let recv_key: Vec<u8> = sha256_digest(recv_input.as_slice());
        (send_key, recv_key)
    }

    /// The secret that an initiator holds before the peer has answered.
    pub fn derive_interim_secret(&self, kyber_pk: &[u8], x25519_pk: &[u8]) -> (secret: Vec<u8>)
        ensures
            secret@ == interim_secret_spec(kyber_pk@, x25519_pk@),
            secret@.len() == 32,
    {
        let mut input: Vec<u8> = Vec::new();
        append_bytes(&mut input, "interim".as_bytes());
        append_bytes(&mut input, kyber_pk);
        append_bytes(&mut input, x25519_pk);
        sha256_digest(input.as_slice())
    }

    /// The sending and the receiving key of an interim secret.
    pub fn derive_initial_keys(&self, interim_secret: &[u8]) -> (keys: (Vec<u8>, Vec<u8>))
        ensures
            keys.0@ == initial_send_key_spec(interim_secret@),
            keys.1@ == initial_recv_key_spec(interim_secret@),
            keys.0@.len() == 32,
            keys.1@.len() == 32,
    {
        let mut send_input: Vec<u8> = Vec::new();
        append_bytes(&mut send_input, "initial".as_bytes());
        append_bytes(&mut send_input, interim_secret);
        send_input.push(0u8);
        assert(send_input@ =~= "initial".spec_bytes() + interim_secret@ + seq![0u8]);
        let send_key: Vec<u8> = sha256_digest(send_input.as_slice());
        let mut recv_input: Vec<u8> = Vec::new();
        append_bytes(&mut recv_input, "initial".as_bytes());
        append_bytes(&mut recv_input, interim_secret);
        recv_input.push(1u8);
        assert(recv_input@ =~= "initial".spec_bytes() + interim_secret@ + seq![1u8]);
        let recv_key: Vec<u8> = sha256_digest(recv_input.as_slice());
        (send_key, recv_key)
    }

    /// The session identifier of a combined secret.
    pub fn derive_session_id(&self, combined_ss: &[u8]) -> (id: String)
        ensures
            id@ == session_id_spec(combined_ss@),
            id@.len() == 32,
    {
        let mut input: Vec<u8> = Vec::new();
        append_bytes(&mut input, "session-id".as_bytes());
        append_bytes(&mut input, combined_ss);
        let digest: Vec<u8> = sha256_digest(input.as_slice());
        let head: Vec<u8> = copy_range(digest.as_slice(), 0, 16);
        encode(head.as_slice())
    }

    /// Masks a timestamp with the first bytes of the secret key.
    pub fn mask_timestamp(&self, timestamp: u64, kyber_sk: &KyberSecretKey) -> (out: Vec<u8>)
        requires
            kyber_sk.data@.len() >= 32,
        ensures
            out@ == masked_timestamp_spec(timestamp, kyber_sk.data@),
    {
        let plain: Vec<u8> = u64_to_le_bytes(timestamp);
        let mut out: Vec<u8> = Vec::new();
        let mut i: usize = 0;
        while i < 8
            invariant
                i <= 8,
                plain@ == le_bytes_spec(timestamp as nat, 8),
                plain@.len() == 8,
                kyber_sk.data@.len() >= 32,
                out@.len() == i,
                forall|k: int| 0 <= k < i ==> out@[k] == plain@[k] ^ kyber_sk.data@[k],
            decreases 8 - i,
        {
            out.push(plain[i] ^ kyber_sk.data[i]);
            i += 1;
        }
        assert(out@ =~= masked_timestamp_spec(timestamp, kyber_sk.data@));
        out
    }

    /// Masks a timestamp and draws the nonce that accompanies it.
    pub fn encrypt_timestamp(&self, timestamp: u64, kyber_sk: &KyberSecretKey) -> (r: Result<
        (Vec<u8>, [u8; 12]),
        HandshakeError,
    >)
        requires
            kyber_sk.data@.len() >= 32,
        ensures
            match r {
                Ok((encrypted, nonce)) => encrypted@ == masked_timestamp_spec(
                    timestamp,
                    kyber_sk.data@,
                ),
                Err(e) => e is Encryption,
            },
    {
        let mut rng: OsRng = os_rng();
        let nonce: [u8; 12] = match os_random_bytes(&mut rng, 12) {
            Ok(bytes) => array12_from(bytes.as_slice(), 0),
            Err(_) => {
                return Err(
                    HandshakeError::Encryption("random number generator failed".to_owned()),
                );
            },
        };
        Ok((self.mask_timestamp(timestamp, kyber_sk), nonce))
    }

    /// Unmasks the peer's timestamp and checks it against the clock.
    pub fn verify_timestamp(&self, encrypted: &[u8], nonce: &[u8; 12], kyber_sk: &KyberSecretKey) -> (r:
        Result<u64, HandshakeError>)
        requires
            kyber_sk.data@.len() >= 32,
        ensures
            match r {
                Ok(t) => t == unmasked_timestamp_spec(encrypted@, kyber_sk.data@),
                Err(e) => e is TimestampError,
            },
    {
        let now: u64 = match unix_time_now() {
            Some(t) => t,
            None => {
                return Err(HandshakeError::TimestampError);
            },
        };
        self.verify_timestamp_at(encrypted, nonce, kyber_sk, now)
    }

    /// Unmasks the peer's timestamp and refuses it exactly when it lies
    /// more than the freshness window before `now`.
    pub fn verify_timestamp_at(
        &self,
        encrypted: &[u8],
        nonce: &[u8; 12],
        kyber_sk: &KyberSecretKey,
        now: u64,
    ) -> (r: Result<u64, HandshakeError>)
        requires
            kyber_sk.data@.len() >= 32,
        ensures
            match r {
                Ok(t) => t == unmasked_timestamp_spec(encrypted@, kyber_sk.data@) && !is_stale(
                    t as nat,
                    now,
                ),
                Err(e) => e is TimestampError && is_stale(
                    unmasked_timestamp_spec(encrypted@, kyber_sk.data@),
                    now,
                ),
            },
    {
        let mut plain: [u8; 8] = [0u8; 8];
        let mut i: usize = 0;
        while i < 8
            invariant
                i <= 8,
                kyber_sk.data@.len() >= 32,
                forall|k: int|
                    0 <= k < i ==> plain@[k] == unmasked_bytes_spec(encrypted@, kyber_sk.data@)[k],
                forall|k: int| i <= k < 8 ==> plain@[k] == 0u8,
            decreases 8 - i,
        {
            if i < encrypted.len() {
                plain[i] = encrypted[i] ^ kyber_sk.data[i];
            }
            i += 1;
        }
        assert(plain@ =~= unmasked_bytes_spec(encrypted@, kyber_sk.data@));
        let timestamp: u64 = u64_from_le_bytes(&plain);
        if now > timestamp && now - timestamp > MAX_TIMESTAMP_AGE_SECS {
            return Err(HandshakeError::TimestampError);
        }
        Ok(timestamp)
    }
}

/// Two records of a peer say the same: the same identifier and the same
/// keys, byte for byte.
pub open spec fn same_peer_info(a: PeerInfo, b: PeerInfo) -> bool {
    &&& a.id@ == b.id@
    &&& a.static_public_key == b.static_public_key
    &&& match (a.kyber_public_key, b.kyber_public_key) {
        (Some(x), Some(y)) => x.data@ == y.data@,
        (None, None) => true,
        _ => false,
    }
}

/// A copy of what is known of a peer.
pub fn copy_peer_info(info: &PeerInfo) -> (out: PeerInfo)
    ensures
        same_peer_info(out, *info),
{
    let kyber_public_key: Option<KyberPublicKey> = match &info.kyber_public_key {
        Some(k) => {
            let data: Vec<u8> = copy_range(k.data.as_slice(), 0, k.data.len());
            assert(data@ =~= k.data@);
            Some(KyberPublicKey { data })
        },
        None => None,
    };
    PeerInfo { id: info.id.clone(), static_public_key: info.static_public_key, kyber_public_key }
}

/// A copy of a message.
pub fn copy_message(msg: &HandshakeMessage) -> (out: HandshakeMessage)
    ensures
        out@ == msg@,
{
    let kyber_public: Vec<u8> = copy_range(msg.kyber_public.as_slice(), 0, msg.kyber_public.len());
    let encrypted_timestamp: Vec<u8> = copy_range(
        msg.encrypted_timestamp.as_slice(),
        0,
        msg.encrypted_timestamp.len(),
    );
    assert(kyber_public@ =~= msg.kyber_public@);
    assert(encrypted_timestamp@ =~= msg.encrypted_timestamp@);
    HandshakeMessage {
        kyber_public,
        x25519_public: msg.x25519_public,
        encrypted_timestamp,
        nonce: msg.nonce,
    }
}

/// Unmasking a masked timestamp with the same key gives the timestamp
/// back.
pub proof fn lemma_timestamp_round_trip(timestamp: u64, key: Seq<u8>)
    requires
        key.len() >= 8,
    ensures
        unmasked_timestamp_spec(masked_timestamp_spec(timestamp, key), key) == timestamp,
{
    let plain = le_bytes_spec(timestamp as nat, 8);
    reveal_with_fuel(crate::encoding::pow256, 10);
    assert(crate::encoding::pow256(8) == 0x1_0000_0000_0000_0000);
    crate::encoding::lemma_le_round_trip(timestamp as nat, 8);
    let masked = masked_timestamp_spec(timestamp, key);
    let back = unmasked_bytes_spec(masked, key);
    assert forall|i: int| 0 <= i < 8 implies back[i] == plain[i] by {
        let a = plain[i];
        let k = key[i];
        assert((a ^ k) ^ k == a) by (bit_vector);
    }
    assert(back =~= plain);
}

/// Both sides hold the same two keys with the directions exchanged: when
/// they combined the same secret, what the initiator sends with is what
/// the responder receives with, and the other way round.
pub proof fn lemma_directional_keys_agree(
    initiator: HandshakeResult,
    responder: HandshakeResult,
    kyber_sk: Seq<u8>,
    initiator_secret: Seq<u8>,
    init_message: HandshakeMessageView,
    responder_sk: Seq<u8>,
    kyber_ss: Seq<u8>,
    responder_secret: Seq<u8>,
    nonce: Seq<u8>,
    timestamp: u64,
)
    requires
        is_completed_result(initiator, kyber_sk, initiator_secret, responder.message@),
        is_responder_result(
            responder,
            init_message,
            responder_sk,
            responder.message@.kyber_public,
            kyber_ss,
            responder_secret,
            nonce,
            timestamp,
        ),
        init_message.kyber_public == embedded_public_key(kyber_sk),
        initiator.combined_secret@ == responder.combined_secret@,
    ensures
        initiator.send_key@ == responder.recv_key@,
        initiator.recv_key@ == responder.send_key@,
        initiator.session_id@ == responder.session_id@,
{
}

} // verus!
