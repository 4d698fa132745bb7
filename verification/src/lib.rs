//! Key negotiation core of a post-quantum VPN daemon.
//!
//! The crate holds a lattice-based key-encapsulation mechanism, a hybrid
//! handshake that joins it with an X25519 exchange, and a manager that
//! rotates the resulting session keys per peer.

use vstd::prelude::*;

pub mod clock;
pub mod encoding;
pub mod entropy;
pub mod hash;
pub mod key_rotation;
pub mod kyber;
pub mod kyber_laws;
pub mod linear;
pub mod packing;
pub mod packing_laws;
pub mod pq_handshake;
pub mod ring;
pub mod rotation_laws;
pub mod sampling;
pub mod session;
pub mod sessions_map;
pub mod wire;
pub mod x25519;

pub use crate::key_rotation::KeyMaterial;
pub use crate::key_rotation::KeyRotationManager;
pub use crate::key_rotation::RotationConfig;
pub use crate::key_rotation::RotationError;
pub use crate::key_rotation::RotationStats;
pub use crate::kyber::Kyber768;
pub use crate::kyber::KyberError;
pub use crate::kyber::KyberPublicKey;
pub use crate::kyber::KyberSecretKey;
pub use crate::pq_handshake::EphemeralKeyPair;
pub use crate::pq_handshake::HandshakeError;
pub use crate::pq_handshake::HandshakeMessage;
pub use crate::pq_handshake::HandshakeResult;
pub use crate::pq_handshake::PeerInfo;
pub use crate::pq_handshake::PostQuantumHandshake;

verus! {

/// Every error of the daemon.
#[derive(Debug)]
pub enum VpnError {
    /// The key-encapsulation mechanism failed.
    Kyber(KyberError),
    /// A handshake failed.
    Handshake(HandshakeError),
    /// The rotation manager failed.
    Rotation(RotationError),
    /// The tunnel failed; the text says how.
    Tunnel(String),
    /// Input or output failed; the text says how.
    Io(String),
    /// The configuration is unusable; the text says why.
    Config(String),
}

impl From<KyberError> for VpnError {
    /// An error of the key-encapsulation mechanism, as a daemon error.
    fn from(e: KyberError) -> (r: Self) {
        VpnError::Kyber(e)
    }
}

impl vstd::std_specs::convert::FromSpecImpl<KyberError> for VpnError {
    open spec fn obeys_from_spec() -> bool {
        true
    }

    open spec fn from_spec(e: KyberError) -> Self {
        VpnError::Kyber(e)
    }
}

impl From<HandshakeError> for VpnError {
    /// A handshake error, as a daemon error.
    fn from(e: HandshakeError) -> (r: Self) {
        VpnError::Handshake(e)
    }
}

impl vstd::std_specs::convert::FromSpecImpl<HandshakeError> for VpnError {
    open spec fn obeys_from_spec() -> bool {
        true
    }

    open spec fn from_spec(e: HandshakeError) -> Self {
        VpnError::Handshake(e)
    }
}

impl From<RotationError> for VpnError {
    /// An error of the rotation manager, as a daemon error.
    fn from(e: RotationError) -> (r: Self) {
        VpnError::Rotation(e)
    }
}

impl vstd::std_specs::convert::FromSpecImpl<RotationError> for VpnError {
    open spec fn obeys_from_spec() -> bool {
        true
    }

    open spec fn from_spec(e: RotationError) -> Self {
        VpnError::Rotation(e)
    }
}

/// The version of this library.
pub fn version() -> (v: &'static str)
    ensures
        v@ == "0.1.0"@,
        v@.len() == 5,
{
    proof {
        reveal_strlit("0.1.0");
    }
    "0.1.0"
}

} // verus!
