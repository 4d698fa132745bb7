//! The handshake message and its frame on the wire.
//!
//! A frame is: a 2-byte little-endian length and that many bytes of the
//! KEM field, the 32-byte X25519 public key, a 2-byte little-endian length
//! and that many bytes of encrypted timestamp, and the 12-byte nonce.

use crate::hash::append_bytes;
use crate::hash::array12_from;
use crate::hash::array32_from;
use crate::hash::copy_range;
use crate::pq_handshake::HandshakeError;
use crate::pq_handshake::PostQuantumHandshake;
use crate::sampling::le16;
use vstd::prelude::*;

verus! {

/// One handshake message.
#[derive(Debug, Clone)]
pub struct HandshakeMessage {
    /// The KEM public key of an initiator, or the KEM ciphertext of a
    /// responder.
    pub kyber_public: Vec<u8>,
    /// The sender's X25519 public key.
    pub x25519_public: [u8; 32],
    /// The sender's clock, encrypted.
    pub encrypted_timestamp: Vec<u8>,
    /// The nonce of the encrypted timestamp.
    pub nonce: [u8; 12],
}

/// A handshake message as plain sequences of bytes.
pub struct HandshakeMessageView {
    pub kyber_public: Seq<u8>,
    pub x25519_public: Seq<u8>,
    pub encrypted_timestamp: Seq<u8>,
    pub nonce: Seq<u8>,
}

impl View for HandshakeMessage {
    type V = HandshakeMessageView;

    open spec fn view(&self) -> HandshakeMessageView {
        HandshakeMessageView {
            kyber_public: self.kyber_public@,
            x25519_public: self.x25519_public@,
            encrypted_timestamp: self.encrypted_timestamp@,
            nonce: self.nonce@,
        }
    }
}

/// The smallest frame: both variable fields empty.
pub const MIN_FRAME_BYTES: usize = 48;

/// A message whose fixed fields have their sizes and whose variable fields
/// fit their 16-bit length prefixes.
pub open spec fn well_formed(m: HandshakeMessageView) -> bool {
    &&& m.kyber_public.len() <= 65535
    &&& m.x25519_public.len() == 32
    &&& m.encrypted_timestamp.len() <= 65535
    &&& m.nonce.len() == 12
}

/// The frame of a message. A length that does not fit 16 bits is written
/// modulo 65536.
pub open spec fn frame_spec(m: HandshakeMessageView) -> Seq<u8> {
    le16((m.kyber_public.len() % 65536) as u16) + m.kyber_public + m.x25519_public + le16(
        (m.encrypted_timestamp.len() % 65536) as u16,
    ) + m.encrypted_timestamp + m.nonce
}

/// The 16-bit little-endian number at `pos`.
pub open spec fn read_le16(b: Seq<u8>, pos: int) -> int {
    b[pos] as int + 256 * (b[pos + 1] as int)
}

/// The message that a buffer holds, or `None` if the buffer is shorter
/// than the smallest frame or a length prefix runs past its end. Bytes
/// after the frame are ignored.
pub open spec fn parse_spec(b: Seq<u8>) -> Option<HandshakeMessageView> {
    if b.len() < 48 {
        None
    } else {
        let kl = read_le16(b, 0);
        if b.len() < 2 + kl + 32 + 2 + 12 {
            None
        } else {
            let tl = read_le16(b, 2 + kl + 32);
            if b.len() < 2 + kl + 32 + 2 + tl + 12 {
                None
            } else {
                Some(
                    HandshakeMessageView {
                        kyber_public: b.subrange(2, 2 + kl),
                        x25519_public: b.subrange(2 + kl, 2 + kl + 32),
                        encrypted_timestamp: b.subrange(2 + kl + 34, 2 + kl + 34 + tl),
                        nonce: b.subrange(2 + kl + 34 + tl, 2 + kl + 34 + tl + 12),
                    },
                )
            }
        }
    }
}

/// Parsing the frame of a well-formed message gives the message back.
pub proof fn lemma_frame_round_trip(m: HandshakeMessageView)
    requires
        well_formed(m),
    ensures
        parse_spec(frame_spec(m)) == Some(m),
{
    let b = frame_spec(m);
    let kl = m.kyber_public.len() as int;
    let tl = m.encrypted_timestamp.len() as int;
    assert(b.len() == 2 + kl + 32 + 2 + tl + 12);
    assert(read_le16(b, 0) == kl);
    assert(read_le16(b, 2 + kl + 32) == tl);
    let p = parse_spec(b).unwrap();
    assert(p.kyber_public =~= m.kyber_public);
    assert(p.x25519_public =~= m.x25519_public);
    assert(p.encrypted_timestamp =~= m.encrypted_timestamp);
    assert(p.nonce =~= m.nonce);
}

impl PostQuantumHandshake {
    /// Writes a message as a frame.
    pub fn serialize_message(&self, msg: &HandshakeMessage) -> (bytes: Vec<u8>)
        ensures
            bytes@ == frame_spec(msg@),
    {
        let mut bytes: Vec<u8> = Vec::new();
        let kl: usize = msg.kyber_public.len() % 65536;
        bytes.push((kl % 256) as u8);
        bytes.push((kl / 256) as u8);
        append_bytes(&mut bytes, msg.kyber_public.as_slice());
        append_bytes(&mut bytes, msg.x25519_public.as_slice());
        let tl: usize = msg.encrypted_timestamp.len() % 65536;
        bytes.push((tl % 256) as u8);
        bytes.push((tl / 256) as u8);
        append_bytes(&mut bytes, msg.encrypted_timestamp.as_slice());
        append_bytes(&mut bytes, msg.nonce.as_slice());
        assert(bytes@ =~= frame_spec(msg@));
        bytes
    }

    /// Reads a message from a buffer. Fails with `InvalidMessage` exactly
    /// when the buffer is shorter than the smallest frame or a length
    /// prefix runs past its end.
    pub fn deserialize_message(&self, bytes: &[u8]) -> (r: Result<HandshakeMessage, HandshakeError>)
        ensures
            match r {
                Ok(msg) => parse_spec(bytes@) == Some(msg@),
                Err(e) => parse_spec(bytes@) is None && e is InvalidMessage,
            },
    {
        let n: usize = bytes.len();
        if n < MIN_FRAME_BYTES {
            return Err(HandshakeError::InvalidMessage);
        }
        let kl: usize = bytes[0] as usize + 256 * (bytes[1] as usize);
        if n - 48 < kl {
            return Err(HandshakeError::InvalidMessage);
        }
        let kyber_public: Vec<u8> = copy_range(bytes, 2, 2 + kl);
        let x25519_public: [u8; 32] = array32_from(bytes, 2 + kl);
        let tpos: usize = 2 + kl + 32;
        let tl: usize = bytes[tpos] as usize + 256 * (bytes[tpos + 1] as usize);
        if n - 48 - kl < tl {
            return Err(HandshakeError::InvalidMessage);
        }
        let encrypted_timestamp: Vec<u8> = copy_range(bytes, tpos + 2, tpos + 2 + tl);
        let nonce: [u8; 12] = array12_from(bytes, tpos + 2 + tl);
        Ok(HandshakeMessage { kyber_public, x25519_public, encrypted_timestamp, nonce })
    }
}

} // verus!
