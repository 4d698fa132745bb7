//! The X25519 function of RFC 7748, on plain bytes.

use vstd::prelude::*;

verus! {

/// The result of `x25519_dalek::x25519` on a scalar `k` and a point `u`,
/// 32 bytes each.
pub uninterp spec fn x25519_spec(k: Seq<u8>, u: Seq<u8>) -> Seq<u8>;

/// The base point: the byte 9 followed by 31 zero bytes.
pub open spec fn basepoint_spec() -> Seq<u8> {
    Seq::new(
        32,
        |i: int|
            if i == 0 {
                9u8
            } else {
                0u8
            },
    )
}

/// The public key of a secret scalar.
pub open spec fn x25519_public_spec(secret: Seq<u8>) -> Seq<u8> {
    x25519_spec(secret, basepoint_spec())
}

/// Calls `x25519_dalek::x25519`, which clamps the scalar and multiplies
/// the point by it.
///
/// Trusted: the result is a function of the two arguments alone.
#[verifier::external_body]
pub(crate) fn x25519_mult(k: &[u8; 32], u: &[u8; 32]) -> (out: [u8; 32])
    ensures
        out@ == x25519_spec(k@, u@),
{
    x25519_dalek::x25519(*k, *u)
}

/// The base point as an array.
pub fn basepoint() -> (b: [u8; 32])
    ensures
        b@ == basepoint_spec(),
{
    let mut b: [u8; 32] = [0u8; 32];
    b[0] = 9u8;
    assert(b@ =~= basepoint_spec());
    b
}

/// The public key that belongs to a secret scalar.
pub fn x25519_public_key(secret: &[u8; 32]) -> (public: [u8; 32])
    ensures
        public@ == x25519_public_spec(secret@),
{
    let b: [u8; 32] = basepoint();
    x25519_mult(secret, &b)
}

/// The secret that a scalar and a peer's public key agree on.
pub fn x25519_shared_secret(secret: &[u8; 32], peer_public: &[u8; 32]) -> (shared: [u8; 32])
    ensures
        shared@ == x25519_spec(secret@, peer_public@),
{
    x25519_mult(secret, peer_public)
}

} // verus!
