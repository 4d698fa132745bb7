//! Random bytes from the operating system.

use rand::rngs::OsRng;
use rand::RngCore;
use vstd::prelude::*;

verus! {

/// The operating system's random number generator, `rand::rngs::OsRng`.
#[verifier::external_type_specification]
#[verifier::external_body]
pub struct ExOsRng(OsRng);

/// The error of a failed draw, `rand::Error`.
#[verifier::external_type_specification]
#[verifier::external_body]
pub struct ExRandError(rand::Error);

/// A handle on `rand::rngs::OsRng`, which is a unit value.
#[verifier::external_body]
pub(crate) fn os_rng() -> (rng: OsRng) {
    OsRng
}

/// Calls `OsRng::try_fill_bytes` on a fresh buffer of `n` bytes.
///
/// Trusted: on success the buffer that comes back has the length it was
/// made with. Nothing is claimed of its contents.
#[verifier::external_body]
pub(crate) fn os_random_bytes(rng: &mut OsRng, n: usize) -> (r: Result<Vec<u8>, rand::Error>)
    ensures
        r matches Ok(v) ==> v@.len() == n,
{
    let mut buf = vec![0u8; n];
    match rng.try_fill_bytes(&mut buf) {
        Ok(()) => Ok(buf),
        Err(e) => Err(e),
    }
}

} // verus!
