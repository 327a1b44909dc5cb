//! The calls into libsodium that the protocol makes itself.
//!
//! Each function here is a thin wrapper whose contract is taken on trust from
//! the documentation of the function it calls.
use vstd::prelude::*;

verus! {

/// The SHA-256 digest of a byte string.
pub uninterp spec fn sha256_digest(data: Seq<u8>) -> [u8; 32];

/// Calls `sodiumoxide::crypto::hash::sha256::hash`. Trusted: the result is the
/// SHA-256 digest of `data`, which depends on `data` alone.
#[verifier::external_body]
pub(crate) fn sha256(data: &[u8]) -> (digest: [u8; 32])
    ensures
        digest == sha256_digest(data@),
{
    sodiumoxide::crypto::hash::sha256::hash(data).0
}

/// Calls `sodiumoxide::randombytes::randombytes`. Trusted: the result has
/// `size` bytes. Nothing is said of their values.
#[verifier::external_body]
pub(crate) fn random_bytes(size: usize) -> (bytes: Vec<u8>)
    ensures
        bytes@.len() == size,
{
    sodiumoxide::randombytes::randombytes(size)
}

/// Calls `sodiumoxide::utils::memzero`. Trusted: every byte of the buffer is
/// zero afterwards, and its length is unchanged.
#[verifier::external_body]
pub(crate) fn memzero(buffer: &mut Vec<u8>)
    ensures
        final(buffer)@.len() == old(buffer)@.len(),
        forall|i: int| 0 <= i < final(buffer)@.len() ==> final(buffer)@[i] == 0,
{
    sodiumoxide::utils::memzero(buffer.as_mut_slice())
}

/// Calls `sodiumoxide::init`, which makes the random number generator safe to
/// use from several threads. The result says whether libsodium reported
/// success.
#[verifier::external_body]
pub(crate) fn init() -> (ready: bool) {
    sodiumoxide::init().is_ok()
}

} // verus!
