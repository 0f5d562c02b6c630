//! SHA-256, the one hash function the whole protocol is built on.

use vstd::prelude::*;
use sha2::{Digest, Sha256};

verus! {

/// The SHA-256 digest of a byte string, as the `sha2` crate computes it.
pub uninterp spec fn sha256_spec(data: Seq<u8>) -> Seq<u8>;

/// Hashes `data` with `sha2::Sha256::digest`.
///
/// Trusted: the result is taken to be the value of `sha256_spec` on the
/// input bytes (a 32-byte array by its type); nothing else about SHA-256
/// is claimed.
#[verifier::external_body]
pub(crate) fn sha256(data: &[u8]) -> (out: [u8; 32])
    ensures
        out@ == sha256_spec(data@),
{
    Sha256::digest(data).into()
}

} // verus!
