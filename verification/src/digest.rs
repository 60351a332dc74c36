//! SHA-3 digests, computed by the `sha3` crate.

use sha3::Digest;
use vstd::prelude::*;

verus! {

/// The SHA3-256 digest of a byte string, as `sha3::Sha3_256` computes it.
pub uninterp spec fn sha3_256(data: Seq<u8>) -> Seq<u8>;

/// Hashes `data` with `sha3::Sha3_256` (`Digest::digest`). Trusted: the result is
/// the digest named `sha3_256`, and it is 32 bytes long, as the type's output size says.
#[verifier::external_body]
pub(crate) fn sha3_256_digest(data: &[u8]) -> (out: Vec<u8>)
    ensures
        out@ == sha3_256(data@),
        out@.len() == 32,
{
    sha3::Sha3_256::digest(data).to_vec()
}

} // verus!

verus! {

/// The SHA3-512 digest of a byte string, as `sha3::Sha3_512` computes it.
pub uninterp spec fn sha3_512(data: Seq<u8>) -> Seq<u8>;

/// Hashes `data` with `sha3::Sha3_512` (`Digest::digest`). Trusted: the result is
/// the digest named `sha3_512`, and it is 64 bytes long, as the type's output size says.
#[verifier::external_body]
pub(crate) fn sha3_512_digest(data: &[u8]) -> (out: Vec<u8>)
    ensures
        out@ == sha3_512(data@),
        out@.len() == 64,
{
    sha3::Sha3_512::digest(data).to_vec()
}

} // verus!
