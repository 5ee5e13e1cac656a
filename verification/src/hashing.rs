//! SHA-256 hashing, provided by the `sha2` crate.
//!
//! The digest itself is outside code; its result is named by the
//! uninterpreted function [`sha256_of`], so every contract in the crate that
//! speaks of a hash speaks of the same function of the input bytes.

use vstd::prelude::*;

use sha2::Digest;

verus! {

/// The 32-byte SHA-256 digest of a byte sequence, as computed by `sha2`.
pub uninterp spec fn sha256_of(data: Seq<u8>) -> Seq<u8>;

/// Relies on `sha2::Sha256` through `digest::Digest::digest`: the digest is a
/// function of the input bytes alone and is always 32 bytes long.
#[verifier::external_body]
pub fn sha256(data: &[u8]) -> (r: [u8; 32])
    ensures
        r@ == sha256_of(data@),
{
    sha2::Sha256::digest(data).into()
}

} // verus!
