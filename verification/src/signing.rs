//! Message signing and verification: ECDSA over secp256k1, applied to the
//! SHA-256 digest of the message bytes.
//!
//! The curve arithmetic is the `secp256k1` library's (reached through the
//! `bitcoin` crate); what a signature or key contains is opaque here. Its
//! results are named by uninterpreted functions — the signature is
//! [`sig_of`] the digest and secret key (RFC 6979 signing is
//! deterministic), the verdict is [`verify_verdict_of`] the digest,
//! signature and public key, and a secret key's derived public key is
//! [`public_key_of`] it — so contracts pin each result to exactly the
//! inputs it depends on, and a signature produced here provably verifies
//! under the matching public key. Verification reports a single boolean: an
//! invalid signature and a malformed input are not distinguished.

use vstd::prelude::*;

use bitcoin::secp256k1::ecdsa::Signature;
use bitcoin::secp256k1::{PublicKey, SecretKey};

use crate::errors::OracleVmError;
use crate::hashing::{sha256, sha256_of};

verus! {

#[verifier::external_type_specification]
#[verifier::external_body]
pub struct ExSecretKey(SecretKey);

#[verifier::external_type_specification]
#[verifier::external_body]
pub struct ExPublicKey(PublicKey);

#[verifier::external_type_specification]
#[verifier::external_body]
pub struct ExSignature(Signature);

/// The signature secp256k1's `sign_ecdsa` produces for a digest under a
/// secret key: a function of exactly these two, since the RFC 6979 nonce is
/// derived from them and nothing else.
pub uninterp spec fn sig_of(digest: Seq<u8>, secret_key: SecretKey) -> Signature;

/// The verdict secp256k1's `verify_ecdsa` reaches for a digest, signature
/// and public key: a function of exactly these three.
pub uninterp spec fn verify_verdict_of(
    digest: Seq<u8>,
    signature: Signature,
    public_key: PublicKey,
) -> bool;

/// The public key secp256k1's `PublicKey::from_secret_key` derives from a
/// secret key: a function of the secret key alone.
pub uninterp spec fn public_key_of(secret_key: SecretKey) -> PublicKey;

/// Relies on secp256k1's derived `Clone` for `PublicKey`, a `Copy` type:
/// the clone is the same key.
pub assume_specification[ <PublicKey as Clone>::clone ](k: &PublicKey) -> (r: PublicKey)
    ensures
        r == *k,
;

/// Relies on secp256k1's `Secp256k1::sign_ecdsa`, with the message built by
/// `Message::from_digest` from the 32-byte digest: it signs
/// deterministically (RFC 6979), returns for every digest and key, and
/// never panics. Per the library's own documentation, the produced
/// signature verifies under the secret key's derived public key.
#[verifier::external_body]
fn ecdsa_sign_digest(digest: &[u8; 32], secret_key: &SecretKey) -> (r: Signature)
    ensures
        r == sig_of(digest@, *secret_key),
        verify_verdict_of(digest@, r, public_key_of(*secret_key)),
{
    let secp = bitcoin::secp256k1::Secp256k1::new();
    let message = bitcoin::secp256k1::Message::from_digest(*digest);
    secp.sign_ecdsa(&message, secret_key)
}

/// Relies on secp256k1's `Secp256k1::verify_ecdsa`, with the message built
/// by `Message::from_digest`: it returns `Ok` exactly for a valid
/// signature, and never panics. Which inputs verify is the curve's
/// business; the boolean is named, not described.
#[verifier::external_body]
fn ecdsa_verify_digest(digest: &[u8; 32], signature: &Signature, public_key: &PublicKey) -> (r:
    bool)
    ensures
        r == verify_verdict_of(digest@, *signature, *public_key),
{
    let secp = bitcoin::secp256k1::Secp256k1::new();
    let message = bitcoin::secp256k1::Message::from_digest(*digest);
    secp.verify_ecdsa(&message, signature, public_key).is_ok()
}

/// Relies on secp256k1's `Secp256k1::generate_keypair` with
/// `rand::thread_rng`: it draws a fresh secret key and never panics. The
/// secret key depends on the generator's randomness, so nothing is claimed
/// of it; the returned public key, though, is always the one derived from
/// the returned secret key (`PublicKey::from_secret_key`, per the source).
#[verifier::external_body]
pub fn generate_keypair() -> (r: (SecretKey, PublicKey))
    ensures
        r.1 == public_key_of(r.0),
{
    let secp = bitcoin::secp256k1::Secp256k1::new();
    secp.generate_keypair(&mut bitcoin::secp256k1::rand::thread_rng())
}

/// Signs the SHA-256 digest of `data` with the given secret key. Signing
/// always succeeds — every 32-byte digest is a valid message — and yields
/// exactly [`sig_of`] the digest, a signature that verifies under the
/// secret key's derived public key.
pub fn sign_data(data: &[u8], secret_key: &SecretKey) -> (r: Result<Signature, OracleVmError>)
    ensures
        r matches Ok(s) && s == sig_of(sha256_of(data@), *secret_key),
        r matches Ok(s) && verify_verdict_of(sha256_of(data@), s, public_key_of(*secret_key)),
{
    let hash = sha256(data);
    Ok(ecdsa_sign_digest(&hash, secret_key))
}

/// Verifies a signature against the SHA-256 digest of `data` under the
/// given public key. The check itself always completes; the boolean is
/// exactly [`verify_verdict_of`] the digest, signature and key — in
/// particular, `true` for a signature [`sign_data`] produced under the
/// matching key.
pub fn verify_signature(data: &[u8], signature: &Signature, public_key: &PublicKey) -> (r: Result<
    bool,
    OracleVmError,
>)
    ensures
        r matches Ok(b) && b == verify_verdict_of(sha256_of(data@), *signature, *public_key),
{
    let hash = sha256(data);
    Ok(ecdsa_verify_digest(&hash, signature, public_key))
}

} // verus!
