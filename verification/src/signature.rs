//! The ed25519 check of the admin's signature over a game, made by
//! `ed25519-dalek` as the Soroban host makes it.
use vstd::prelude::*;

verus! {

/// Whether `signature` is a valid ed25519 signature of `message` under
/// `public_key`, by `ed25519_dalek`'s strict verification (a public key that
/// does not decode gives `false`).
pub uninterp spec fn ed25519_strict_valid(public_key: Seq<u8>, message: Seq<u8>, signature: Seq<u8>) -> bool;

/// Calls `ed25519_dalek::VerifyingKey::from_bytes` on the key and then
/// `VerifyingKey::verify_strict` on the message and the signature, as the
/// host's `ed25519_verify` does. Trusted: the result is only named
/// (`ed25519_strict_valid`), as a function of the three byte strings.
#[verifier::external_body]
pub(crate) fn ed25519_verify_strict(public_key: &[u8; 32], message: &[u8], signature: &[u8; 64]) -> (valid: bool)
    ensures
        valid == ed25519_strict_valid(public_key@, message@, signature@),
{
    match ed25519_dalek::VerifyingKey::from_bytes(public_key) {
        Ok(key) => key.verify_strict(message, &ed25519_dalek::Signature::from_bytes(signature)).is_ok(),
        Err(_) => false,
    }
}

} // verus!
