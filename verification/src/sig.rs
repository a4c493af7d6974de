//! Ed25519 signature verification, the one cryptographic primitive the
//! engine relies on. The outcome of verification is named by an
//! uninterpreted spec function: it is a deterministic function of the key
//! bytes, the message bytes and the signature bytes, and the engine's
//! contracts speak of that name exactly.

use crate::tx::{PublicKey, Signature};
use vstd::prelude::*;

verus! {

/// Whether `sig` is a valid Ed25519 signature by the key `pk` over the
/// message `msg`. Stands for the outcome of `ed25519_dalek`'s verification,
/// which depends on these three byte strings alone; a key whose bytes do not
/// decode to a curve point verifies nothing.
pub uninterp spec fn ed25519_verifies(pk: Seq<u8>, msg: Seq<u8>, sig: Seq<u8>) -> bool;

/// Relies on `ed25519_dalek::VerifyingKey::{from_bytes, verify}`: decoding a
/// public key and checking the Ed25519 verification equation are
/// deterministic in the key, message and signature bytes.
#[verifier::external_body]
pub fn verify_signature(pk: &PublicKey, msg: &Vec<u8>, sig: &Signature) -> (r: bool)
    ensures
        r == ed25519_verifies(pk@, msg@, sig@),
{
    match ed25519_dalek::VerifyingKey::from_bytes(&pk.0) {
        Ok(key) => {
            let signature = ed25519_dalek::Signature::from_bytes(&sig.0);
            ed25519_dalek::Verifier::verify(&key, msg.as_slice(), &signature).is_ok()
        },
        Err(_) => false,
    }
}

} // verus!
