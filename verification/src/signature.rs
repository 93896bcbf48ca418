//! Ed25519 signature verification, delegated to the Soroban host.
//!
//! The host's primitive is a black box to this crate: nothing is proved about
//! which signatures it accepts, only that its verdict depends on the key, the
//! message and the signature alone.

use soroban_env_host::{Env, EnvBase, Host};
use vstd::prelude::*;

verus! {

/// The verdict of the Soroban host's Ed25519 primitive: whether `signature`
/// is accepted as a signature of `message` under `public_key`.
pub uninterp spec fn ed25519_accepts(
    public_key: Seq<u8>,
    message: Seq<u8>,
    signature: Seq<u8>,
) -> bool;

/// Verifies an Ed25519 signature over `message` under `public_key`.
///
/// Trusted: calls `verify_sig_ed25519` of `soroban_env_host::Env` on a fresh
/// `soroban_env_host::Host`, after handing it the three byte strings with
/// `bytes_new_from_slice`. The host function returns `Ok` when the signature
/// verifies and an error otherwise (a malformed key, a malformed signature, a
/// signature that does not match); the contract claims that this verdict is
/// the one `ed25519_accepts` names. Every failure yields `false`.
#[verifier::external_body]
pub fn verify_signature(public_key: &[u8; 32], signature: &[u8; 64], message: &[u8]) -> (accepted:
    bool)
    ensures
        accepted == ed25519_accepts(public_key@, message@, signature@),
{
    let host = Host::default();
    let key = host.bytes_new_from_slice(public_key);
    let payload = host.bytes_new_from_slice(message);
    let sig = host.bytes_new_from_slice(signature);
    match (key, payload, sig) {
        (Ok(key), Ok(payload), Ok(sig)) => host.verify_sig_ed25519(key, payload, sig).is_ok(),
        _ => false,
    }
}

} // verus!
