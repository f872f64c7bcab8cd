//! Trusted boundary to the outside cryptography: the Keccak-256 digest and
//! ECDSA public-key recovery over secp256k1. Everything here is stated, not
//! proved; the rest of the library reasons from these contracts alone.

use vstd::prelude::*;
use sha3::Digest;

verus! {

/// The Keccak-256 digest of a byte string: a function of the bytes alone.
pub uninterp spec fn keccak_of(data: Seq<u8>) -> Seq<u8>;

/// Whether the 64-byte `r || s` signature with the given parity bit
/// recovers a public key for the 32-byte prehash: a function of the
/// arguments alone.
pub uninterp spec fn recovery_ok(prehash: Seq<u8>, sig: Seq<u8>, odd_y_parity: bool) -> bool;

/// Relies on `sha3::Keccak256` (through `Digest::digest`): the Keccak-256
/// digest of the input, 32 bytes, depending on the input bytes alone.
#[verifier::external_body]
pub fn keccak256(data: &Vec<u8>) -> (r: Vec<u8>)
    ensures
        r@ == keccak_of(data@),
        r@.len() == 32,
{
    sha3::Keccak256::digest(data.as_slice()).to_vec()
}

/// Relies on `k256::ecdsa::VerifyingKey::recover_from_prehash`: whether a
/// key recovers from the prehash under the signature and parity; and on
/// `k256::ecdsa::Signature::from_slice`, whose rejection of a malformed
/// scalar pair counts as recovery failure. Both depend on the arguments
/// alone and return errors rather than panic.
#[verifier::external_body]
pub fn ecdsa_recovers(sig64: &Vec<u8>, odd_y_parity: bool, prehash: &Vec<u8>) -> (ok: bool)
    ensures
        ok == recovery_ok(prehash@, sig64@, odd_y_parity),
{
    match k256::ecdsa::Signature::from_slice(sig64.as_slice()) {
        Ok(sig) => {
            let rid = k256::ecdsa::RecoveryId::new(odd_y_parity, false);
            k256::ecdsa::VerifyingKey::recover_from_prehash(prehash.as_slice(), &sig, rid).is_ok()
        },
        Err(_) => false,
    }
}

} // verus!
