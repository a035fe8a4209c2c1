//! Checking an issuer's signature over a claim digest.

use vstd::prelude::*;
use crate::error::{ContractError, ErrorView, fails_with};

verus! {

/// The error type of the signature library.
#[verifier::external_type_specification]
#[verifier::external_body]
pub struct ExCryptoError(cosmwasm_crypto::CryptoError);

/// What secp256k1 ECDSA verification makes of a message hash, a signature
/// and a public key: `Some(true)` where the signature is valid for the hash
/// under the key, `Some(false)` where it is not, and `None` where one of
/// the three is malformed.
pub uninterp spec fn secp256k1_verify(
    message_hash: Seq<u8>,
    signature: Seq<u8>,
    public_key: Seq<u8>,
) -> Option<bool>;

/// `cosmwasm_crypto::secp256k1_verify`: the verdict on the three byte
/// strings, or the library's error where it rejects one of them as
/// malformed. The verdict is only given its name here; nothing of the
/// cryptography is proved.
#[verifier::external_body]
fn secp256k1_check(
    message_hash: &[u8],
    signature: &[u8],
    public_key: &[u8],
) -> (outcome: Result<bool, cosmwasm_crypto::CryptoError>)
    ensures
        match outcome {
            Ok(valid) => secp256k1_verify(message_hash@, signature@, public_key@) == Some(valid),
            Err(_) => secp256k1_verify(message_hash@, signature@, public_key@) is None,
        },
{
    cosmwasm_crypto::secp256k1_verify(message_hash, signature, public_key)
}

/// Verifies a signature over a message hash under a public key.
pub fn verify_signature(
    message_hash: &[u8],
    signature: &[u8],
    public_key: &[u8],
) -> (outcome: Option<bool>)
    ensures
        outcome == secp256k1_verify(message_hash@, signature@, public_key@),
{
    match secp256k1_check(message_hash, signature, public_key) {
        Ok(valid) => Some(valid),
        Err(_) => None,
    }
}

/// What a verification outcome means for a claim: accepted where the
/// signature is valid, `InvalidIssuerSignature` where it is not or where
/// verification could not be carried out.
pub open spec fn verdict(outcome: Option<bool>) -> Result<(), ErrorView> {
    if outcome == Some(true) {
        Ok(())
    } else {
        Err(ErrorView::InvalidIssuerSignature)
    }
}

/// Turns a verification outcome into acceptance or rejection of the claim.
pub fn signature_verdict(outcome: Option<bool>) -> (r: Result<(), ContractError>)
    ensures
        match verdict(outcome) {
            Ok(()) => r is Ok,
            Err(e) => fails_with(r, e),
        },
{
    match outcome {
        Some(true) => Ok(()),
        _ => Err(ContractError::InvalidIssuerSignature),
    }
}

} // verus!
