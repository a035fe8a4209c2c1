use k256::ecdsa::signature::hazmat::PrehashSigner;
use k256::ecdsa::{Signature, SigningKey};
use onchainid::claim_management::verify_claim_signature;
use onchainid::error::ContractError;
use onchainid::signature::{signature_verdict, verify_signature};
use onchainid::state::{Claim, Identity, Key, KeyType};
use onchainid::store::IdentityStore;
use sha2::{Digest, Sha256};

const MSG_HASH_HEX: &str = "5ae8317d34d1e595e3fa7247db80c0af4320cce1116de187f8f7e2e099c0d8d0";
const SIG_HEX: &str = "207082eb2c3dfa0b454e0906051270ba4074ac93760ba9e7110cd9471475111151eb0dbbc9920e72146fb564f99d039802bf6ef2561446eb126ef364d21ee9c4";
const PUBKEY_HEX: &str = "04051c1ee2190ecfb174bfe4f90763f2b4ff7517b70a2aec1876ebcfd644c4633fb03f3cfbd94b1f376e34592d9d41ccaf640bb751b00a1fadeb0c01157769eb73";

fn wallet(seed: u8) -> (Vec<u8>, SigningKey) {
    let secret_key = SigningKey::from_slice(&[seed; 32]).unwrap();
    let address = secret_key.verifying_key().to_sec1_bytes().to_vec();
    (address, secret_key)
}

fn sign(message: &[u8], secret_key: &SigningKey) -> Vec<u8> {
    let digest = Sha256::digest(message);
    let signature: Signature = secret_key.sign_prehash(&digest).unwrap();
    signature.to_bytes().to_vec()
}

fn claim_by(issuer: &[u8]) -> Claim {
    Claim {
        id: None,
        topic: 1,
        issuer: issuer.to_vec(),
        signature: vec![],
        data: vec![1, 2, 3],
        uri: "https://example.com".to_string(),
    }
}

/// A store that holds the issuer's record with the given keys.
fn store_with_issuer(issuer: &[u8], keys: Vec<Key>) -> IdentityStore {
    let mut store = IdentityStore::new(issuer);
    store.save(Identity { address: issuer.to_vec(), keys, claims: vec![] });
    store
}

fn signer_key(owner: &[u8]) -> Key {
    Key { owner: owner.to_vec(), key_type: KeyType::ClaimSignerKey }
}

#[test]
fn known_signature_verifies() {
    let hash = hex::decode(MSG_HASH_HEX).unwrap();
    let signature = hex::decode(SIG_HEX).unwrap();
    let public_key = hex::decode(PUBKEY_HEX).unwrap();
    assert_eq!(verify_signature(&hash, &signature, &public_key), Some(true));

    let mut altered = hash.clone();
    altered[0] ^= 0x01;
    assert_eq!(verify_signature(&altered, &signature, &public_key), Some(false));
}

#[test]
fn malformed_inputs_give_no_verdict() {
    let hash = hex::decode(MSG_HASH_HEX).unwrap();
    let signature = hex::decode(SIG_HEX).unwrap();
    let public_key = hex::decode(PUBKEY_HEX).unwrap();
    assert_eq!(verify_signature(&hash[..31], &signature, &public_key), None);
    assert_eq!(verify_signature(&hash, &signature[..63], &public_key), None);
    assert_eq!(verify_signature(&hash, &signature, &public_key[..64]), None);
    assert_eq!(verify_signature(&hash, &signature, b"owner"), None);
    assert_eq!(verify_signature(&[], &[], &[]), None);
}

#[test]
fn only_a_valid_signature_is_accepted() {
    assert_eq!(signature_verdict(Some(true)), Ok(()));
    assert_eq!(signature_verdict(Some(false)), Err(ContractError::InvalidIssuerSignature));
    assert_eq!(signature_verdict(None), Err(ContractError::InvalidIssuerSignature));
}

#[test]
fn claim_signed_by_the_registered_signer_verifies() {
    let (issuer, secret_key) = wallet(3);
    let store = store_with_issuer(&issuer, vec![signer_key(&issuer)]);
    for payload in [&b""[..], b"a", b"{\"topic\":\"1\"}", &[0u8; 1000]] {
        let signature = sign(payload, &secret_key);
        let res = verify_claim_signature(&store, &claim_by(&issuer), payload, &signature);
        assert_eq!(res, Ok(()));
    }
}

#[test]
fn claim_signed_by_an_unrelated_key_is_rejected() {
    let (issuer, _) = wallet(3);
    let (_, stranger_key) = wallet(4);
    let store = store_with_issuer(&issuer, vec![signer_key(&issuer)]);
    for payload in [&b""[..], b"a", b"{\"topic\":\"1\"}", &[0u8; 1000]] {
        let signature = sign(payload, &stranger_key);
        let res = verify_claim_signature(&store, &claim_by(&issuer), payload, &signature);
        assert_eq!(res, Err(ContractError::InvalidIssuerSignature));
    }
}

#[test]
fn corrupted_signature_is_rejected() {
    let (issuer, secret_key) = wallet(5);
    let store = store_with_issuer(&issuer, vec![signer_key(&issuer)]);
    let payload = b"claim as submitted";
    let signature = sign(payload, &secret_key);
    for position in [0usize, 17, 31, 32, 63] {
        let mut corrupted = signature.clone();
        corrupted[position] ^= 0x40;
        let res = verify_claim_signature(&store, &claim_by(&issuer), payload, &corrupted);
        assert_eq!(res, Err(ContractError::InvalidIssuerSignature));
    }
    let res = verify_claim_signature(&store, &claim_by(&issuer), payload, &signature[..40]);
    assert_eq!(res, Err(ContractError::InvalidIssuerSignature));
    let res = verify_claim_signature(&store, &claim_by(&issuer), payload, &[]);
    assert_eq!(res, Err(ContractError::InvalidIssuerSignature));
}

#[test]
fn signature_over_other_bytes_is_rejected() {
    let (issuer, secret_key) = wallet(6);
    let store = store_with_issuer(&issuer, vec![signer_key(&issuer)]);
    let signature = sign(b"claim as signed", &secret_key);
    let res = verify_claim_signature(&store, &claim_by(&issuer), b"claim as sent", &signature);
    assert_eq!(res, Err(ContractError::InvalidIssuerSignature));
}

#[test]
fn issuer_without_signer_key_is_unauthorized() {
    let (issuer, secret_key) = wallet(7);
    let keys = vec![
        Key { owner: issuer.clone(), key_type: KeyType::ManagementKey },
        Key { owner: issuer.clone(), key_type: KeyType::ExecutionKey },
        Key { owner: issuer.clone(), key_type: KeyType::EncryptionKey },
    ];
    let store = store_with_issuer(&issuer, keys);
    let signature = sign(b"claim", &secret_key);
    let res = verify_claim_signature(&store, &claim_by(&issuer), b"claim", &signature);
    assert_eq!(res, Err(ContractError::Unauthorized));
}

#[test]
fn issuer_without_record_is_a_storage_error() {
    let (issuer, secret_key) = wallet(8);
    let store = IdentityStore::new(&issuer);
    let signature = sign(b"claim", &secret_key);
    let res = verify_claim_signature(&store, &claim_by(&issuer), b"claim", &signature);
    assert_eq!(res, Err(ContractError::StorageError));
}

#[test]
fn the_first_signer_key_is_the_public_key() {
    let (issuer, first_key) = wallet(9);
    let (second, second_key) = wallet(10);
    let keys = vec![
        Key { owner: issuer.clone(), key_type: KeyType::ManagementKey },
        signer_key(&issuer),
        signer_key(&second),
    ];
    let store = store_with_issuer(&issuer, keys);
    let by_first = sign(b"claim", &first_key);
    let by_second = sign(b"claim", &second_key);
    assert_eq!(verify_claim_signature(&store, &claim_by(&issuer), b"claim", &by_first), Ok(()));
    assert_eq!(
        verify_claim_signature(&store, &claim_by(&issuer), b"claim", &by_second),
        Err(ContractError::InvalidIssuerSignature)
    );
}

#[test]
fn signer_key_that_is_no_public_key_is_rejected() {
    let issuer = b"issuer".to_vec();
    let (_, secret_key) = wallet(11);
    let store = store_with_issuer(&issuer, vec![signer_key(&issuer)]);
    let signature = sign(b"claim", &secret_key);
    let res = verify_claim_signature(&store, &claim_by(&issuer), b"claim", &signature);
    assert_eq!(res, Err(ContractError::InvalidIssuerSignature));
}
