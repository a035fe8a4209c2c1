use k256::ecdsa::signature::hazmat::PrehashSigner;
use k256::ecdsa::{Signature, SigningKey};
use onchainid::claim_management::verify_claim;
use onchainid::contract::{execute, instantiate, query};
use onchainid::error::ContractError;
use onchainid::msg::{ExecuteMsg, InstantiateMsg, QueryMsg, QueryResponse};
use onchainid::state::{Claim, Key, KeyType};
use onchainid::store::IdentityStore;
use sha2::{Digest, Sha256};

fn addr_make(name: &str) -> Vec<u8> {
    name.as_bytes().to_vec()
}

fn instantiate_contract(owner: &[u8]) -> IdentityStore {
    let (store, response) = instantiate(InstantiateMsg { owner: owner.to_vec() });
    assert!(response.attributes.is_empty());
    store
}

/// A wallet whose address is its compressed public key.
fn create_wallet(seed: u8) -> (Vec<u8>, SigningKey) {
    let secret_key = SigningKey::from_slice(&[seed; 32]).unwrap();
    let address = secret_key.verifying_key().to_sec1_bytes().to_vec();
    (address, secret_key)
}

/// The form in which a claim is handed in for signing.
fn serialized(claim: &Claim) -> Vec<u8> {
    format!(
        "{{\"topic\":\"{}\",\"issuer\":\"{}\",\"signature\":\"{}\",\"data\":\"{}\",\"uri\":\"{}\"}}",
        claim.topic,
        hex::encode(&claim.issuer),
        hex::encode(&claim.signature),
        hex::encode(&claim.data),
        claim.uri
    )
    .into_bytes()
}

fn sign(message: &[u8], secret_key: &SigningKey) -> Vec<u8> {
    let digest = Sha256::digest(message);
    let signature: Signature = secret_key.sign_prehash(&digest).unwrap();
    signature.to_bytes().to_vec()
}

/// Signs the claim without its signature, stores that signature in the
/// claim, and signs the claim as it is then submitted.
fn signed_claim(topic: u128, issuer: &[u8], data: Vec<u8>, secret_key: &SigningKey) -> ExecuteMsg {
    let claim = Claim {
        id: None,
        topic,
        issuer: issuer.to_vec(),
        signature: vec![],
        data,
        uri: "https://example.com".to_string(),
    };
    let signature = sign(&serialized(&claim), secret_key);
    let signed = Claim { signature, ..claim };
    let serialized_claim = serialized(&signed);
    let issuer_signature = sign(&serialized_claim, secret_key);
    ExecuteMsg::AddClaim { claim: signed, serialized_claim, issuer_signature }
}

fn get_key(store: &IdentityStore, key_owner: &[u8], key_type: &str) -> Result<Key, ContractError> {
    let msg = QueryMsg::GetKey { key_owner: key_owner.to_vec(), key_type: key_type.to_string() };
    match query(store, msg) {
        Ok(QueryResponse::Key(key)) => Ok(key),
        Ok(other) => panic!("unexpected answer {:?}", other),
        Err(e) => Err(e),
    }
}

fn claim_id_of(response: &onchainid::msg::Response) -> String {
    assert_eq!(response.attributes.len(), 2);
    assert_eq!(response.attributes[0].key, "method");
    assert_eq!(response.attributes[0].value, "add_claim");
    assert_eq!(response.attributes[1].key, "claim_id");
    response.attributes[1].value.clone()
}

#[test]
fn contract_proper_initialization() {
    let owner = addr_make("owner");
    let store = instantiate_contract(&owner);

    let res = query(&store, QueryMsg::GetOwner {}).unwrap();
    assert_eq!(res, QueryResponse::Owner(owner));
}

#[test]
fn add_and_remove_key() {
    let owner = addr_make("owner");
    let mut store = instantiate_contract(&owner);

    let key_owner = addr_make("new_key_owner");

    let msg = ExecuteMsg::AddKey {
        key_owner: key_owner.clone(),
        key_type: "ExecutionKey".to_string(),
    };
    execute(&mut store, &owner, msg).unwrap();

    let res = get_key(&store, &key_owner, "ExecutionKey").unwrap();
    assert_eq!(res.owner, key_owner);
    assert_eq!(res.key_type, KeyType::ExecutionKey);

    let msg = ExecuteMsg::RevokeKey {
        key_owner: key_owner.clone(),
        key_type: "ExecutionKey".to_string(),
    };
    execute(&mut store, &owner, msg).unwrap();

    let res = get_key(&store, &key_owner, "ExecutionKey");
    assert!(res.is_err());
    assert_eq!(res, Err(ContractError::KeyNotFound));
}

#[test]
fn add_and_remove_claim() {
    let (owner_addr, owner_secret_key) = create_wallet(1);
    let mut store = instantiate_contract(&owner_addr);

    let msg = ExecuteMsg::AddKey {
        key_owner: owner_addr.clone(),
        key_type: "ClaimSignerKey".to_string(),
    };
    execute(&mut store, &owner_addr, msg).unwrap();

    let msg = signed_claim(1, &owner_addr, vec![4, 5, 6], &owner_secret_key);
    let response = execute(&mut store, &owner_addr, msg).unwrap();
    let claim_id = claim_id_of(&response);

    let res = verify_claim(&store, &owner_addr, 1).unwrap();
    assert_eq!(res, true);
    let res = query(
        &store,
        QueryMsg::VerifyClaim {
            key_owner: owner_addr.clone(),
            claim_id: claim_id.clone(),
            trusted_issuers_registry: String::new(),
        },
    );
    assert_eq!(res, Ok(QueryResponse::Verified(true)));

    let msg = ExecuteMsg::RemoveClaim { claim_id: claim_id.clone() };
    execute(&mut store, &owner_addr, msg).unwrap();

    let res = query(
        &store,
        QueryMsg::VerifyClaim {
            key_owner: owner_addr.clone(),
            claim_id,
            trusted_issuers_registry: String::new(),
        },
    );
    assert!(res.is_err());
    assert_eq!(res, Err(ContractError::ClaimNotFound));
    assert_eq!(verify_claim(&store, &owner_addr, 1), Ok(false));
}

#[test]
fn add_and_query_claims() {
    let (owner_addr, owner_secret_key) = create_wallet(2);
    let mut store = instantiate_contract(&owner_addr);

    let msg = ExecuteMsg::AddKey {
        key_owner: owner_addr.clone(),
        key_type: "ClaimSignerKey".to_string(),
    };
    execute(&mut store, &owner_addr, msg).unwrap();

    let claim_topics: Vec<u128> = vec![1, 7777, 88];

    for topic in &claim_topics {
        let msg = signed_claim(*topic, &owner_addr, vec![1, 2, 3], &owner_secret_key);
        execute(&mut store, &owner_addr, msg).unwrap();
    }

    for topic in claim_topics.iter() {
        let res = verify_claim(&store, &owner_addr, *topic).unwrap();
        assert_eq!(res, true);
    }

    let msg = signed_claim(claim_topics[0], &owner_addr, vec![1, 2, 3], &owner_secret_key);
    let err = execute(&mut store, &owner_addr, msg).unwrap_err();
    assert_eq!(err, ContractError::ClaimAlreadyExists);
}

#[test]
fn add_different_key_types() {
    let owner = addr_make("owner");
    let mut store = instantiate_contract(&owner);

    let key_types = vec!["ExecutionKey", "ClaimSignerKey", "EncryptionKey"];

    for key_type in &key_types {
        let msg = ExecuteMsg::AddKey { key_owner: owner.clone(), key_type: key_type.to_string() };
        execute(&mut store, &owner, msg).unwrap();

        let res = get_key(&store, &owner, key_type).unwrap();
        assert_eq!(res.owner, owner);
        assert_eq!(res.key_type, KeyType::from_str(key_type).unwrap());
    }

    let msg = ExecuteMsg::AddKey { key_owner: owner.clone(), key_type: "ManagementKey".to_string() };
    let err = execute(&mut store, &owner, msg).unwrap_err();
    assert_eq!(err, ContractError::KeyAlreadyExists);
}

#[test]
fn add_key_to_different_wallet() {
    let owner = addr_make("owner");
    let mut store = instantiate_contract(&owner);

    let different_wallet = addr_make("different_wallet");

    let msg = ExecuteMsg::AddKey {
        key_owner: different_wallet.clone(),
        key_type: "ExecutionKey".to_string(),
    };
    execute(&mut store, &owner, msg).unwrap();

    let res = get_key(&store, &different_wallet, "ExecutionKey").unwrap();
    assert_eq!(res.owner, different_wallet);
    assert_eq!(res.key_type, KeyType::ExecutionKey);

    let msg = ExecuteMsg::AddKey { key_owner: owner.clone(), key_type: "ManagementKey".to_string() };
    let err = execute(&mut store, &different_wallet, msg).unwrap_err();
    assert_eq!(err, ContractError::Unauthorized);

    let msg = ExecuteMsg::AddKey { key_owner: owner.clone(), key_type: "EncryptionKey".to_string() };
    execute(&mut store, &owner, msg).unwrap();

    let res = get_key(&store, &different_wallet, "ExecutionKey").unwrap();
    assert_eq!(res.owner, different_wallet);
    assert_eq!(res.key_type, KeyType::ExecutionKey);

    let res = get_key(&store, &owner, "EncryptionKey").unwrap();
    assert_eq!(res.owner, owner);
    assert_eq!(res.key_type, KeyType::EncryptionKey);
}
