use onchainid::error::ContractError;
use onchainid::state::KeyType;

#[test]
fn key_type_names_read_back() {
    let all = [
        (KeyType::ManagementKey, "ManagementKey"),
        (KeyType::ExecutionKey, "ExecutionKey"),
        (KeyType::ClaimSignerKey, "ClaimSignerKey"),
        (KeyType::EncryptionKey, "EncryptionKey"),
    ];
    for (key_type, name) in all {
        assert_eq!(key_type.to_string(), name);
        assert_eq!(KeyType::from_str(name), Ok(key_type));
    }
}

#[test]
fn unknown_key_type_is_rejected_with_its_text() {
    assert_eq!(
        KeyType::from_str("managementkey"),
        Err(ContractError::InvalidKeyType { key_type: "managementkey".to_string() })
    );
    assert_eq!(
        KeyType::from_str(""),
        Err(ContractError::InvalidKeyType { key_type: String::new() })
    );
}
