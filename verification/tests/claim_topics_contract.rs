use onchainid::claim_topics::{
    check_role, execute, instantiate, is_claim_topic_valid, query, role_query, ClaimTopics,
    ExecuteMsg, InstantiateMsg, OwnerRole, QueryMsg, RoleQuery,
};
use onchainid::error::ContractError;
use onchainid::msg::Response;

fn setup_contract() -> (ClaimTopics, Vec<u8>) {
    let owner_roles_address = b"owner_roles_contract".to_vec();
    let msg = InstantiateMsg { owner_roles_address: owner_roles_address.clone() };
    let (registry, response) = instantiate("creator", msg);
    assert_eq!(attributes(&response), vec![("method", "instantiate"), ("owner", "creator")]);
    (registry, owner_roles_address)
}

fn attributes(response: &Response) -> Vec<(&str, &str)> {
    response.attributes.iter().map(|a| (a.key.as_str(), a.value.as_str())).collect()
}

/// The owner roles service of these tests: everyone who is asked about is
/// claim registry manager.
fn owner_roles_service(query: &RoleQuery) -> Option<bool> {
    assert_eq!(query.contract_addr, b"owner_roles_contract".to_vec());
    if query.role == OwnerRole::ClaimRegistryManager {
        Some(true)
    } else {
        panic!("Unexpected role query")
    }
}

fn execute_as(
    registry: &mut ClaimTopics,
    sender: &str,
    msg: ExecuteMsg,
) -> Result<Response, ContractError> {
    let question = role_query(registry, sender.as_bytes(), OwnerRole::ClaimRegistryManager);
    assert_eq!(question.owner, sender.as_bytes().to_vec());
    let has_role = owner_roles_service(&question);
    execute(registry, has_role, msg)
}

#[test]
fn proper_initialization() {
    let (registry, owner_roles_address) = setup_contract();

    let stored_address = registry.owner_roles_address();
    assert_eq!(stored_address, &owner_roles_address);
    assert!(registry.topics().is_empty());
}

#[test]
fn add_claim_topic() {
    let (mut registry, _) = setup_contract();

    let msg = ExecuteMsg::AddClaimTopic { topic: 1 };

    let res = execute_as(&mut registry, "authorized_user", msg).unwrap();
    assert_eq!(attributes(&res), vec![("action", "add_claim_topic")]);

    let msg = QueryMsg::IsClaimTopicValid { topic: 1 };
    let is_valid = query(&registry, msg);
    assert!(is_valid);
}

#[test]
fn remove_claim_topic() {
    let (mut registry, _) = setup_contract();

    let msg = ExecuteMsg::AddClaimTopic { topic: 1 };
    execute_as(&mut registry, "authorized_user", msg).unwrap();

    let msg = ExecuteMsg::RemoveClaimTopic { topic: 1 };
    let res = execute_as(&mut registry, "authorized_user", msg).unwrap();
    assert_eq!(attributes(&res), vec![("action", "remove_claim_topic")]);

    let msg = QueryMsg::IsClaimTopicValid { topic: 1 };
    let is_valid = query(&registry, msg);
    assert!(!is_valid);
}

#[test]
fn topic_registry_round_trip() {
    let (mut registry, _) = setup_contract();
    assert!(!is_claim_topic_valid(&registry, 42));

    execute(&mut registry, Some(true), ExecuteMsg::AddClaimTopic { topic: 42 }).unwrap();
    assert!(is_claim_topic_valid(&registry, 42));
    assert!(!is_claim_topic_valid(&registry, 43));

    execute(&mut registry, Some(true), ExecuteMsg::RemoveClaimTopic { topic: 42 }).unwrap();
    assert!(!is_claim_topic_valid(&registry, 42));
    assert!(registry.topics().is_empty());
}

#[test]
fn removing_an_absent_topic_fails() {
    let (mut registry, _) = setup_contract();
    let res = execute(&mut registry, Some(true), ExecuteMsg::RemoveClaimTopic { topic: 7 });
    assert_eq!(res, Err(ContractError::ClaimTopicsNotFound));

    execute(&mut registry, Some(true), ExecuteMsg::AddClaimTopic { topic: 8 }).unwrap();
    let res = execute(&mut registry, Some(true), ExecuteMsg::RemoveClaimTopic { topic: 7 });
    assert_eq!(res, Err(ContractError::ClaimTopicsNotFound));
    assert_eq!(registry.topics(), &vec![8]);
}

#[test]
fn adding_a_topic_twice_fails() {
    let (mut registry, _) = setup_contract();
    execute(&mut registry, Some(true), ExecuteMsg::AddClaimTopic { topic: u128::MAX }).unwrap();
    let res = execute(&mut registry, Some(true), ExecuteMsg::AddClaimTopic { topic: u128::MAX });
    assert_eq!(res, Err(ContractError::ClaimTopicsExists));
    assert_eq!(registry.topics(), &vec![u128::MAX]);
}

#[test]
fn registry_changes_need_the_role() {
    let (mut registry, _) = setup_contract();
    execute(&mut registry, Some(true), ExecuteMsg::AddClaimTopic { topic: 1 }).unwrap();

    for has_role in [Some(false), None] {
        assert_eq!(check_role(has_role), Err(ContractError::Unauthorized));
        let res = execute(&mut registry, has_role, ExecuteMsg::AddClaimTopic { topic: 2 });
        assert_eq!(res, Err(ContractError::Unauthorized));
        let res = execute(&mut registry, has_role, ExecuteMsg::RemoveClaimTopic { topic: 1 });
        assert_eq!(res, Err(ContractError::Unauthorized));
        assert_eq!(registry.topics(), &vec![1]);
    }
    assert_eq!(check_role(Some(true)), Ok(()));
}

#[test]
fn topics_stay_in_the_order_of_their_addition() {
    let (mut registry, _) = setup_contract();
    for topic in [5u128, 3, 9] {
        execute(&mut registry, Some(true), ExecuteMsg::AddClaimTopic { topic }).unwrap();
    }
    execute(&mut registry, Some(true), ExecuteMsg::RemoveClaimTopic { topic: 3 }).unwrap();
    assert_eq!(registry.topics(), &vec![5, 9]);
}

#[test]
fn registry_is_made_from_stored_topics() {
    let mut registry = ClaimTopics::with_topics(b"owner_roles_contract".to_vec(), vec![4, 2]);
    assert_eq!(registry.owner_roles_address(), &b"owner_roles_contract".to_vec());
    assert!(is_claim_topic_valid(&registry, 4));
    assert!(is_claim_topic_valid(&registry, 2));
    assert!(!is_claim_topic_valid(&registry, 3));

    let res = execute(&mut registry, Some(true), ExecuteMsg::AddClaimTopic { topic: 2 });
    assert_eq!(res, Err(ContractError::ClaimTopicsExists));
    execute(&mut registry, Some(true), ExecuteMsg::RemoveClaimTopic { topic: 4 }).unwrap();
    assert_eq!(registry.topics(), &vec![2]);

    let empty = ClaimTopics::with_topics(vec![], vec![]);
    assert!(empty.topics().is_empty());
    assert!(!is_claim_topic_valid(&empty, 0));
}

#[test]
fn instantiate_reports_who_set_the_registry_up() {
    let msg = InstantiateMsg { owner_roles_address: b"service".to_vec() };
    let (registry, response) = instantiate("", msg);
    assert_eq!(attributes(&response), vec![("method", "instantiate"), ("owner", "")]);
    assert_eq!(registry.owner_roles_address(), &b"service".to_vec());
    assert!(!is_claim_topic_valid(&registry, 1));
}
