//! The registry of valid claim topics. It may be changed only by an
//! account that the owner roles service confirms as claim registry manager.

use vstd::prelude::*;
use crate::error::{ContractError, ErrorView, fails_with};
use crate::msg::Response;
use vstd::slice::slice_to_vec;

verus! {

/// The roles that the registry asks the owner roles service about.
#[derive(Debug, Clone, Copy, PartialEq, Eq, Structural)]
pub enum OwnerRole {
    /// May add and remove claim topics.
    ClaimRegistryManager,
}

/// The question put to the owner roles service: does `owner` hold `role`?
/// It is sent to the service at `contract_addr`.
#[derive(Debug, PartialEq, Eq)]
pub struct RoleQuery {
    pub contract_addr: Vec<u8>,
    pub role: OwnerRole,
    pub owner: Vec<u8>,
}

/// Sets up the registry with the address of the owner roles service.
#[derive(Debug, PartialEq, Eq)]
pub struct InstantiateMsg {
    pub owner_roles_address: Vec<u8>,
}

/// The commands that change the registry.
#[derive(Debug, Clone, Copy, PartialEq, Eq, Structural)]
pub enum ExecuteMsg {
    AddClaimTopic { topic: u128 },
    RemoveClaimTopic { topic: u128 },
}

/// The questions that can be asked of the registry.
#[derive(Debug, Clone, Copy, PartialEq, Eq, Structural)]
pub enum QueryMsg {
    IsClaimTopicValid { topic: u128 },
}

/// What the registry is to the contracts: where its owner roles service
/// is, and the set of valid topics.
pub struct RegistryView {
    pub owner_roles_address: Seq<u8>,
    pub topics: Set<u128>,
}

/// The valid claim topics, and the address of the service that says who
/// may change them.
#[derive(Debug)]
pub struct ClaimTopics {
    owner_roles_address: Vec<u8>,
    topics: Vec<u128>,
}

impl View for ClaimTopics {
    type V = RegistryView;

    closed spec fn view(&self) -> RegistryView {
        RegistryView {
            owner_roles_address: self.owner_roles_address@,
            topics: self.topics@.to_set(),
        }
    }
}

impl ClaimTopics {
    /// The registry that asks the service at `owner_roles_address` about
    /// roles and in which the given topics, and no others, are valid.
    pub fn with_topics(owner_roles_address: Vec<u8>, topics: Vec<u128>) -> (registry: ClaimTopics)
        ensures
            registry@ == (RegistryView {
                owner_roles_address: owner_roles_address@,
                topics: topics@.to_set(),
            }),
    {
        ClaimTopics { owner_roles_address, topics }
    }

    /// The address of the owner roles service.
    pub fn owner_roles_address(&self) -> (address: &Vec<u8>)
        ensures
            address@ == self@.owner_roles_address,
    {
        &self.owner_roles_address
    }

    /// The valid topics.
    pub fn topics(&self) -> (topics: &Vec<u128>)
        ensures
            topics@.to_set() == self@.topics,
    {
        &self.topics
    }
}

/// The registry that `instantiate` sets up: no topic is valid yet.
pub open spec fn instantiated(owner_roles_address: Seq<u8>) -> RegistryView {
    RegistryView { owner_roles_address, topics: Set::empty() }
}

/// Sets up a registry without topics that asks the service at
/// `msg.owner_roles_address` about roles, and reports who set it up.
pub fn instantiate(sender: &str, msg: InstantiateMsg) -> (r: (ClaimTopics, Response))
    ensures
        r.0@ == instantiated(msg.owner_roles_address@),
        r.1.pairs() == seq![("method"@, "instantiate"@), ("owner"@, sender@)],
{
    let registry = ClaimTopics { owner_roles_address: msg.owner_roles_address, topics: Vec::new() };
    assert(registry@.topics =~= Set::empty());
    let response = Response::new().add_attribute("method", "instantiate").add_attribute(
        "owner",
        sender,
    );
    assert(response.pairs() =~= seq![("method"@, "instantiate"@), ("owner"@, sender@)]);
    (registry, response)
}

/// The question that must be answered before `owner` may change the
/// registry in the capacity `role`.
pub fn role_query(registry: &ClaimTopics, owner: &[u8], role: OwnerRole) -> (query: RoleQuery)
    ensures
        query.contract_addr@ == registry@.owner_roles_address,
        query.role == role,
        query.owner@ == owner@,
{
    RoleQuery {
        contract_addr: registry.owner_roles_address.clone(),
        role,
        owner: slice_to_vec(owner),
    }
}

/// What the service's answer means: the role is held only where the
/// service said so. A refusal and a failed query are both `Unauthorized`.
pub open spec fn role_checked(has_role: Option<bool>) -> Result<(), ErrorView> {
    if has_role == Some(true) {
        Ok(())
    } else {
        Err(ErrorView::Unauthorized)
    }
}

/// Decides on the answer of the owner roles service: `Some` with what it
/// said, `None` where the query failed.
pub fn check_role(has_role: Option<bool>) -> (r: Result<(), ContractError>)
    ensures
        match role_checked(has_role) {
            Ok(()) => r is Ok,
            Err(e) => fails_with(r, e),
        },
{
    match has_role {
        Some(true) => Ok(()),
        _ => Err(ContractError::Unauthorized),
    }
}

/// What a command is meant to do to the registry.
pub type RegistryEffect = Result<(RegistryView, Seq<(Seq<char>, Seq<char>)>), ErrorView>;

/// Whether a command that found the registry as `before` did what
/// `effect` says, and left the registry unchanged where it failed.
pub open spec fn registry_carried_out(
    r: Result<Response, ContractError>,
    before: RegistryView,
    after: RegistryView,
    effect: RegistryEffect,
) -> bool {
    match effect {
        Ok((next, attributes)) => r matches Ok(response) && response.pairs() == attributes && after
            == next,
        Err(e) => fails_with(r, e) && after == before,
    }
}

/// What adding `topic` does: a topic that is already valid is rejected.
pub open spec fn topic_added(registry: RegistryView, topic: u128) -> RegistryEffect {
    if registry.topics.contains(topic) {
        Err(ErrorView::ClaimTopicsExists)
    } else {
        Ok(
            (
                RegistryView { topics: registry.topics.insert(topic), ..registry },
                seq![("action"@, "add_claim_topic"@)],
            ),
        )
    }
}

/// What removing `topic` does: a topic that is not valid is rejected.
pub open spec fn topic_removed(registry: RegistryView, topic: u128) -> RegistryEffect {
    if !registry.topics.contains(topic) {
        Err(ErrorView::ClaimTopicsNotFound)
    } else {
        Ok(
            (
                RegistryView { topics: registry.topics.remove(topic), ..registry },
                seq![("action"@, "remove_claim_topic"@)],
            ),
        )
    }
}

/// What a command does, given the answer of the owner roles service on
/// its sender: nothing without the role, else what the command says.
pub open spec fn effect(
    registry: RegistryView,
    has_role: Option<bool>,
    msg: ExecuteMsg,
) -> RegistryEffect {
    match role_checked(has_role) {
        Err(e) => Err(e),
        Ok(()) => match msg {
            ExecuteMsg::AddClaimTopic { topic } => topic_added(registry, topic),
            ExecuteMsg::RemoveClaimTopic { topic } => topic_removed(registry, topic),
        },
    }
}

/// Whether `topic` is valid.
pub fn is_claim_topic_valid(registry: &ClaimTopics, topic: u128) -> (valid: bool)
    ensures
        valid == registry@.topics.contains(topic),
{
    let mut i: usize = 0;
    while i < registry.topics.len()
        invariant
            i <= registry.topics.len(),
            forall|j: int| 0 <= j < i ==> registry.topics@[j] != topic,
        decreases registry.topics.len() - i,
    {
        if registry.topics[i] == topic {
            assert(registry.topics@.contains(topic));
            return true;
        }
        i = i + 1;
    }
    assert(!registry.topics@.contains(topic));
    false
}

/// Makes `claim_topic` valid.
pub fn add_claim_topic(
    registry: &mut ClaimTopics,
    claim_topic: u128,
) -> (r: Result<Response, ContractError>)
    ensures
        registry_carried_out(
            r,
            old(registry)@,
            final(registry)@,
            topic_added(old(registry)@, claim_topic),
        ),
{
    if is_claim_topic_valid(registry, claim_topic) {
        return Err(ContractError::ClaimTopicsExists);
    }
    let ghost before = registry.topics@;
    registry.topics.push(claim_topic);
    proof {
        let after = registry.topics@;
        assert forall|t: u128| after.contains(t) == (before.contains(t) || t == claim_topic) by {
            if before.contains(t) {
                let j = choose|j: int| 0 <= j < before.len() && before[j] == t;
                assert(after[j] == t);
            }
            if t == claim_topic {
                assert(after[before.len() as int] == t);
            }
        }
        assert(after.to_set() =~= before.to_set().insert(claim_topic));
    }
    let response = Response::new().add_attribute("action", "add_claim_topic");
    assert(response.pairs() =~= seq![("action"@, "add_claim_topic"@)]);
    Ok(response)
}

/// Makes `claim_topic` invalid again.
pub fn remove_claim_topic(
    registry: &mut ClaimTopics,
    claim_topic: u128,
) -> (r: Result<Response, ContractError>)
    ensures
        registry_carried_out(
            r,
            old(registry)@,
            final(registry)@,
            topic_removed(old(registry)@, claim_topic),
        ),
{
    if !is_claim_topic_valid(registry, claim_topic) {
        return Err(ContractError::ClaimTopicsNotFound);
    }
    let ghost before = registry.topics@;
    let mut kept: Vec<u128> = Vec::new();
    let mut i: usize = 0;
    while i < registry.topics.len()
        invariant
            i <= registry.topics.len(),
            before == registry.topics@,
            forall|j: int|
                0 <= j < kept@.len() ==> kept@[j] != claim_topic && before.contains(
                    #[trigger] kept@[j],
                ),
            forall|k: int|
                0 <= k < i && before[k] != claim_topic ==> kept@.contains(#[trigger] before[k]),
        decreases registry.topics.len() - i,
    {
        let topic = registry.topics[i];
        let ghost kept_before = kept@;
        if topic != claim_topic {
            kept.push(topic);
            assert(kept@[kept_before.len() as int] == topic);
        }
        proof {
            assert(before[i as int] == topic);
            assert forall|k: int| 0 <= k < i && before[k] != claim_topic implies kept@.contains(
                #[trigger] before[k],
            ) by {
                let j = choose|j: int| 0 <= j < kept_before.len() && kept_before[j] == before[k];
                assert(kept@[j] == before[k]);
            }
        }
        i = i + 1;
    }
    registry.topics = kept;
    proof {
        let after = registry.topics@;
        assert forall|t: u128| after.contains(t) == (before.contains(t) && t != claim_topic) by {
            if after.contains(t) {
                let j = choose|j: int| 0 <= j < after.len() && after[j] == t;
                assert(before.contains(after[j]));
            }
            if before.contains(t) && t != claim_topic {
                let k = choose|k: int| 0 <= k < before.len() && before[k] == t;
                assert(after.contains(before[k]));
            }
        }
        assert(after.to_set() =~= before.to_set().remove(claim_topic));
    }
    let response = Response::new().add_attribute("action", "remove_claim_topic");
    assert(response.pairs() =~= seq![("action"@, "remove_claim_topic"@)]);
    Ok(response)
}

/// Carries out a command once the owner roles service has answered
/// whether its sender is claim registry manager: `has_role` is what the
/// service said, or `None` where the query failed. Without the role
/// nothing is changed.
pub fn execute(
    registry: &mut ClaimTopics,
    has_role: Option<bool>,
    msg: ExecuteMsg,
) -> (r: Result<Response, ContractError>)
    ensures
        registry_carried_out(
            r,
            old(registry)@,
            final(registry)@,
            effect(old(registry)@, has_role, msg),
        ),
{
    match check_role(has_role) {
        Ok(()) => {},
        Err(e) => {
            return Err(e);
        },
    }
    match msg {
        ExecuteMsg::AddClaimTopic { topic } => add_claim_topic(registry, topic),
        ExecuteMsg::RemoveClaimTopic { topic } => remove_claim_topic(registry, topic),
    }
}

/// Answers a question about the registry.
pub fn query(registry: &ClaimTopics, msg: QueryMsg) -> (answer: bool)
    ensures
        match msg {
            QueryMsg::IsClaimTopicValid { topic } => answer == registry@.topics.contains(topic),
        },
{
    match msg {
        QueryMsg::IsClaimTopicValid { topic } => is_claim_topic_valid(registry, topic),
    }
}

} // verus!
