//! The identity contract: setting up the store and routing commands to
//! the key authority and the claim lifecycle.

use vstd::prelude::*;
use crate::claim_management::{
    add_claim_effect,
    execute_add_claim,
    execute_remove_claim,
    remove_claim_effect,
};
use crate::codec::{parse_topic, topic_named};
use crate::error::{ContractError, ErrorView, fails_with};
use crate::key_management::{
    add_key_effect,
    execute_add_key,
    execute_remove_key,
    remove_key_effect,
};
use crate::msg::{
    AnswerView,
    Effect,
    ExecuteMsg,
    InstantiateMsg,
    QueryMsg,
    QueryResponse,
    Response,
    carried_out,
    texts,
};
use crate::state::{
    Claim,
    ClaimView,
    Identity,
    IdentityView,
    Key,
    KeyType,
    KeyView,
    bootstrapped,
    claim_views,
    clone_claims,
};
use crate::text::{same_bytes, same_text};
use crate::store::{IdentityStore, StoreModel};
use crate::version::{semver_reached, version_reached};

verus! {

/// The name under which this contract records its state.
pub const CONTRACT_NAME: &'static str = "crates.io:onchainid";

/// The version of this contract.
pub const CONTRACT_VERSION: &'static str = "0.1.0";

/// The store that `instantiate` sets up for `owner`.
pub open spec fn instantiated(owner: Seq<u8>) -> StoreModel {
    StoreModel { owner, identities: Map::empty().insert(owner, bootstrapped(owner)) }
}

/// Sets up a store that belongs to `msg.owner` and holds one record: the
/// owner's identity, with a management key for the owner.
pub fn instantiate(msg: InstantiateMsg) -> (r: (IdentityStore, Response))
    ensures
        r.0@ == instantiated(msg.owner@),
        r.0@.wf(),
        r.1.pairs() == Seq::<(Seq<char>, Seq<char>)>::empty(),
{
    let mut store = IdentityStore::new(msg.owner.as_slice());
    store.save(Identity::bootstrap(msg.owner.as_slice()));
    (store, Response::new())
}

/// What a command from `sender` does to the store.
pub open spec fn effect(store: StoreModel, sender: Seq<u8>, msg: ExecuteMsg) -> Effect {
    match msg {
        ExecuteMsg::AddKey { key_owner, key_type } => add_key_effect(
            store,
            sender,
            key_owner@,
            key_type@,
        ),
        ExecuteMsg::RevokeKey { key_owner, key_type } => remove_key_effect(
            store,
            sender,
            key_owner@,
            key_type@,
        ),
        ExecuteMsg::AddClaim { claim, serialized_claim, issuer_signature } => add_claim_effect(
            store,
            sender,
            claim@,
            serialized_claim@,
            issuer_signature@,
        ),
        ExecuteMsg::RemoveClaim { claim_id } => remove_claim_effect(store, sender, claim_id@),
    }
}

/// Carries out a command from `sender` on the identity of the store's
/// owner. On any error the store is left as it was.
pub fn execute(
    store: &mut IdentityStore,
    sender: &[u8],
    msg: ExecuteMsg,
) -> (r: Result<Response, ContractError>)
    ensures
        carried_out(r, old(store)@, final(store)@, effect(old(store)@, sender@, msg)),
        old(store)@.wf() ==> final(store)@.wf(),
{
    match msg {
        ExecuteMsg::AddKey { key_owner, key_type } => execute_add_key(
            store,
            sender,
            key_owner,
            key_type,
        ),
        ExecuteMsg::RevokeKey { key_owner, key_type } => execute_remove_key(
            store,
            sender,
            key_owner,
            key_type,
        ),
        ExecuteMsg::AddClaim { claim, serialized_claim, issuer_signature } => execute_add_claim(
            store,
            sender,
            claim,
            serialized_claim,
            issuer_signature,
        ),
        ExecuteMsg::RemoveClaim { claim_id } => execute_remove_claim(store, sender, claim_id),
    }
}

/// What `query_key` answers: the key of `key_owner` with the named type
/// on the identity of the store's owner.
pub open spec fn key_found(
    store: StoreModel,
    key_owner: Seq<u8>,
    key_type: Seq<char>,
) -> Result<AnswerView, ErrorView> {
    match KeyType::named(key_type) {
        None => Err(ErrorView::InvalidKeyType { key_type }),
        Some(parsed) => if !store.identities.contains_key(store.owner) {
            Err(ErrorView::StorageError)
        } else if store.identities[store.owner].has_key(key_owner, parsed) {
            Ok(AnswerView::Key(KeyView { owner: key_owner, key_type: parsed }))
        } else {
            Err(ErrorView::KeyNotFound)
        },
    }
}

/// The test by which the claims of one topic are picked: the topic must
/// be the one asked for, and the claim must carry an identifier.
pub open spec fn is_identified_with_topic(topic: u128) -> spec_fn(ClaimView) -> bool {
    |c: ClaimView| c.topic == topic && c.id is Some
}

/// The test by which the claims of one issuer are picked.
pub open spec fn is_issued_by(issuer: Seq<u8>) -> spec_fn(ClaimView) -> bool {
    |c: ClaimView| c.issuer == issuer
}

/// The identifiers of the claims with `topic`, in the order of the claims.
pub open spec fn ids_by_topic(claims: Seq<ClaimView>, topic: u128) -> Seq<Seq<char>> {
    claims.filter(is_identified_with_topic(topic)).map_values(|c: ClaimView| c.id->Some_0)
}

/// What a question to the record under `address` is answered with:
/// `StorageError` where no record is held there.
pub open spec fn record_asked(
    store: StoreModel,
    address: Seq<u8>,
    ask: spec_fn(IdentityView) -> Result<AnswerView,
    ErrorView>,
) -> Result<AnswerView, ErrorView> {
    if !store.identities.contains_key(address) {
        Err(ErrorView::StorageError)
    } else {
        ask(store.identities[address])
    }
}

/// What a query is answered with.
pub open spec fn answer(store: StoreModel, msg: QueryMsg) -> Result<AnswerView, ErrorView> {
    match msg {
        QueryMsg::GetKey { key_owner, key_type } => key_found(store, key_owner@, key_type@),
        QueryMsg::GetClaim { key_owner, claim_id } => record_asked(
            store,
            key_owner@,
            |identity: IdentityView|
                match identity.claim(claim_id@) {
                    Some(claim) => Ok(AnswerView::Claim(claim)),
                    None => Err(ErrorView::ClaimNotFound),
                },
        ),
        QueryMsg::GetClaimIdsByTopic { key_owner, topic } => match topic_named(topic@) {
            None => Err(ErrorView::InvalidClaimTopic { topic: topic@ }),
            Some(code) => record_asked(
                store,
                key_owner@,
                |identity: IdentityView|
                    Ok(AnswerView::ClaimIds(ids_by_topic(identity.claims, code))),
            ),
        },
        QueryMsg::GetClaimsByIssuer { key_owner, issuer } => record_asked(
            store,
            key_owner@,
            |identity: IdentityView|
                Ok(AnswerView::Claims(identity.claims.filter(is_issued_by(issuer@)))),
        ),
        QueryMsg::VerifyClaim { key_owner, claim_id, trusted_issuers_registry } => record_asked(
            store,
            key_owner@,
            |identity: IdentityView|
                if identity.has_claim(claim_id@) {
                    Ok(AnswerView::Verified(true))
                } else {
                    Err(ErrorView::ClaimNotFound)
                },
        ),
        QueryMsg::GetValidatedClaimsForUser { user_addr } => record_asked(
            store,
            user_addr@,
            |identity: IdentityView| Ok(AnswerView::Claims(identity.claims)),
        ),
        QueryMsg::GetOwner {  } => Ok(AnswerView::Owner(store.owner)),
    }
}

/// Whether `r` is the answer that `expected` gives.
pub open spec fn answers<T: View>(
    r: Result<T, ContractError>,
    expected: Result<T::V, ErrorView>,
) -> bool {
    match expected {
        Ok(value) => r matches Ok(got) && got@ == value,
        Err(e) => fails_with(r, e),
    }
}

/// Looks up the key of `key_owner` with the named type on the identity of
/// the store's owner.
pub fn query_key(
    store: &IdentityStore,
    key_owner: &[u8],
    key_type: &str,
) -> (r: Result<Key, ContractError>)
    ensures
        match key_found(store@, key_owner@, key_type@) {
            Ok(found) => r matches Ok(key) && AnswerView::Key(key@) == found,
            Err(e) => fails_with(r, e),
        },
{
    let parsed = match KeyType::from_str(key_type) {
        Ok(parsed) => parsed,
        Err(e) => {
            return Err(e);
        },
    };
    let root = match store.load(store.owner().as_slice()) {
        Some(root) => root,
        None => {
            return Err(ContractError::StorageError);
        },
    };
    match root.find_key(key_owner, parsed) {
        Some(i) => Ok(root.keys[i].clone()),
        None => Err(ContractError::KeyNotFound),
    }
}

/// Looks up the claim with identifier `claim_id` on the identity at `identity_addr`.
pub fn query_claim(
    store: &IdentityStore,
    identity_addr: &[u8],
    claim_id: &str,
) -> (r: Result<Claim, ContractError>)
    ensures
        if !store@.identities.contains_key(identity_addr@) {
            fails_with(r, ErrorView::StorageError)
        } else {
            match store@.identities[identity_addr@].claim(claim_id@) {
                Some(claim) => r matches Ok(found) && found@ == claim,
                None => fails_with(r, ErrorView::ClaimNotFound),
            }
        },
{
    let identity = match store.load(identity_addr) {
        Some(identity) => identity,
        None => {
            return Err(ContractError::StorageError);
        },
    };
    match identity.find_claim(claim_id) {
        Some(i) => {
            assert(identity@.is_first_claim(claim_id@, i as int));
            Ok(identity.claims[i].clone())
        },
        None => {
            assert(forall|i: int| !identity@.is_first_claim(claim_id@, i));
            Err(ContractError::ClaimNotFound)
        },
    }
}

/// Lists the identifiers of the claims with `topic` on the identity at
/// `identity_addr`.
pub fn query_claim_ids_by_topic(
    store: &IdentityStore,
    identity_addr: &[u8],
    topic: u128,
) -> (r: Result<Vec<String>, ContractError>)
    ensures
        if !store@.identities.contains_key(identity_addr@) {
            fails_with(r, ErrorView::StorageError)
        } else {
            r matches Ok(ids) && texts(ids@) == ids_by_topic(
                store@.identities[identity_addr@].claims,
                topic,
            )
        },
{
    let identity = match store.load(identity_addr) {
        Some(identity) => identity,
        None => {
            return Err(ContractError::StorageError);
        },
    };
    let ghost pick = is_identified_with_topic(topic);
    let ghost all = identity@.claims;
    let mut ids: Vec<String> = Vec::new();
    let mut i: usize = 0;
    assert(all.subrange(0, 0).filter(pick) =~= Seq::empty()) by {
        reveal(Seq::filter);
    }
    assert(texts(ids@) =~= ids_by_topic(all.subrange(0, 0), topic));
    while i < identity.claims.len()
        invariant
            i <= identity.claims.len(),
            all == claim_views(identity.claims@),
            pick == is_identified_with_topic(topic),
            texts(ids@) == ids_by_topic(all.subrange(0, i as int), topic),
        decreases identity.claims.len() - i,
    {
        let claim = &identity.claims[i];
        proof {
            let prefix = all.subrange(0, i + 1);
            assert(prefix.drop_last() =~= all.subrange(0, i as int));
            assert(prefix.last() == claim@);
            reveal(Seq::filter);
        }
        if claim.topic == topic {
            match &claim.id {
                Some(id) => {
                    let ghost listed = ids@;
                    ids.push(id.clone());
                    proof {
                        let shorter = all.subrange(0, i as int).filter(pick);
                        let longer = all.subrange(0, i + 1).filter(pick);
                        assert(pick(claim@));
                        assert(longer == shorter.push(claim@));
                        assert(claim@.id->Some_0 == id@);
                        assert(texts(ids@) =~= texts(listed).push(id@));
                        assert(ids_by_topic(all.subrange(0, i + 1), topic) =~= ids_by_topic(
                            all.subrange(0, i as int),
                            topic,
                        ).push(id@));
                    }
                },
                None => {
                    assert(!pick(claim@));
                },
            }
        } else {
            assert(!pick(claim@));
        }
        i = i + 1;
    }
    assert(all.subrange(0, all.len() as int) == all);
    Ok(ids)
}

/// Lists the claims by `issuer` on the identity at `identity_addr`.
pub fn query_claims_by_issuer(
    store: &IdentityStore,
    identity_addr: &[u8],
    issuer: &[u8],
) -> (r: Result<Vec<Claim>, ContractError>)
    ensures
        if !store@.identities.contains_key(identity_addr@) {
            fails_with(r, ErrorView::StorageError)
        } else {
            r matches Ok(claims) && claim_views(claims@)
                == store@.identities[identity_addr@].claims.filter(is_issued_by(issuer@))
        },
{
    let identity = match store.load(identity_addr) {
        Some(identity) => identity,
        None => {
            return Err(ContractError::StorageError);
        },
    };
    let ghost pick = is_issued_by(issuer@);
    let ghost all = identity@.claims;
    let mut found: Vec<Claim> = Vec::new();
    let mut i: usize = 0;
    assert(all.subrange(0, 0).filter(pick) =~= Seq::empty()) by {
        reveal(Seq::filter);
    }
    while i < identity.claims.len()
        invariant
            i <= identity.claims.len(),
            all == claim_views(identity.claims@),
            pick == is_issued_by(issuer@),
            claim_views(found@) == all.subrange(0, i as int).filter(pick),
        decreases identity.claims.len() - i,
    {
        let claim = &identity.claims[i];
        let by_issuer = same_bytes(claim.issuer.as_slice(), issuer);
        proof {
            let prefix = all.subrange(0, i + 1);
            assert(prefix.drop_last() =~= all.subrange(0, i as int));
            assert(prefix.last() == claim@);
            assert(pick(claim@) == by_issuer);
            reveal(Seq::filter);
        }
        if by_issuer {
            found.push(claim.clone());
            assert(claim_views(found@) =~= all.subrange(0, i as int).filter(pick).push(claim@));
        }
        i = i + 1;
    }
    assert(all.subrange(0, all.len() as int) == all);
    Ok(found)
}

/// Whether the identity at `identity_addr` holds the claim with
/// identifier `claim_id`: `true` where it does, `ClaimNotFound` where it
/// does not.
pub fn verify_claim(
    store: &IdentityStore,
    identity_addr: &[u8],
    claim_id: &str,
) -> (r: Result<bool, ContractError>)
    ensures
        if !store@.identities.contains_key(identity_addr@) {
            fails_with(r, ErrorView::StorageError)
        } else if store@.identities[identity_addr@].has_claim(claim_id@) {
            r == Ok::<bool, ContractError>(true)
        } else {
            fails_with(r, ErrorView::ClaimNotFound)
        },
{
    let identity = match store.load(identity_addr) {
        Some(identity) => identity,
        None => {
            return Err(ContractError::StorageError);
        },
    };
    match identity.find_claim(claim_id) {
        Some(i) => {
            assert(identity@.claims[i as int].id == Some(claim_id@));
            Ok(true)
        },
        None => Err(ContractError::ClaimNotFound),
    }
}

/// Lists every claim on the identity at `user_addr`.
pub fn get_validated_claims_for_user(
    store: &IdentityStore,
    user_addr: &[u8],
) -> (r: Result<Vec<Claim>, ContractError>)
    ensures
        if !store@.identities.contains_key(user_addr@) {
            fails_with(r, ErrorView::StorageError)
        } else {
            r matches Ok(claims) && claim_views(claims@) == store@.identities[user_addr@].claims
        },
{
    match store.load(user_addr) {
        Some(identity) => Ok(clone_claims(&identity.claims)),
        None => Err(ContractError::StorageError),
    }
}

/// The address of the store's owner.
pub fn query_owner(store: &IdentityStore) -> (owner: Vec<u8>)
    ensures
        owner@ == store@.owner,
{
    store.owner().clone()
}

/// Answers a query. The store is not changed.
pub fn query(store: &IdentityStore, msg: QueryMsg) -> (r: Result<QueryResponse, ContractError>)
    ensures
        answers(r, answer(store@, msg)),
{
    match msg {
        QueryMsg::GetKey { key_owner, key_type } => {
            match query_key(store, key_owner.as_slice(), key_type.as_str()) {
                Ok(key) => Ok(QueryResponse::Key(key)),
                Err(e) => Err(e),
            }
        },
        QueryMsg::GetClaim { key_owner, claim_id } => {
            match query_claim(store, key_owner.as_slice(), claim_id.as_str()) {
                Ok(claim) => Ok(QueryResponse::Claim(claim)),
                Err(e) => Err(e),
            }
        },
        QueryMsg::GetClaimIdsByTopic { key_owner, topic } => {
            let code = match parse_topic(topic.as_str()) {
                Ok(code) => code,
                Err(e) => {
                    return Err(e);
                },
            };
            match query_claim_ids_by_topic(store, key_owner.as_slice(), code) {
                Ok(ids) => Ok(QueryResponse::ClaimIds(ids)),
                Err(e) => Err(e),
            }
        },
        QueryMsg::GetClaimsByIssuer { key_owner, issuer } => {
            match query_claims_by_issuer(store, key_owner.as_slice(), issuer.as_slice()) {
                Ok(claims) => Ok(QueryResponse::Claims(claims)),
                Err(e) => Err(e),
            }
        },
        QueryMsg::VerifyClaim { key_owner, claim_id, trusted_issuers_registry } => {
            match verify_claim(store, key_owner.as_slice(), claim_id.as_str()) {
                Ok(held) => Ok(QueryResponse::Verified(held)),
                Err(e) => Err(e),
            }
        },
        QueryMsg::GetValidatedClaimsForUser { user_addr } => {
            match get_validated_claims_for_user(store, user_addr.as_slice()) {
                Ok(claims) => Ok(QueryResponse::Claims(claims)),
                Err(e) => Err(e),
            }
        },
        QueryMsg::GetOwner {  } => Ok(QueryResponse::Owner(query_owner(store))),
    }
}

/// What a migration from the recorded contract and version comes to,
/// given whether the recorded version has reached this contract's own
/// (`None` where one of the two is no semantic version).
///
/// State of another contract is refused with `InvalidContract`; a version
/// that does not parse with `InvalidVersion`; a recorded version that is
/// this one or a later one with `AlreadyMigrated`.
pub open spec fn migrated(
    contract: Seq<char>,
    version: Seq<char>,
    reached: Option<bool>,
) -> Result<Seq<(Seq<char>, Seq<char>)>, ErrorView> {
    if contract != CONTRACT_NAME@ {
        Err(ErrorView::InvalidContract { expected: CONTRACT_NAME@, actual: contract })
    } else {
        match reached {
            None => Err(ErrorView::InvalidVersion),
            Some(true) => Err(
                ErrorView::AlreadyMigrated {
                    current_version: version,
                    new_version: CONTRACT_VERSION@,
                },
            ),
            Some(false) => Ok(
                seq![
                    ("action"@, "migrate"@),
                    ("from_version"@, version),
                    ("to_version"@, CONTRACT_VERSION@),
                ],
            ),
        }
    }
}

/// Decides on a migration once the versions have been compared.
pub fn decide_migration(
    contract: &str,
    version: &str,
    reached: Option<bool>,
) -> (r: Result<Response, ContractError>)
    ensures
        match migrated(contract@, version@, reached) {
            Ok(attributes) => r matches Ok(response) && response.pairs() == attributes,
            Err(e) => fails_with(r, e),
        },
{
    if !same_text(contract, CONTRACT_NAME) {
        return Err(
            ContractError::InvalidContract {
                expected: CONTRACT_NAME.to_owned(),
                actual: contract.to_owned(),
            },
        );
    }
    match reached {
        None => Err(ContractError::InvalidVersion),
        Some(true) => Err(
            ContractError::AlreadyMigrated {
                current_version: version.to_owned(),
                new_version: CONTRACT_VERSION.to_owned(),
            },
        ),
        Some(false) => {
            let response = Response::new().add_attribute("action", "migrate").add_attribute(
                "from_version",
                version,
            ).add_attribute("to_version", CONTRACT_VERSION);
            assert(response.pairs() =~= seq![
                ("action"@, "migrate"@),
                ("from_version"@, version@),
                ("to_version"@, CONTRACT_VERSION@),
            ]);
            Ok(response)
        },
    }
}

/// Decides whether state recorded by `contract` at `version` is to be
/// migrated to this contract's version, and reports the step.
pub fn migrate(contract: &str, version: &str) -> (r: Result<Response, ContractError>)
    ensures
        match migrated(contract@, version@, semver_reached(version@, CONTRACT_VERSION@)) {
            Ok(attributes) => r matches Ok(response) && response.pairs() == attributes,
            Err(e) => fails_with(r, e),
        },
{
    let reached = version_reached(version, CONTRACT_VERSION);
    decide_migration(contract, version, reached)
}

} // verus!
