//! What holds of the operations whatever their inputs: the rules of
//! duplicates, of authorization and of the topic registry.

use vstd::prelude::*;
use crate::claim_management::{
    accepted,
    add_claim_keeps_wf,
    add_claim_outcome,
    is_other_claim,
    remove_claim_keeps_wf,
    remove_claim_outcome,
    signature_checked,
};
use crate::claim_topics::{RegistryView, topic_added, topic_removed};
use crate::codec::claim_id;
use crate::contract::effect;
use crate::error::{ContractError, ErrorView, fails_with, refused};
use crate::filtering::lemma_filter_keeps_all;
use crate::key_management::{
    add_key_keeps_wf,
    add_key_outcome,
    is_other_key,
    remove_key_keeps_wf,
    remove_key_outcome,
};
use crate::msg::{ExecuteMsg, Response, carried_out};
use crate::state::{ClaimView, KeyType, KeyView};
use crate::store::StoreModel;

verus! {

/// Every command keeps the invariant of the store.
pub proof fn commands_keep_wf(store: StoreModel, sender: Seq<u8>, msg: ExecuteMsg)
    requires
        store.wf(),
    ensures
        effect(store, sender, msg) matches Ok((next, _)) ==> next.wf(),
{
    match msg {
        ExecuteMsg::AddKey { key_owner, key_type } => {
            if let Some(parsed) = KeyType::named(key_type@) {
                add_key_keeps_wf(
                    store,
                    store.owner,
                    sender,
                    KeyView { owner: key_owner@, key_type: parsed },
                );
            }
        },
        ExecuteMsg::RevokeKey { key_owner, key_type } => {
            if let Some(parsed) = KeyType::named(key_type@) {
                remove_key_keeps_wf(store, store.owner, sender, key_owner@, parsed);
            }
        },
        ExecuteMsg::AddClaim { claim, serialized_claim, issuer_signature } => {
            add_claim_keeps_wf(
                store,
                store.owner,
                sender,
                claim@,
                serialized_claim@,
                issuer_signature@,
            );
        },
        ExecuteMsg::RemoveClaim { claim_id } => {
            remove_claim_keeps_wf(store, store.owner, sender, claim_id@);
        },
    }
}

/// A key can be added once. Where adding the key of an owner with a type
/// succeeded, adding a key of the same owner and type again, by the same
/// caller, fails with `KeyAlreadyExists`.
pub proof fn key_is_added_once(
    store: StoreModel,
    identity_addr: Seq<u8>,
    caller: Seq<u8>,
    key: KeyView,
    again: KeyView,
)
    requires
        again.owner == key.owner,
        again.key_type == key.key_type,
    ensures
        add_key_outcome(store, identity_addr, caller, key) matches Ok(next) ==> refused(
            add_key_outcome(next, identity_addr, caller, again),
            ErrorView::KeyAlreadyExists,
        ),
{
    if let Ok(next) = add_key_outcome(store, identity_addr, caller, key) {
        let before = store.identities[identity_addr];
        let after = next.identities[identity_addr];
        assert(after.keys == before.keys.push(key));
        let held = choose|i: int|
            0 <= i < before.keys.len() && #[trigger] before.keys[i].denotes(
                caller,
                KeyType::ManagementKey,
            );
        assert(after.keys[held].denotes(caller, KeyType::ManagementKey));
        assert(after.keys[before.keys.len() as int].denotes(again.owner, again.key_type));
    }
}

/// Removing a key that the identity does not hold is no error and
/// changes nothing.
pub proof fn absent_key_is_removed_silently(
    store: StoreModel,
    identity_addr: Seq<u8>,
    caller: Seq<u8>,
    key_owner: Seq<u8>,
    key_type: KeyType,
)
    requires
        store.identities.contains_key(identity_addr),
        store.identities[identity_addr].has_key(caller, KeyType::ManagementKey),
        !store.identities[identity_addr].has_key(key_owner, key_type),
    ensures
        remove_key_outcome(store, identity_addr, caller, key_owner, key_type) == Ok::<
            StoreModel,
            ErrorView,
        >(store),
{
    let identity = store.identities[identity_addr];
    assert forall|i: int| 0 <= i < identity.keys.len() implies is_other_key(key_owner, key_type)(
        #[trigger] identity.keys[i],
    ) by {
        assert(!identity.keys[i].denotes(key_owner, key_type));
    }
    lemma_filter_keeps_all(identity.keys, is_other_key(key_owner, key_type));
    assert(store.identities.insert(identity_addr, identity) =~= store.identities);
}

/// A claim can be added once. Where a claim was accepted, a claim with
/// the same topic, issuer, signature, data and URI, submitted again by
/// the same caller with the same serialized form and signature, is
/// rejected with `ClaimAlreadyExists`.
pub proof fn claim_is_added_once(
    store: StoreModel,
    identity_addr: Seq<u8>,
    caller: Seq<u8>,
    claim: ClaimView,
    again: ClaimView,
    serialized: Seq<u8>,
    signature: Seq<u8>,
)
    requires
        again.topic == claim.topic,
        again.issuer == claim.issuer,
        again.signature == claim.signature,
        again.data == claim.data,
        again.uri == claim.uri,
    ensures
        add_claim_outcome(store, identity_addr, caller, claim, serialized, signature) matches Ok(
            next,
        ) ==> refused(
            add_claim_outcome(next, identity_addr, caller, again, serialized, signature),
            ErrorView::ClaimAlreadyExists,
        ),
{
    let first = add_claim_outcome(store, identity_addr, caller, claim, serialized, signature);
    if let Ok(next) = first {
        let before = store.identities[identity_addr];
        let after = next.identities[identity_addr];
        assert(after.keys == before.keys);
        assert(after.claims == before.claims.push(accepted(claim)));
        assert(after.claims[before.claims.len() as int].id == Some(claim_id(again)));
        assert(next.identities.contains_key(claim.issuer));
        assert(next.identities[claim.issuer].keys == store.identities[claim.issuer].keys);
        assert(next.identities[claim.issuer].claim_signer()
            == store.identities[claim.issuer].claim_signer()) by {
            let a = next.identities[claim.issuer];
            let b = store.identities[claim.issuer];
            assert forall|i: int| a.is_first_signer(i) == b.is_first_signer(i) by {}
        }
        assert(signature_checked(next, again, serialized, signature) == signature_checked(
            store,
            claim,
            serialized,
            signature,
        ));
    }
}

/// Removing a claim that the identity does not hold is no error and
/// changes nothing.
pub proof fn absent_claim_is_removed_silently(
    store: StoreModel,
    identity_addr: Seq<u8>,
    caller: Seq<u8>,
    id: Seq<char>,
)
    requires
        store.identities.contains_key(identity_addr),
        store.identities[identity_addr].has_key(caller, KeyType::ManagementKey),
        !store.identities[identity_addr].has_claim(id),
    ensures
        remove_claim_outcome(store, identity_addr, caller, id) == Ok::<StoreModel, ErrorView>(
            store,
        ),
{
    let identity = store.identities[identity_addr];
    assert forall|i: int| 0 <= i < identity.claims.len() implies is_other_claim(id)(
        #[trigger] identity.claims[i],
    ) by {
        assert(identity.claims[i].id != Some(id));
    }
    lemma_filter_keeps_all(identity.claims, is_other_claim(id));
    assert(store.identities.insert(identity_addr, identity) =~= store.identities);
}

/// The authorization gate. A caller without a management key on an
/// identity can neither add nor remove a key or a claim of it: each of
/// the four operations fails with `Unauthorized`, whatever else it was
/// given. (A failed operation leaves the store as it was: that is part of
/// each operation's own contract.)
pub proof fn changes_need_a_management_key(
    store: StoreModel,
    identity_addr: Seq<u8>,
    caller: Seq<u8>,
    key: KeyView,
    claim: ClaimView,
    serialized: Seq<u8>,
    signature: Seq<u8>,
    id: Seq<char>,
)
    requires
        store.identities.contains_key(identity_addr),
        !store.identities[identity_addr].has_key(caller, KeyType::ManagementKey),
    ensures
        refused(add_key_outcome(store, identity_addr, caller, key), ErrorView::Unauthorized),
        refused(
            remove_key_outcome(store, identity_addr, caller, key.owner, key.key_type),
            ErrorView::Unauthorized,
        ),
        refused(
            add_claim_outcome(store, identity_addr, caller, claim, serialized, signature),
            ErrorView::Unauthorized,
        ),
        refused(remove_claim_outcome(store, identity_addr, caller, id), ErrorView::Unauthorized),
{
}

/// The authorization gate, for commands. Whatever a sender without a
/// management key on the store owner's identity sends, the command fails
/// with `Unauthorized`.
pub proof fn commands_need_a_management_key(store: StoreModel, sender: Seq<u8>, msg: ExecuteMsg)
    requires
        store.identities.contains_key(store.owner),
        !store.identities[store.owner].has_key(sender, KeyType::ManagementKey),
    ensures
        refused(effect(store, sender, msg), ErrorView::Unauthorized),
{
}

/// A command from a sender without a management key fails with
/// `Unauthorized` and leaves the store as it was: that is all a run of the
/// command can have done.
pub proof fn refused_command_changes_nothing(
    r: Result<Response, ContractError>,
    before: StoreModel,
    after: StoreModel,
    sender: Seq<u8>,
    msg: ExecuteMsg,
)
    requires
        before.identities.contains_key(before.owner),
        !before.identities[before.owner].has_key(sender, KeyType::ManagementKey),
        carried_out(r, before, after, effect(before, sender, msg)),
    ensures
        fails_with(r, ErrorView::Unauthorized),
        after == before,
{
    commands_need_a_management_key(before, sender, msg);
}

/// The topic registry answers by what was last done to a topic: a topic
/// is valid once it was added, and no longer once it was removed; a
/// topic that is not valid cannot be removed, and one that is valid
/// cannot be added again.
pub proof fn topic_registry_round_trip(registry: RegistryView, topic: u128)
    ensures
        topic_added(registry, topic) matches Ok((next, _)) ==> next.topics.contains(topic),
        topic_removed(registry, topic) matches Ok((next, _)) ==> !next.topics.contains(topic),
        !registry.topics.contains(topic) ==> topic_added(registry, topic) is Ok && refused(
            topic_removed(registry, topic),
            ErrorView::ClaimTopicsNotFound,
        ),
        registry.topics.contains(topic) ==> topic_removed(registry, topic) is Ok && refused(
            topic_added(registry, topic),
            ErrorView::ClaimTopicsExists,
        ),
{
}

/// Adding a topic and removing it again leaves the registry as it was.
pub proof fn topic_added_then_removed(registry: RegistryView, topic: u128)
    requires
        !registry.topics.contains(topic),
    ensures
        topic_added(registry, topic) matches Ok((added, _)) && topic_removed(
            added,
            topic,
        ) matches Ok((removed, _)) && removed == registry,
{
    let added = topic_added(registry, topic)->Ok_0.0;
    assert(added.topics.remove(topic) =~= registry.topics);
}

} // verus!
