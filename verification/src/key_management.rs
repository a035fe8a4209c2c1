//! The key authority: who may change an identity, and the changes to its keys.

use vstd::prelude::*;
use crate::error::{ContractError, ErrorView, fails_with};
use crate::filtering::{kept_places, lemma_filter_selects};
use crate::msg::{Effect, Response, carried_out};
use crate::state::{Identity, IdentityView, Key, KeyType, KeyView, key_views};
use crate::store::{IdentityStore, StoreModel, save_keeps_wf};
use crate::text::same_bytes;

verus! {

/// Whether `caller` may act on `identity` in a capacity that asks for a
/// key of type `required`: it may where the identity's own key set holds
/// that key for it.
pub open spec fn authorized(
    identity: IdentityView,
    caller: Seq<u8>,
    required: KeyType,
) -> Result<(), ErrorView> {
    if identity.has_key(caller, required) {
        Ok(())
    } else {
        Err(ErrorView::Unauthorized)
    }
}

/// The test that `without_key` keeps a key by.
pub open spec fn is_other_key(owner: Seq<u8>, key_type: KeyType) -> spec_fn(KeyView) -> bool {
    |k: KeyView| !k.denotes(owner, key_type)
}

/// The keys that are left when every key of `owner` with type `key_type`
/// is taken out, in their order.
pub open spec fn without_key(
    keys: Seq<KeyView>,
    owner: Seq<u8>,
    key_type: KeyType,
) -> Seq<KeyView> {
    keys.filter(is_other_key(owner, key_type))
}

/// What adding `key` on behalf of `caller` makes of an identity.
pub open spec fn key_added(
    identity: IdentityView,
    caller: Seq<u8>,
    key: KeyView,
) -> Result<IdentityView, ErrorView> {
    if !identity.has_key(caller, KeyType::ManagementKey) {
        Err(ErrorView::Unauthorized)
    } else if identity.has_key(key.owner, key.key_type) {
        Err(ErrorView::KeyAlreadyExists)
    } else {
        Ok(IdentityView { keys: identity.keys.push(key), ..identity })
    }
}

/// What removing the key of `owner` with type `key_type` on behalf of
/// `caller` makes of an identity. A key that is not there is no error.
pub open spec fn key_removed(
    identity: IdentityView,
    caller: Seq<u8>,
    owner: Seq<u8>,
    key_type: KeyType,
) -> Result<IdentityView, ErrorView> {
    if !identity.has_key(caller, KeyType::ManagementKey) {
        Err(ErrorView::Unauthorized)
    } else {
        Ok(IdentityView { keys: without_key(identity.keys, owner, key_type), ..identity })
    }
}

/// What a change to the record under `address` makes of a store: the
/// store with the changed record, the record's error, or `StorageError`
/// where no record is held under `address`.
pub open spec fn record_changed(
    store: StoreModel,
    address: Seq<u8>,
    change: spec_fn(IdentityView) -> Result<IdentityView,
    ErrorView>,
) -> Result<StoreModel, ErrorView> {
    if !store.identities.contains_key(address) {
        Err(ErrorView::StorageError)
    } else {
        match change(store.identities[address]) {
            Ok(next) => Ok(
                StoreModel { identities: store.identities.insert(address, next), ..store },
            ),
            Err(e) => Err(e),
        }
    }
}

/// Checks that `caller` holds a key of type `required` on `identity`.
pub fn check_key_authorization(
    identity: &Identity,
    caller: &[u8],
    required: KeyType,
) -> (r: Result<(), ContractError>)
    ensures
        match authorized(identity@, caller@, required) {
            Ok(()) => r is Ok,
            Err(e) => fails_with(r, e),
        },
{
    if identity.has_key(caller, required) {
        Ok(())
    } else {
        Err(ContractError::Unauthorized)
    }
}

impl Identity {
    /// Adds `new_key` on behalf of `caller`, who must hold a management
    /// key. A key that the identity already holds is rejected.
    pub fn add_key(&mut self, caller: &[u8], new_key: Key) -> (r: Result<(), ContractError>)
        ensures
            match key_added(old(self)@, caller@, new_key@) {
                Ok(next) => r is Ok && final(self)@ == next,
                Err(e) => fails_with(r, e) && final(self)@ == old(self)@,
            },
            old(self)@.wf() ==> final(self)@.wf(),
    {
        proof {
            if self@.wf() {
                key_added_keeps_wf(self@, caller@, new_key@);
            }
        }
        if !self.has_key(caller, KeyType::ManagementKey) {
            return Err(ContractError::Unauthorized);
        }
        if self.has_key(new_key.owner.as_slice(), new_key.key_type) {
            return Err(ContractError::KeyAlreadyExists);
        }
        self.keys.push(new_key);
        assert(self@.keys =~= old(self)@.keys.push(new_key@));
        Ok(())
    }

    /// Removes every key of `key_owner` with type `key_type` on behalf of
    /// `caller`, who must hold a management key.
    pub fn remove_key(
        &mut self,
        caller: &[u8],
        key_owner: &[u8],
        key_type: KeyType,
    ) -> (r: Result<(), ContractError>)
        ensures
            match key_removed(old(self)@, caller@, key_owner@, key_type) {
                Ok(next) => r is Ok && final(self)@ == next,
                Err(e) => fails_with(r, e) && final(self)@ == old(self)@,
            },
            old(self)@.wf() ==> final(self)@.wf(),
    {
        proof {
            if self@.wf() {
                key_removed_keeps_wf(self@, caller@, key_owner@, key_type);
            }
        }
        if !self.has_key(caller, KeyType::ManagementKey) {
            return Err(ContractError::Unauthorized);
        }
        let ghost keep = is_other_key(key_owner@, key_type);
        let ghost before = self@.keys;
        let mut kept: Vec<Key> = Vec::new();
        let mut i: usize = 0;
        assert(before.subrange(0, 0).filter(keep) =~= Seq::empty()) by {
            reveal(Seq::filter);
        }
        while i < self.keys.len()
            invariant
                i <= self.keys.len(),
                before == key_views(self.keys@),
                keep == is_other_key(key_owner@, key_type),
                key_views(kept@) == before.subrange(0, i as int).filter(keep),
            decreases self.keys.len() - i,
        {
            let key = &self.keys[i];
            let matches = key.key_type == key_type && same_bytes(key.owner.as_slice(), key_owner);
            proof {
                let prefix = before.subrange(0, i + 1);
                assert(prefix.drop_last() =~= before.subrange(0, i as int));
                assert(prefix.last() == key@);
                assert(keep(key@) == !matches);
                reveal(Seq::filter);
            }
            if !matches {
                kept.push(key.clone());
                assert(key_views(kept@) =~= before.subrange(0, i as int).filter(keep).push(key@));
            }
            i = i + 1;
        }
        assert(before.subrange(0, before.len() as int) == before);
        self.keys = kept;
        Ok(())
    }
}

/// What `add_key` makes of a store.
pub open spec fn add_key_outcome(
    store: StoreModel,
    identity_addr: Seq<u8>,
    caller: Seq<u8>,
    key: KeyView,
) -> Result<StoreModel, ErrorView> {
    record_changed(store, identity_addr, |identity: IdentityView| key_added(identity, caller, key))
}

/// What `remove_key` makes of a store.
pub open spec fn remove_key_outcome(
    store: StoreModel,
    identity_addr: Seq<u8>,
    caller: Seq<u8>,
    key_owner: Seq<u8>,
    key_type: KeyType,
) -> Result<StoreModel, ErrorView> {
    record_changed(
        store,
        identity_addr,
        |identity: IdentityView| key_removed(identity, caller, key_owner, key_type),
    )
}

/// Adds `new_key` to the identity at `identity_addr` on behalf of
/// `caller`. On any error the store is left as it was.
pub fn add_key(
    store: &mut IdentityStore,
    identity_addr: &[u8],
    caller: &[u8],
    new_key: Key,
) -> (r: Result<(), ContractError>)
    ensures
        match add_key_outcome(old(store)@, identity_addr@, caller@, new_key@) {
            Ok(next) => r is Ok && final(store)@ == next,
            Err(e) => fails_with(r, e) && final(store)@ == old(store)@,
        },
        old(store)@.wf() ==> final(store)@.wf(),
{
    proof {
        if store@.wf() {
            add_key_keeps_wf(store@, identity_addr@, caller@, new_key@);
        }
    }
    let mut identity = match store.load(identity_addr) {
        Some(found) => found.clone(),
        None => {
            return Err(ContractError::StorageError);
        },
    };
    match identity.add_key(caller, new_key) {
        Ok(()) => {
            store.save(identity);
            Ok(())
        },
        Err(e) => Err(e),
    }
}

/// Removes the key of `key_owner` with type `key_type` from the identity
/// at `identity_addr` on behalf of `caller`. A key that is not there is no
/// error. On any error the store is left as it was.
pub fn remove_key(
    store: &mut IdentityStore,
    identity_addr: &[u8],
    caller: &[u8],
    key_owner: &[u8],
    key_type: KeyType,
) -> (r: Result<(), ContractError>)
    ensures
        match remove_key_outcome(old(store)@, identity_addr@, caller@, key_owner@, key_type) {
            Ok(next) => r is Ok && final(store)@ == next,
            Err(e) => fails_with(r, e) && final(store)@ == old(store)@,
        },
        old(store)@.wf() ==> final(store)@.wf(),
{
    proof {
        if store@.wf() {
            remove_key_keeps_wf(store@, identity_addr@, caller@, key_owner@, key_type);
        }
    }
    let mut identity = match store.load(identity_addr) {
        Some(found) => found.clone(),
        None => {
            return Err(ContractError::StorageError);
        },
    };
    match identity.remove_key(caller, key_owner, key_type) {
        Ok(()) => {
            store.save(identity);
            Ok(())
        },
        Err(e) => Err(e),
    }
}

/// The attributes that a key command reports.
pub open spec fn key_attributes(
    method: Seq<char>,
    key_type: KeyType,
) -> Seq<(Seq<char>, Seq<char>)> {
    seq![("method"@, method), ("key_type"@, key_type.name())]
}

/// Whether `sender` may change the identity of the store's owner:
/// `StorageError` where the store holds no record for its owner,
/// `Unauthorized` where `sender` holds no management key on it.
pub open spec fn owner_authorized(store: StoreModel, sender: Seq<u8>) -> Result<(), ErrorView> {
    if !store.identities.contains_key(store.owner) {
        Err(ErrorView::StorageError)
    } else {
        authorized(store.identities[store.owner], sender, KeyType::ManagementKey)
    }
}

/// Checks that `sender` may change the identity of the store's owner.
pub fn check_owner_authorization(
    store: &IdentityStore,
    sender: &[u8],
) -> (r: Result<(), ContractError>)
    ensures
        match owner_authorized(store@, sender@) {
            Ok(()) => r is Ok,
            Err(e) => fails_with(r, e),
        },
{
    match store.load(store.owner().as_slice()) {
        Some(root) => check_key_authorization(root, sender, KeyType::ManagementKey),
        None => Err(ContractError::StorageError),
    }
}

/// What `AddKey` from `sender` does: once `sender` is found to hold a
/// management key, the key type is read from its name, and the key is
/// added to the identity of the store's owner.
pub open spec fn add_key_effect(
    store: StoreModel,
    sender: Seq<u8>,
    key_owner: Seq<u8>,
    key_type: Seq<char>,
) -> Effect {
    match owner_authorized(store, sender) {
        Err(e) => Err(e),
        Ok(()) => match KeyType::named(key_type) {
            None => Err(ErrorView::InvalidKeyType { key_type }),
            Some(parsed) => match add_key_outcome(
                store,
                store.owner,
                sender,
                KeyView { owner: key_owner, key_type: parsed },
            ) {
                Ok(next) => Ok((next, key_attributes("add_key"@, parsed))),
                Err(e) => Err(e),
            },
        },
    }
}

/// What `RevokeKey` from `sender` does: once `sender` is found to hold a
/// management key, the key type is read from its name, and the key is
/// removed from the identity of the store's owner.
pub open spec fn remove_key_effect(
    store: StoreModel,
    sender: Seq<u8>,
    key_owner: Seq<u8>,
    key_type: Seq<char>,
) -> Effect {
    match owner_authorized(store, sender) {
        Err(e) => Err(e),
        Ok(()) => match KeyType::named(key_type) {
            None => Err(ErrorView::InvalidKeyType { key_type }),
            Some(parsed) => match remove_key_outcome(
                store,
                store.owner,
                sender,
                key_owner,
                parsed,
            ) {
                Ok(next) => Ok((next, key_attributes("remove_key"@, parsed))),
                Err(e) => Err(e),
            },
        },
    }
}

/// Handles `AddKey` from `sender`.
pub fn execute_add_key(
    store: &mut IdentityStore,
    sender: &[u8],
    key_owner: Vec<u8>,
    key_type: String,
) -> (r: Result<Response, ContractError>)
    ensures
        carried_out(
            r,
            old(store)@,
            final(store)@,
            add_key_effect(old(store)@, sender@, key_owner@, key_type@),
        ),
        old(store)@.wf() ==> final(store)@.wf(),
{
    match check_owner_authorization(store, sender) {
        Ok(()) => {},
        Err(e) => {
            return Err(e);
        },
    }
    let parsed = match KeyType::from_str(key_type.as_str()) {
        Ok(parsed) => parsed,
        Err(e) => {
            return Err(e);
        },
    };
    let root = store.owner().clone();
    let new_key = Key { owner: key_owner, key_type: parsed };
    match add_key(store, root.as_slice(), sender, new_key) {
        Ok(()) => {
            let response = Response::new().add_attribute("method", "add_key").add_attribute(
                "key_type",
                parsed.to_string().as_str(),
            );
            assert(response.pairs() =~= key_attributes("add_key"@, parsed));
            Ok(response)
        },
        Err(e) => Err(e),
    }
}

/// Handles `RevokeKey` from `sender`.
pub fn execute_remove_key(
    store: &mut IdentityStore,
    sender: &[u8],
    key_owner: Vec<u8>,
    key_type: String,
) -> (r: Result<Response, ContractError>)
    ensures
        carried_out(
            r,
            old(store)@,
            final(store)@,
            remove_key_effect(old(store)@, sender@, key_owner@, key_type@),
        ),
        old(store)@.wf() ==> final(store)@.wf(),
{
    match check_owner_authorization(store, sender) {
        Ok(()) => {},
        Err(e) => {
            return Err(e);
        },
    }
    let parsed = match KeyType::from_str(key_type.as_str()) {
        Ok(parsed) => parsed,
        Err(e) => {
            return Err(e);
        },
    };
    let root = store.owner().clone();
    match remove_key(store, root.as_slice(), sender, key_owner.as_slice(), parsed) {
        Ok(()) => {
            let response = Response::new().add_attribute("method", "remove_key").add_attribute(
                "key_type",
                parsed.to_string().as_str(),
            );
            assert(response.pairs() =~= key_attributes("remove_key"@, parsed));
            Ok(response)
        },
        Err(e) => Err(e),
    }
}

/// Adding a key keeps the invariant of the record.
pub proof fn key_added_keeps_wf(identity: IdentityView, caller: Seq<u8>, key: KeyView)
    requires
        identity.wf(),
    ensures
        key_added(identity, caller, key) matches Ok(next) ==> next.wf(),
{
    if let Ok(next) = key_added(identity, caller, key) {
        assert forall|i: int, j: int| 0 <= i < j < next.keys.len() implies !(#[trigger] next.keys[i])
            .denotes((#[trigger] next.keys[j]).owner, next.keys[j].key_type) by {
            if j == identity.keys.len() {
                assert(!identity.keys[i].denotes(key.owner, key.key_type));
            } else {
                let other = identity.keys[j];
                assert(!identity.keys[i].denotes(other.owner, other.key_type));
            }
        }
    }
}

/// Removing a key keeps the invariant of the record, and the key is gone.
pub proof fn key_removed_keeps_wf(
    identity: IdentityView,
    caller: Seq<u8>,
    owner: Seq<u8>,
    key_type: KeyType,
)
    requires
        identity.wf(),
    ensures
        key_removed(identity, caller, owner, key_type) matches Ok(next) ==> next.wf()
            && !next.has_key(owner, key_type),
{
    if let Ok(next) = key_removed(identity, caller, owner, key_type) {
        let keep = is_other_key(owner, key_type);
        let places = kept_places(identity.keys, keep);
        lemma_filter_selects(identity.keys, keep);
        assert forall|i: int, j: int| 0 <= i < j < next.keys.len() implies !(#[trigger] next.keys[i])
            .denotes((#[trigger] next.keys[j]).owner, next.keys[j].key_type) by {
            assert(places[i] < places[j]);
            assert(!identity.keys[places[i]].denotes(
                identity.keys[places[j]].owner,
                identity.keys[places[j]].key_type,
            ));
        }
        assert forall|i: int| 0 <= i < next.keys.len() implies !(#[trigger] next.keys[i]).denotes(
            owner,
            key_type,
        ) by {
            assert(keep(next.keys[i]));
        }
    }
}

/// Adding a key keeps the invariant of the store.
pub proof fn add_key_keeps_wf(
    store: StoreModel,
    identity_addr: Seq<u8>,
    caller: Seq<u8>,
    key: KeyView,
)
    requires
        store.wf(),
    ensures
        add_key_outcome(store, identity_addr, caller, key) matches Ok(next) ==> next.wf(),
{
    if store.identities.contains_key(identity_addr) {
        let identity = store.identities[identity_addr];
        assert(identity.wf() && identity.address == identity_addr);
        key_added_keeps_wf(identity, caller, key);
        if let Ok(next) = key_added(identity, caller, key) {
            save_keeps_wf(store, identity_addr, next);
        }
    }
}

/// Removing a key keeps the invariant of the store.
pub proof fn remove_key_keeps_wf(
    store: StoreModel,
    identity_addr: Seq<u8>,
    caller: Seq<u8>,
    key_owner: Seq<u8>,
    key_type: KeyType,
)
    requires
        store.wf(),
    ensures
        remove_key_outcome(store, identity_addr, caller, key_owner, key_type) matches Ok(next)
            ==> next.wf(),
{
    if store.identities.contains_key(identity_addr) {
        let identity = store.identities[identity_addr];
        assert(identity.wf() && identity.address == identity_addr);
        key_removed_keeps_wf(identity, caller, key_owner, key_type);
        if let Ok(next) = key_removed(identity, caller, key_owner, key_type) {
            save_keeps_wf(store, identity_addr, next);
        }
    }
}

} // verus!
