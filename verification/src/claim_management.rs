//! The claim lifecycle: verifying the issuer's signature, accepting a
//! claim under its derived identifier, and removing it again.

use vstd::prelude::*;
use crate::codec::{claim_id, derive_claim_id, sha256, sha256_digest};
use crate::error::{ContractError, ErrorView, fails_with};
use crate::filtering::{kept_places, lemma_filter_selects};
use crate::key_management::record_changed;
use crate::msg::{Effect, Response, carried_out};
use crate::signature::{secp256k1_verify, signature_verdict, verdict, verify_signature};
use crate::state::{Claim, ClaimView, Identity, IdentityView, KeyType, claim_views};
use crate::store::{IdentityStore, StoreModel, save_keeps_wf};
use crate::text::same_text;

verus! {

/// Whether `signature` is the signature of `claim`'s issuer over the claim
/// as submitted.
///
/// The issuer's record must be in the store (`StorageError` otherwise) and
/// hold a claim signer key (`Unauthorized` otherwise). The signed message
/// is the SHA-256 digest of `serialized`, and the signer key's owner, as
/// bytes, is the public key. Anything but a valid signature is
/// `InvalidIssuerSignature`.
pub open spec fn signature_checked(
    store: StoreModel,
    claim: ClaimView,
    serialized: Seq<u8>,
    signature: Seq<u8>,
) -> Result<(), ErrorView> {
    if !store.identities.contains_key(claim.issuer) {
        Err(ErrorView::StorageError)
    } else {
        match store.identities[claim.issuer].claim_signer() {
            None => Err(ErrorView::Unauthorized),
            Some(key) => verdict(secp256k1_verify(sha256(serialized), signature, key.owner)),
        }
    }
}

/// The claim as it is stored: under the identifier derived from its content.
pub open spec fn accepted(claim: ClaimView) -> ClaimView {
    ClaimView { id: Some(claim_id(claim)), ..claim }
}

/// What taking up an already verified claim makes of an identity.
pub open spec fn claim_accepted(
    identity: IdentityView,
    claim: ClaimView,
) -> Result<IdentityView, ErrorView> {
    if identity.has_claim(claim_id(claim)) {
        Err(ErrorView::ClaimAlreadyExists)
    } else {
        Ok(IdentityView { claims: identity.claims.push(accepted(claim)), ..identity })
    }
}

/// What `add_claim` makes of a store.
pub open spec fn add_claim_outcome(
    store: StoreModel,
    identity_addr: Seq<u8>,
    caller: Seq<u8>,
    claim: ClaimView,
    serialized: Seq<u8>,
    signature: Seq<u8>,
) -> Result<StoreModel, ErrorView> {
    record_changed(
        store,
        identity_addr,
        |identity: IdentityView|
            if !identity.has_key(caller, KeyType::ManagementKey) {
                Err(ErrorView::Unauthorized)
            } else {
                match signature_checked(store, claim, serialized, signature) {
                    Err(e) => Err(e),
                    Ok(()) => claim_accepted(identity, claim),
                }
            },
    )
}

/// The test that `without_claim` keeps a claim by.
pub open spec fn is_other_claim(id: Seq<char>) -> spec_fn(ClaimView) -> bool {
    |c: ClaimView| c.id != Some(id)
}

/// The claims that are left when every claim with identifier `id` is
/// taken out, in their order.
pub open spec fn without_claim(claims: Seq<ClaimView>, id: Seq<char>) -> Seq<ClaimView> {
    claims.filter(is_other_claim(id))
}

/// What removing the claim `id` on behalf of `caller` makes of an
/// identity. A claim that is not there is no error.
pub open spec fn claim_removed(
    identity: IdentityView,
    caller: Seq<u8>,
    id: Seq<char>,
) -> Result<IdentityView, ErrorView> {
    if !identity.has_key(caller, KeyType::ManagementKey) {
        Err(ErrorView::Unauthorized)
    } else {
        Ok(IdentityView { claims: without_claim(identity.claims, id), ..identity })
    }
}

/// What `remove_claim` makes of a store.
pub open spec fn remove_claim_outcome(
    store: StoreModel,
    identity_addr: Seq<u8>,
    caller: Seq<u8>,
    id: Seq<char>,
) -> Result<StoreModel, ErrorView> {
    record_changed(
        store,
        identity_addr,
        |identity: IdentityView| claim_removed(identity, caller, id),
    )
}

/// What `verify_claim` answers.
pub open spec fn topic_verified(
    store: StoreModel,
    identity_addr: Seq<u8>,
    topic: u128,
) -> Result<bool, ErrorView> {
    if !store.identities.contains_key(identity_addr) {
        Err(ErrorView::StorageError)
    } else {
        Ok(store.identities[identity_addr].has_topic(topic))
    }
}

/// Verifies `signature` as the signature of `claim`'s issuer over the
/// digest of `serialized_claim`. Changes nothing.
pub fn verify_claim_signature(
    store: &IdentityStore,
    claim: &Claim,
    serialized_claim: &[u8],
    signature: &[u8],
) -> (r: Result<(), ContractError>)
    ensures
        match signature_checked(store@, claim@, serialized_claim@, signature@) {
            Ok(()) => r is Ok,
            Err(e) => fails_with(r, e),
        },
{
    let issuer = match store.load(claim.issuer.as_slice()) {
        Some(found) => found,
        None => {
            return Err(ContractError::StorageError);
        },
    };
    let signer = match issuer.claim_signer() {
        Some(key) => key,
        None => {
            return Err(ContractError::Unauthorized);
        },
    };
    let message_hash = sha256_digest(serialized_claim);
    let outcome = verify_signature(message_hash.as_slice(), signature, signer.owner.as_slice());
    signature_verdict(outcome)
}

impl Identity {
    /// Takes up a verified claim under the identifier derived from its
    /// content, and returns that identifier. A claim whose identifier the
    /// identity already holds is rejected.
    pub(crate) fn accept_claim(&mut self, claim: Claim) -> (r: Result<String, ContractError>)
        ensures
            match claim_accepted(old(self)@, claim@) {
                Ok(next) => r matches Ok(id) && id@ == claim_id(claim@) && final(self)@ == next,
                Err(e) => fails_with(r, e) && final(self)@ == old(self)@,
            },
            old(self)@.wf() ==> final(self)@.wf(),
    {
        proof {
            if self@.wf() {
                claim_accepted_keeps_wf(self@, claim@);
            }
        }
        let id = derive_claim_id(&claim);
        if self.find_claim(id.as_str()).is_some() {
            return Err(ContractError::ClaimAlreadyExists);
        }
        let stored = Claim {
            id: Some(id.clone()),
            topic: claim.topic,
            issuer: claim.issuer,
            signature: claim.signature,
            data: claim.data,
            uri: claim.uri,
        };
        assert(stored@ == accepted(claim@));
        self.claims.push(stored);
        assert(self@.claims =~= old(self)@.claims.push(accepted(claim@)));
        Ok(id)
    }

    /// Removes every claim with identifier `claim_id` on behalf of
    /// `caller`, who must hold a management key.
    pub fn remove_claim(&mut self, caller: &[u8], claim_id: &str) -> (r: Result<(), ContractError>)
        ensures
            match claim_removed(old(self)@, caller@, claim_id@) {
                Ok(next) => r is Ok && final(self)@ == next,
                Err(e) => fails_with(r, e) && final(self)@ == old(self)@,
            },
            old(self)@.wf() ==> final(self)@.wf(),
    {
        proof {
            if self@.wf() {
                claim_removed_keeps_wf(self@, caller@, claim_id@);
            }
        }
        if !self.has_key(caller, KeyType::ManagementKey) {
            return Err(ContractError::Unauthorized);
        }
        let ghost keep = is_other_claim(claim_id@);
        let ghost before = self@.claims;
        let mut kept: Vec<Claim> = Vec::new();
        let mut i: usize = 0;
        assert(before.subrange(0, 0).filter(keep) =~= Seq::empty()) by {
            reveal(Seq::filter);
        }
        while i < self.claims.len()
            invariant
                i <= self.claims.len(),
                before == claim_views(self.claims@),
                keep == is_other_claim(claim_id@),
                claim_views(kept@) == before.subrange(0, i as int).filter(keep),
            decreases self.claims.len() - i,
        {
            let claim = &self.claims[i];
            let matches = match &claim.id {
                Some(held) => same_text(held.as_str(), claim_id),
                None => false,
            };
            proof {
                let prefix = before.subrange(0, i + 1);
                assert(prefix.drop_last() =~= before.subrange(0, i as int));
                assert(prefix.last() == claim@);
                assert(keep(claim@) == !matches);
                reveal(Seq::filter);
            }
            if !matches {
                kept.push(claim.clone());
                assert(claim_views(kept@) =~= before.subrange(0, i as int).filter(keep).push(
                    claim@,
                ));
            }
            i = i + 1;
        }
        assert(before.subrange(0, before.len() as int) == before);
        self.claims = kept;
        Ok(())
    }
}

/// Adds `claim` to the identity at `identity_addr` on behalf of `caller`
/// and returns the identifier it was stored under.
///
/// `caller` must hold a management key on that identity, and
/// `issuer_signature` must verify as the issuer's signature over the
/// digest of `serialized_claim`. On any error the store is left as it was.
pub fn add_claim(
    store: &mut IdentityStore,
    identity_addr: &[u8],
    caller: &[u8],
    claim: Claim,
    serialized_claim: &[u8],
    issuer_signature: &[u8],
) -> (r: Result<String, ContractError>)
    ensures
        match add_claim_outcome(
            old(store)@,
            identity_addr@,
            caller@,
            claim@,
            serialized_claim@,
            issuer_signature@,
        ) {
            Ok(next) => r matches Ok(id) && id@ == claim_id(claim@) && final(store)@ == next,
            Err(e) => fails_with(r, e) && final(store)@ == old(store)@,
        },
        old(store)@.wf() ==> final(store)@.wf(),
{
    proof {
        if store@.wf() {
            add_claim_keeps_wf(
                store@,
                identity_addr@,
                caller@,
                claim@,
                serialized_claim@,
                issuer_signature@,
            );
        }
    }
    let mut identity = match store.load(identity_addr) {
        Some(found) => found.clone(),
        None => {
            return Err(ContractError::StorageError);
        },
    };
    if !identity.has_key(caller, KeyType::ManagementKey) {
        return Err(ContractError::Unauthorized);
    }
    match verify_claim_signature(store, &claim, serialized_claim, issuer_signature) {
        Ok(()) => {},
        Err(e) => {
            return Err(e);
        },
    }
    match identity.accept_claim(claim) {
        Ok(id) => {
            store.save(identity);
            Ok(id)
        },
        Err(e) => Err(e),
    }
}

/// Removes the claim `claim_id` from the identity at `identity_addr` on
/// behalf of `caller`. A claim that is not there is no error. On any error
/// the store is left as it was.
pub fn remove_claim(
    store: &mut IdentityStore,
    identity_addr: &[u8],
    caller: &[u8],
    claim_id: &str,
) -> (r: Result<(), ContractError>)
    ensures
        match remove_claim_outcome(old(store)@, identity_addr@, caller@, claim_id@) {
            Ok(next) => r is Ok && final(store)@ == next,
            Err(e) => fails_with(r, e) && final(store)@ == old(store)@,
        },
        old(store)@.wf() ==> final(store)@.wf(),
{
    proof {
        if store@.wf() {
            remove_claim_keeps_wf(store@, identity_addr@, caller@, claim_id@);
        }
    }
    let mut identity = match store.load(identity_addr) {
        Some(found) => found.clone(),
        None => {
            return Err(ContractError::StorageError);
        },
    };
    match identity.remove_claim(caller, claim_id) {
        Ok(()) => {
            store.save(identity);
            Ok(())
        },
        Err(e) => Err(e),
    }
}

/// Whether the identity at `identity` holds a claim with topic
/// `claim_topic`. Only presence is checked: no signature is verified again.
pub fn verify_claim(
    store: &IdentityStore,
    identity: &[u8],
    claim_topic: u128,
) -> (r: Result<bool, ContractError>)
    ensures
        match topic_verified(store@, identity@, claim_topic) {
            Ok(held) => r == Ok::<bool, ContractError>(held),
            Err(e) => fails_with(r, e),
        },
{
    match store.load(identity) {
        Some(found) => Ok(found.has_topic(claim_topic)),
        None => Err(ContractError::StorageError),
    }
}

/// What `AddClaim` from `sender` does: the claim is added to the identity
/// of the store's owner, and its identifier is reported.
pub open spec fn add_claim_effect(
    store: StoreModel,
    sender: Seq<u8>,
    claim: ClaimView,
    serialized: Seq<u8>,
    signature: Seq<u8>,
) -> Effect {
    match add_claim_outcome(store, store.owner, sender, claim, serialized, signature) {
        Ok(next) => Ok((next, seq![("method"@, "add_claim"@), ("claim_id"@, claim_id(claim))])),
        Err(e) => Err(e),
    }
}

/// What `RemoveClaim` from `sender` does: the claim is removed from the
/// identity of the store's owner.
pub open spec fn remove_claim_effect(store: StoreModel, sender: Seq<u8>, id: Seq<char>) -> Effect {
    match remove_claim_outcome(store, store.owner, sender, id) {
        Ok(next) => Ok((next, seq![("method"@, "remove_claim"@), ("claim_id"@, id)])),
        Err(e) => Err(e),
    }
}

/// Handles `AddClaim` from `sender`.
pub fn execute_add_claim(
    store: &mut IdentityStore,
    sender: &[u8],
    claim: Claim,
    serialized_claim: Vec<u8>,
    issuer_signature: Vec<u8>,
) -> (r: Result<Response, ContractError>)
    ensures
        carried_out(
            r,
            old(store)@,
            final(store)@,
            add_claim_effect(old(store)@, sender@, claim@, serialized_claim@, issuer_signature@),
        ),
        old(store)@.wf() ==> final(store)@.wf(),
{
    let root = store.owner().clone();
    match add_claim(
        store,
        root.as_slice(),
        sender,
        claim,
        serialized_claim.as_slice(),
        issuer_signature.as_slice(),
    ) {
        Ok(id) => {
            let response = Response::new().add_attribute("method", "add_claim").add_attribute(
                "claim_id",
                id.as_str(),
            );
            assert(response.pairs() =~= seq![("method"@, "add_claim"@), ("claim_id"@, id@)]);
            Ok(response)
        },
        Err(e) => Err(e),
    }
}

/// Handles `RemoveClaim` from `sender`.
pub fn execute_remove_claim(
    store: &mut IdentityStore,
    sender: &[u8],
    claim_id: String,
) -> (r: Result<Response, ContractError>)
    ensures
        carried_out(
            r,
            old(store)@,
            final(store)@,
            remove_claim_effect(old(store)@, sender@, claim_id@),
        ),
        old(store)@.wf() ==> final(store)@.wf(),
{
    let root = store.owner().clone();
    match remove_claim(store, root.as_slice(), sender, claim_id.as_str()) {
        Ok(()) => {
            let response = Response::new().add_attribute("method", "remove_claim").add_attribute(
                "claim_id",
                claim_id.as_str(),
            );
            assert(response.pairs() =~= seq![
                ("method"@, "remove_claim"@),
                ("claim_id"@, claim_id@),
            ]);
            Ok(response)
        },
        Err(e) => Err(e),
    }
}

/// Taking up a claim keeps the invariant of the record.
pub proof fn claim_accepted_keeps_wf(identity: IdentityView, claim: ClaimView)
    requires
        identity.wf(),
    ensures
        claim_accepted(identity, claim) matches Ok(next) ==> next.wf(),
{
    if let Ok(next) = claim_accepted(identity, claim) {
        let stored = accepted(claim);
        assert(claim_id(stored) == claim_id(claim));
        assert forall|i: int| 0 <= i < next.claims.len() implies (#[trigger] next.claims[i]).id
            == Some(claim_id(next.claims[i])) by {
            if i < identity.claims.len() {
                assert(identity.claims[i].id == Some(claim_id(identity.claims[i])));
            }
        }
        assert forall|i: int, j: int| 0 <= i < j < next.claims.len() implies (
        #[trigger] next.claims[i]).id != (#[trigger] next.claims[j]).id by {
            if j == identity.claims.len() {
                assert(identity.claims[i].id != Some(claim_id(claim)));
            } else {
                assert(identity.claims[i].id != identity.claims[j].id);
            }
        }
    }
}

/// Removing a claim keeps the invariant of the record, and the claim is gone.
pub proof fn claim_removed_keeps_wf(identity: IdentityView, caller: Seq<u8>, id: Seq<char>)
    requires
        identity.wf(),
    ensures
        claim_removed(identity, caller, id) matches Ok(next) ==> next.wf() && !next.has_claim(id),
{
    if let Ok(next) = claim_removed(identity, caller, id) {
        let keep = is_other_claim(id);
        let places = kept_places(identity.claims, keep);
        lemma_filter_selects(identity.claims, keep);
        assert forall|i: int| 0 <= i < next.claims.len() implies (#[trigger] next.claims[i]).id
            == Some(claim_id(next.claims[i])) by {
            assert(next.claims[i] == identity.claims[places[i]]);
        }
        assert forall|i: int, j: int| 0 <= i < j < next.claims.len() implies (
        #[trigger] next.claims[i]).id != (#[trigger] next.claims[j]).id by {
            assert(places[i] < places[j]);
            assert(identity.claims[places[i]].id != identity.claims[places[j]].id);
        }
        assert forall|i: int| 0 <= i < next.claims.len() implies (#[trigger] next.claims[i]).id
            != Some(id) by {
            assert(keep(next.claims[i]));
        }
    }
}

/// Adding a claim keeps the invariant of the store.
pub proof fn add_claim_keeps_wf(
    store: StoreModel,
    identity_addr: Seq<u8>,
    caller: Seq<u8>,
    claim: ClaimView,
    serialized: Seq<u8>,
    signature: Seq<u8>,
)
    requires
        store.wf(),
    ensures
        add_claim_outcome(store, identity_addr, caller, claim, serialized, signature) matches Ok(
            next,
        ) ==> next.wf(),
{
    if store.identities.contains_key(identity_addr) {
        let identity = store.identities[identity_addr];
        assert(identity.wf() && identity.address == identity_addr);
        claim_accepted_keeps_wf(identity, claim);
        if let Ok(next) = claim_accepted(identity, claim) {
            save_keeps_wf(store, identity_addr, next);
        }
    }
}

/// Removing a claim keeps the invariant of the store.
pub proof fn remove_claim_keeps_wf(
    store: StoreModel,
    identity_addr: Seq<u8>,
    caller: Seq<u8>,
    id: Seq<char>,
)
    requires
        store.wf(),
    ensures
        remove_claim_outcome(store, identity_addr, caller, id) matches Ok(next) ==> next.wf(),
{
    if store.identities.contains_key(identity_addr) {
        let identity = store.identities[identity_addr];
        assert(identity.wf() && identity.address == identity_addr);
        claim_removed_keeps_wf(identity, caller, id);
        if let Ok(next) = claim_removed(identity, caller, id) {
            save_keeps_wf(store, identity_addr, next);
        }
    }
}

} // verus!
