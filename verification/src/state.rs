//! Keys, claims and the identity records that hold them.

use vstd::prelude::*;
use crate::codec::claim_id;
use crate::error::{ContractError, ErrorView, fails_with};
use crate::text::{same_bytes, same_text};
use vstd::slice::slice_to_vec;

verus! {

/// The capacity in which a key's owner may act for an identity.
#[derive(Debug, Clone, Copy, PartialEq, Eq, Structural)]
pub enum KeyType {
    /// May add and remove keys and claims of the identity.
    ManagementKey,
    /// May act and transact in the identity's name.
    ExecutionKey,
    /// May sign claims about other identities.
    ClaimSignerKey,
    /// Marks a key used to encrypt data held in claims.
    EncryptionKey,
}

impl KeyType {
    /// The name by which a key type is written in messages.
    pub open spec fn name(self) -> Seq<char> {
        match self {
            KeyType::ManagementKey => "ManagementKey"@,
            KeyType::ExecutionKey => "ExecutionKey"@,
            KeyType::ClaimSignerKey => "ClaimSignerKey"@,
            KeyType::EncryptionKey => "EncryptionKey"@,
        }
    }

    /// The key type that a name denotes, if it denotes one.
    pub open spec fn named(s: Seq<char>) -> Option<KeyType> {
        if s == "ManagementKey"@ {
            Some(KeyType::ManagementKey)
        } else if s == "ExecutionKey"@ {
            Some(KeyType::ExecutionKey)
        } else if s == "ClaimSignerKey"@ {
            Some(KeyType::ClaimSignerKey)
        } else if s == "EncryptionKey"@ {
            Some(KeyType::EncryptionKey)
        } else {
            None
        }
    }

    /// The four names are pairwise different, so each name reads back as
    /// the key type it was written from.
    pub proof fn name_round_trip(self)
        ensures
            KeyType::named(self.name()) == Some(self),
    {
        reveal_strlit("ManagementKey");
        reveal_strlit("ExecutionKey");
        reveal_strlit("ClaimSignerKey");
        reveal_strlit("EncryptionKey");
        assert("ManagementKey"@.len() == 13);
        assert("ExecutionKey"@.len() == 12);
        assert("ClaimSignerKey"@.len() == 14);
        assert("EncryptionKey"@.len() == 13);
        assert("ManagementKey"@[0] == 'M');
        assert("EncryptionKey"@[0] == 'E');
    }

    /// Reads a key type from its name; any other text is rejected and
    /// handed back in the error.
    pub fn from_str(s: &str) -> (r: Result<KeyType, ContractError>)
        ensures
            match KeyType::named(s@) {
                Some(k) => r == Ok::<KeyType, ContractError>(k),
                None => fails_with(r, ErrorView::InvalidKeyType { key_type: s@ }),
            },
    {
        let owned = s.to_owned();
        if owned == "ManagementKey".to_owned() {
            Ok(KeyType::ManagementKey)
        } else if owned == "ExecutionKey".to_owned() {
            Ok(KeyType::ExecutionKey)
        } else if owned == "ClaimSignerKey".to_owned() {
            Ok(KeyType::ClaimSignerKey)
        } else if owned == "EncryptionKey".to_owned() {
            Ok(KeyType::EncryptionKey)
        } else {
            Err(ContractError::InvalidKeyType { key_type: owned })
        }
    }

    /// Writes the key type's name.
    pub fn to_string(&self) -> (r: String)
        ensures
            r@ == self.name(),
    {
        match self {
            KeyType::ManagementKey => "ManagementKey".to_owned(),
            KeyType::ExecutionKey => "ExecutionKey".to_owned(),
            KeyType::ClaimSignerKey => "ClaimSignerKey".to_owned(),
            KeyType::EncryptionKey => "EncryptionKey".to_owned(),
        }
    }
}

/// What a key is to the contracts: its owner's address and its capacity.
pub struct KeyView {
    pub owner: Seq<u8>,
    pub key_type: KeyType,
}

impl KeyView {
    /// Whether this is the key of `owner` with type `key_type`.
    pub open spec fn denotes(self, owner: Seq<u8>, key_type: KeyType) -> bool {
        self.owner == owner && self.key_type == key_type
    }
}

/// A key of an identity: `owner` may act for the identity as `key_type` says.
#[derive(Debug, PartialEq, Eq)]
pub struct Key {
    pub owner: Vec<u8>,
    pub key_type: KeyType,
}

impl View for Key {
    type V = KeyView;

    open spec fn view(&self) -> KeyView {
        KeyView { owner: self.owner@, key_type: self.key_type }
    }
}

impl Clone for Key {
    fn clone(&self) -> (r: Self)
        ensures
            r@ == self@,
    {
        Key { owner: self.owner.clone(), key_type: self.key_type }
    }
}

/// What a claim is to the contracts.
pub struct ClaimView {
    pub id: Option<Seq<char>>,
    pub topic: u128,
    pub issuer: Seq<u8>,
    pub signature: Seq<u8>,
    pub data: Seq<u8>,
    pub uri: Seq<char>,
}

/// An attestation about an identity, signed by its issuer.
///
/// `id` is assigned when the claim is accepted; a value supplied with a
/// submitted claim is never read.
#[derive(Debug, PartialEq, Eq)]
pub struct Claim {
    pub id: Option<String>,
    pub topic: u128,
    pub issuer: Vec<u8>,
    pub signature: Vec<u8>,
    pub data: Vec<u8>,
    pub uri: String,
}

impl View for Claim {
    type V = ClaimView;

    open spec fn view(&self) -> ClaimView {
        ClaimView {
            id: match self.id {
                Some(s) => Some(s@),
                None => None,
            },
            topic: self.topic,
            issuer: self.issuer@,
            signature: self.signature@,
            data: self.data@,
            uri: self.uri@,
        }
    }
}

impl Clone for Claim {
    fn clone(&self) -> (r: Self)
        ensures
            r@ == self@,
    {
        let id = match &self.id {
            Some(s) => Some(s.clone()),
            None => None,
        };
        Claim {
            id,
            topic: self.topic,
            issuer: self.issuer.clone(),
            signature: self.signature.clone(),
            data: self.data.clone(),
            uri: self.uri.clone(),
        }
    }
}

/// The views of a sequence of keys, in their order.
pub open spec fn key_views(keys: Seq<Key>) -> Seq<KeyView> {
    keys.map_values(|k: Key| k@)
}

/// The views of a sequence of claims, in their order.
pub open spec fn claim_views(claims: Seq<Claim>) -> Seq<ClaimView> {
    claims.map_values(|c: Claim| c@)
}

/// Copies a list of keys.
pub fn clone_keys(keys: &Vec<Key>) -> (copy: Vec<Key>)
    ensures
        key_views(copy@) == key_views(keys@),
{
    let mut copy: Vec<Key> = Vec::new();
    let mut i: usize = 0;
    while i < keys.len()
        invariant
            i <= keys.len(),
            copy.len() == i,
            forall|j: int| 0 <= j < i ==> (#[trigger] copy@[j])@ == keys@[j]@,
        decreases keys.len() - i,
    {
        copy.push(keys[i].clone());
        i = i + 1;
    }
    assert(key_views(copy@) =~= key_views(keys@));
    copy
}

/// Copies a list of claims.
pub fn clone_claims(claims: &Vec<Claim>) -> (copy: Vec<Claim>)
    ensures
        claim_views(copy@) == claim_views(claims@),
{
    let mut copy: Vec<Claim> = Vec::new();
    let mut i: usize = 0;
    while i < claims.len()
        invariant
            i <= claims.len(),
            copy.len() == i,
            forall|j: int| 0 <= j < i ==> (#[trigger] copy@[j])@ == claims@[j]@,
        decreases claims.len() - i,
    {
        copy.push(claims[i].clone());
        i = i + 1;
    }
    assert(claim_views(copy@) =~= claim_views(claims@));
    copy
}

/// What an identity is to the contracts: its address, its keys and its
/// claims, each in the order in which they were added.
pub struct IdentityView {
    pub address: Seq<u8>,
    pub keys: Seq<KeyView>,
    pub claims: Seq<ClaimView>,
}

impl IdentityView {
    /// Whether the identity holds the key of `owner` with type `key_type`.
    pub open spec fn has_key(self, owner: Seq<u8>, key_type: KeyType) -> bool {
        exists|i: int| 0 <= i < self.keys.len() && #[trigger] self.keys[i].denotes(owner, key_type)
    }

    /// Whether the key at `i` is a claim signer key and none before it is.
    pub open spec fn is_first_signer(self, i: int) -> bool {
        &&& 0 <= i < self.keys.len()
        &&& self.keys[i].key_type == KeyType::ClaimSignerKey
        &&& forall|j: int|
            0 <= j < i ==> (#[trigger] self.keys[j]).key_type != KeyType::ClaimSignerKey
    }

    /// The identity's claim signer key: the first of its keys with that type.
    pub open spec fn claim_signer(self) -> Option<KeyView> {
        if exists|i: int| self.is_first_signer(i) {
            Some(self.keys[choose|i: int| self.is_first_signer(i)])
        } else {
            None
        }
    }

    /// Whether the identity holds a claim with this identifier.
    pub open spec fn has_claim(self, id: Seq<char>) -> bool {
        exists|i: int| 0 <= i < self.claims.len() && (#[trigger] self.claims[i]).id == Some(id)
    }

    /// Whether the claim at `i` has this identifier and none before it has.
    pub open spec fn is_first_claim(self, id: Seq<char>, i: int) -> bool {
        &&& 0 <= i < self.claims.len()
        &&& self.claims[i].id == Some(id)
        &&& forall|j: int| 0 <= j < i ==> (#[trigger] self.claims[j]).id != Some(id)
    }

    /// The claim with this identifier: the first, should there be several.
    pub open spec fn claim(self, id: Seq<char>) -> Option<ClaimView> {
        if exists|i: int| self.is_first_claim(id, i) {
            Some(self.claims[choose|i: int| self.is_first_claim(id, i)])
        } else {
            None
        }
    }

    /// Whether the identity holds a claim with this topic.
    pub open spec fn has_topic(self, topic: u128) -> bool {
        exists|i: int| 0 <= i < self.claims.len() && (#[trigger] self.claims[i]).topic == topic
    }

    /// No two keys of the identity have the same owner and type.
    pub open spec fn keys_unique(self) -> bool {
        forall|i: int, j: int|
            0 <= i < j < self.keys.len() ==> !(#[trigger] self.keys[i]).denotes(
                (#[trigger] self.keys[j]).owner,
                self.keys[j].key_type,
            )
    }

    /// Every claim carries the identifier derived from its content, and no
    /// two claims carry the same one.
    pub open spec fn claims_identified(self) -> bool {
        &&& forall|i: int|
            0 <= i < self.claims.len() ==> (#[trigger] self.claims[i]).id == Some(
                claim_id(self.claims[i]),
            )
        &&& forall|i: int, j: int|
            0 <= i < j < self.claims.len() ==> (#[trigger] self.claims[i]).id != (
            #[trigger] self.claims[j]).id
    }

    /// The invariant of an identity record.
    pub open spec fn wf(self) -> bool {
        self.keys_unique() && self.claims_identified()
    }
}

/// The record that an identity starts from: a management key for its own
/// address and nothing else.
pub open spec fn bootstrapped(owner: Seq<u8>) -> IdentityView {
    IdentityView {
        address: owner,
        keys: seq![KeyView { owner, key_type: KeyType::ManagementKey }],
        claims: Seq::empty(),
    }
}

/// The record of one identity: who may act for it, and what was attested
/// about it.
///
/// A record is plain data. The operations on identities keep `wf` where
/// they find it, and none of them relies on it.
#[derive(Debug, PartialEq, Eq)]
pub struct Identity {
    pub address: Vec<u8>,
    pub keys: Vec<Key>,
    pub claims: Vec<Claim>,
}

impl View for Identity {
    type V = IdentityView;

    open spec fn view(&self) -> IdentityView {
        IdentityView {
            address: self.address@,
            keys: key_views(self.keys@),
            claims: claim_views(self.claims@),
        }
    }
}

impl Clone for Identity {
    fn clone(&self) -> (r: Self)
        ensures
            r@ == self@,
    {
        Identity {
            address: self.address.clone(),
            keys: clone_keys(&self.keys),
            claims: clone_claims(&self.claims),
        }
    }
}

impl Identity {
    /// The record of a new identity: one management key, held by the
    /// identity's own address, and no claims.
    pub fn bootstrap(owner: &[u8]) -> (identity: Identity)
        ensures
            identity@ == bootstrapped(owner@),
            identity@.wf(),
    {
        let mut keys: Vec<Key> = Vec::new();
        keys.push(Key { owner: slice_to_vec(owner), key_type: KeyType::ManagementKey });
        let identity = Identity { address: slice_to_vec(owner), keys, claims: Vec::new() };
        assert(identity@.keys =~= seq![
            KeyView { owner: owner@, key_type: KeyType::ManagementKey },
        ]);
        assert(identity@.claims =~= Seq::empty());
        identity
    }

    /// Where the key of `owner` with type `key_type` stands, if the
    /// identity holds it.
    pub fn find_key(&self, owner: &[u8], key_type: KeyType) -> (found: Option<usize>)
        ensures
            match found {
                Some(i) => i < self.keys.len() && self@.keys[i as int].denotes(owner@, key_type),
                None => !self@.has_key(owner@, key_type),
            },
    {
        let mut i: usize = 0;
        while i < self.keys.len()
            invariant
                i <= self.keys.len(),
                forall|j: int| 0 <= j < i ==> !(#[trigger] self@.keys[j]).denotes(owner@, key_type),
            decreases self.keys.len() - i,
        {
            let key = &self.keys[i];
            if key.key_type == key_type && same_bytes(key.owner.as_slice(), owner) {
                return Some(i);
            }
            i = i + 1;
        }
        None
    }

    /// Whether the identity holds the key of `owner` with type `key_type`.
    pub fn has_key(&self, owner: &[u8], key_type: KeyType) -> (held: bool)
        ensures
            held == self@.has_key(owner@, key_type),
    {
        self.find_key(owner, key_type).is_some()
    }

    /// The identity's first claim signer key, if it has one.
    pub fn claim_signer(&self) -> (signer: Option<&Key>)
        ensures
            match signer {
                Some(key) => self@.claim_signer() == Some(key@),
                None => self@.claim_signer() is None,
            },
    {
        let mut i: usize = 0;
        while i < self.keys.len()
            invariant
                i <= self.keys.len(),
                forall|j: int|
                    0 <= j < i ==> (#[trigger] self@.keys[j]).key_type != KeyType::ClaimSignerKey,
            decreases self.keys.len() - i,
        {
            if self.keys[i].key_type == KeyType::ClaimSignerKey {
                assert(self@.is_first_signer(i as int));
                return Some(&self.keys[i]);
            }
            i = i + 1;
        }
        None
    }

    /// Where the claim with this identifier stands, if the identity holds it.
    pub fn find_claim(&self, id: &str) -> (found: Option<usize>)
        ensures
            match found {
                Some(i) => self@.is_first_claim(id@, i as int),
                None => !self@.has_claim(id@),
            },
    {
        let mut i: usize = 0;
        while i < self.claims.len()
            invariant
                i <= self.claims.len(),
                forall|j: int| 0 <= j < i ==> (#[trigger] self@.claims[j]).id != Some(id@),
            decreases self.claims.len() - i,
        {
            let same = match &self.claims[i].id {
                Some(held) => same_text(held.as_str(), id),
                None => false,
            };
            if same {
                return Some(i);
            }
            i = i + 1;
        }
        None
    }

    /// Whether the identity holds a claim with this topic.
    pub fn has_topic(&self, topic: u128) -> (held: bool)
        ensures
            held == self@.has_topic(topic),
    {
        let mut i: usize = 0;
        while i < self.claims.len()
            invariant
                i <= self.claims.len(),
                forall|j: int| 0 <= j < i ==> (#[trigger] self@.claims[j]).topic != topic,
            decreases self.claims.len() - i,
        {
            if self.claims[i].topic == topic {
                assert(self@.claims[i as int].topic == topic);
                return true;
            }
            i = i + 1;
        }
        false
    }
}

} // verus!
