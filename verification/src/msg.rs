//! The commands and queries that the identity contract accepts, and what
//! it answers.

use vstd::prelude::*;
use crate::error::{ContractError, ErrorView, fails_with};
use crate::state::{Claim, ClaimView, Key, KeyView, claim_views};
use crate::store::StoreModel;

verus! {

/// Sets up the store with the root identity of `owner`.
#[derive(Debug, PartialEq, Eq)]
pub struct InstantiateMsg {
    pub owner: Vec<u8>,
}

/// The commands that change an identity.
#[derive(Debug, PartialEq, Eq)]
pub enum ExecuteMsg {
    /// Gives `key_owner` a key of the named type.
    AddKey { key_owner: Vec<u8>, key_type: String },
    /// Takes the key of the named type from `key_owner`.
    RevokeKey { key_owner: Vec<u8>, key_type: String },
    /// Adds `claim` once `issuer_signature` is verified against the digest
    /// of `serialized_claim`, the claim's serialized form as submitted.
    AddClaim { claim: Claim, serialized_claim: Vec<u8>, issuer_signature: Vec<u8> },
    /// Removes the claim with this identifier.
    RemoveClaim { claim_id: String },
}

/// The questions that can be asked of the store.
#[derive(Debug, PartialEq, Eq)]
pub enum QueryMsg {
    /// The key of `key_owner` with the named type, on the root identity.
    GetKey { key_owner: Vec<u8>, key_type: String },
    /// The claim with this identifier on the identity of `key_owner`.
    GetClaim { key_owner: Vec<u8>, claim_id: String },
    /// The identifiers of the claims with this topic on the identity of `key_owner`.
    GetClaimIdsByTopic { key_owner: Vec<u8>, topic: String },
    /// The claims by this issuer on the identity of `key_owner`.
    GetClaimsByIssuer { key_owner: Vec<u8>, issuer: Vec<u8> },
    /// Whether the identity of `key_owner` holds the claim with this identifier.
    VerifyClaim { key_owner: Vec<u8>, claim_id: String, trusted_issuers_registry: String },
    /// Every claim on the identity of `user_addr`.
    GetValidatedClaimsForUser { user_addr: Vec<u8> },
    /// The address of the store's owner.
    GetOwner {},
}

/// The answer to a query, one variant for each question.
#[derive(Debug, PartialEq, Eq)]
pub enum QueryResponse {
    Key(Key),
    Claim(Claim),
    ClaimIds(Vec<String>),
    Claims(Vec<Claim>),
    Verified(bool),
    Owner(Vec<u8>),
}

/// What an answer is to the contracts.
pub enum AnswerView {
    Key(KeyView),
    Claim(ClaimView),
    ClaimIds(Seq<Seq<char>>),
    Claims(Seq<ClaimView>),
    Verified(bool),
    Owner(Seq<u8>),
}

/// The texts of a sequence of strings, in their order.
pub open spec fn texts(strings: Seq<String>) -> Seq<Seq<char>> {
    strings.map_values(|s: String| s@)
}

impl View for QueryResponse {
    type V = AnswerView;

    open spec fn view(&self) -> AnswerView {
        match self {
            QueryResponse::Key(key) => AnswerView::Key(key@),
            QueryResponse::Claim(claim) => AnswerView::Claim(claim@),
            QueryResponse::ClaimIds(ids) => AnswerView::ClaimIds(texts(ids@)),
            QueryResponse::Claims(claims) => AnswerView::Claims(claim_views(claims@)),
            QueryResponse::Verified(held) => AnswerView::Verified(*held),
            QueryResponse::Owner(owner) => AnswerView::Owner(owner@),
        }
    }
}

/// A name and a value that describe what a command did.
#[derive(Debug, PartialEq, Eq)]
pub struct Attribute {
    pub key: String,
    pub value: String,
}

/// What a command reports once it has taken effect.
#[derive(Debug, PartialEq, Eq)]
pub struct Response {
    pub attributes: Vec<Attribute>,
}

impl Response {
    /// What a response is to the contracts: its attributes as pairs of
    /// name and value, in their order.
    pub open spec fn pairs(self) -> Seq<(Seq<char>, Seq<char>)> {
        self.attributes@.map_values(|a: Attribute| (a.key@, a.value@))
    }

    /// A response without attributes.
    pub fn new() -> (response: Response)
        ensures
            response.pairs() == Seq::<(Seq<char>, Seq<char>)>::empty(),
    {
        let response = Response { attributes: Vec::new() };
        assert(response.pairs() =~= Seq::empty());
        response
    }

    /// The response with one more attribute at its end.
    pub fn add_attribute(self, key: &str, value: &str) -> (response: Response)
        ensures
            response.pairs() == self.pairs().push((key@, value@)),
    {
        let mut attributes = self.attributes;
        attributes.push(Attribute { key: key.to_owned(), value: value.to_owned() });
        let response = Response { attributes };
        assert(response.pairs() =~= self.pairs().push((key@, value@)));
        response
    }
}

/// What a command is meant to do: the store it leaves and the attributes
/// it reports, or the error it fails with.
pub type Effect = Result<(StoreModel, Seq<(Seq<char>, Seq<char>)>), ErrorView>;

/// Whether a command that found the store as `before` did what `effect`
/// says: on success it left the store as the effect gives it and reports
/// the effect's attributes; on failure it returns the effect's error and
/// left the store as it was.
pub open spec fn carried_out(
    r: Result<Response, ContractError>,
    before: StoreModel,
    after: StoreModel,
    effect: Effect,
) -> bool {
    match effect {
        Ok((next, attributes)) => r matches Ok(response) && response.pairs() == attributes && after
            == next,
        Err(e) => fails_with(r, e) && after == before,
    }
}

} // verus!
