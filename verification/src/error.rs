//! The typed failures that the identity and registry operations return.

use vstd::prelude::*;

verus! {

/// Every way an operation of this crate can fail.
#[derive(Debug, PartialEq, Eq)]
pub enum ContractError {
    /// The caller lacks the key or the role that the operation asks for.
    Unauthorized,
    /// The identity already holds a key with this owner and type.
    KeyAlreadyExists,
    /// The identity holds no key with this owner and type.
    KeyNotFound,
    /// The identity already holds a claim with the same derived id.
    ClaimAlreadyExists,
    /// The identity holds no claim with this id.
    ClaimNotFound,
    /// The issuer's signature over the claim digest is missing, malformed or wrong.
    InvalidIssuerSignature,
    /// The text names none of the four key types.
    InvalidKeyType { key_type: String },
    /// The text is no decimal topic code.
    InvalidClaimTopic { topic: String },
    /// The topic is already registered.
    ClaimTopicsExists,
    /// The topic is not registered.
    ClaimTopicsNotFound,
    /// No record is stored under the address that was asked for.
    StorageError,
    /// The stored state belongs to another contract.
    InvalidContract { expected: String, actual: String },
    /// The stored state is already at this version or a later one.
    AlreadyMigrated { current_version: String, new_version: String },
    /// A version is no semantic version.
    InvalidVersion,
}

/// What an error is to the contracts: its kind, and the rejected text
/// where it carries one.
pub enum ErrorView {
    Unauthorized,
    KeyAlreadyExists,
    KeyNotFound,
    ClaimAlreadyExists,
    ClaimNotFound,
    InvalidIssuerSignature,
    InvalidKeyType { key_type: Seq<char> },
    InvalidClaimTopic { topic: Seq<char> },
    ClaimTopicsExists,
    ClaimTopicsNotFound,
    StorageError,
    InvalidContract { expected: Seq<char>, actual: Seq<char> },
    AlreadyMigrated { current_version: Seq<char>, new_version: Seq<char> },
    InvalidVersion,
}

impl View for ContractError {
    type V = ErrorView;

    open spec fn view(&self) -> ErrorView {
        match self {
            ContractError::Unauthorized => ErrorView::Unauthorized,
            ContractError::KeyAlreadyExists => ErrorView::KeyAlreadyExists,
            ContractError::KeyNotFound => ErrorView::KeyNotFound,
            ContractError::ClaimAlreadyExists => ErrorView::ClaimAlreadyExists,
            ContractError::ClaimNotFound => ErrorView::ClaimNotFound,
            ContractError::InvalidIssuerSignature => ErrorView::InvalidIssuerSignature,
            ContractError::InvalidKeyType { key_type } => ErrorView::InvalidKeyType {
                key_type: key_type@,
            },
            ContractError::InvalidClaimTopic { topic } => ErrorView::InvalidClaimTopic {
                topic: topic@,
            },
            ContractError::ClaimTopicsExists => ErrorView::ClaimTopicsExists,
            ContractError::ClaimTopicsNotFound => ErrorView::ClaimTopicsNotFound,
            ContractError::StorageError => ErrorView::StorageError,
            ContractError::InvalidContract { expected, actual } => ErrorView::InvalidContract {
                expected: expected@,
                actual: actual@,
            },
            ContractError::AlreadyMigrated {
                current_version,
                new_version,
            } => ErrorView::AlreadyMigrated {
                current_version: current_version@,
                new_version: new_version@,
            },
            ContractError::InvalidVersion => ErrorView::InvalidVersion,
        }
    }
}

/// Whether an operation is meant to fail with `e`.
pub open spec fn refused<T>(outcome: Result<T, ErrorView>, e: ErrorView) -> bool {
    outcome matches Err(got) && got == e
}

/// Whether `r` is the failure `e`.
pub open spec fn fails_with<T>(r: Result<T, ContractError>, e: ErrorView) -> bool {
    r matches Err(got) && got@ == e
}

} // verus!
