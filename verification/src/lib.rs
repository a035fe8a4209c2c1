//! On-chain identity: typed keys, issuer-signed claims and a registry of
//! valid claim topics, with every state transition stated as a contract.

pub mod claim_management;
pub mod claim_topics;
pub mod codec;
pub mod contract;
pub mod error;
pub mod filtering;
pub mod key_management;
pub mod laws;
pub mod msg;
pub mod signature;
pub mod state;
pub mod store;
pub mod text;
pub mod version;
