//! Attribute-based authorization over authenticated identities.
//!
//! Identities hold vault-backed keys and are named by identifiers derived
//! from their public keys. An authority issues signed credentials binding a
//! subject identifier to an attribute set with an expiry. A credential
//! exchange worker verifies presented credentials against a set of trusted
//! authorities and records the verified attributes in an attribute store;
//! access-control gates consult that store on every message delivery.

pub mod access_control;
pub mod channel;
pub mod credential;
pub mod encoding;
pub mod error;
pub mod exchange;
pub mod identity;
pub mod kafka_outlet;
pub mod node;
pub mod storage;
pub mod trust_policy;
pub mod vault;
