//! Trust management for signed bearer tokens: a store of trusted signing
//! keys, key-manager keys and shared credentials kept up to date by domain
//! events, and the verification of RS256 JSON Web Tokens against it.
pub mod key_table;
pub mod trust_store;
pub mod codec;
pub mod crypto;
pub mod ssh_key;
pub mod token;
