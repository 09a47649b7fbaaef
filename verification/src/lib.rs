//! Argument marshalling and shielded-transaction authorization for a
//! privacy-preserving blockchain client.
//!
//! The crate decodes compact binary transaction messages into typed
//! argument descriptors (one decoder per transaction kind, all sharing the
//! common envelope builder) and, for transactions with a confidential
//! value-transfer section, plans and applies the per-spend authorization
//! signatures. The cryptographic primitives themselves — address and key
//! parsing, the signature scheme, the transaction digest — are external
//! collaborators; this crate holds the decisions around them.

pub mod amount;
pub mod args;
pub mod codec;
pub mod domain;
pub mod envelope;
pub mod errors;
pub mod msgs;
pub mod params;
pub mod sign;
