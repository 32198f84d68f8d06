//! A deterministic transaction processor for a supply-chain provenance
//! ledger. Signed transactions carry typed payloads; each payload is
//! validated against the business rules and applied to a flat,
//! content-addressed key/value store of entity containers, so that every
//! honest node reaches the same state from the same input sequence.

pub mod addressing;
pub mod containers;
pub mod entities;
pub mod errors;
pub mod handler;
pub mod laws;
pub mod payload;
pub mod proposals;
pub mod records;
pub mod state;
pub mod strings_order;
