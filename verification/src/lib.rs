//! Oracle network core: price-observation consensus, a deterministic
//! settlement state machine, and canonical settlement-proof assembly.
//!
//! The crate decides "what price do we believe" (the consensus aggregator,
//! which fails closed) and "what settlement follows" (the oracle VM state
//! machine and the settlement prover). Exchange adapters, transport and
//! process wiring are callers of this crate, not part of it.

pub mod aggregator;
pub mod config;
pub mod errors;
pub mod hashing;
pub mod merkle;
pub mod prover;
pub mod signing;
pub mod types;
pub mod vm;
