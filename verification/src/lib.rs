//! A verified escrow job ledger.
//!
//! The crate keeps a registry of jobs between a client and a freelancer.
//! Each job locks a positive amount and walks a fixed lifecycle:
//! it enters the registry in escrow and moves at most once, to completed
//! or to cancelled. Every mutating operation is guarded by an
//! [`authority::AuthorityGate`], which stands for the proofs of identity
//! that the surrounding execution environment collected for the call.

pub mod authority;
pub mod job;
pub mod laws;
pub mod registry;
