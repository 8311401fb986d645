//! Attestation and event-nonce reconciliation for a cross-chain bridge.
//!
//! Validators observe events on a source chain and submit claims about them
//! to the destination chain. This crate holds the rules by which those claims
//! are ordered per validator, gathered into attestations, finalized at quorum,
//! watched for a halt, and realigned by a governance reset.

pub mod aggregator;
pub mod amount;
pub mod claim;
pub mod governance;
pub mod halt;
pub mod laws;
pub mod model;
pub mod monitor;
pub mod pipeline;
pub mod poll;
pub mod proposal;
pub mod stake;
pub mod tracker;
