//! Core of a Highway-style Byzantine-fault-tolerant consensus engine.
//!
//! Weighted validators exchange signed units that form an append-only DAG.
//! Each unit carries a panorama recording what its creator had observed from
//! every other validator.  Over that DAG the engine computes a deterministic
//! fork choice and summit-based finality, detects equivocation and
//! doppelgangers, and turns inbound messages and timer firings into explicit
//! protocol outcomes.  A small storage module holds the era's auction
//! bookkeeping accessors over a generic storage provider.

pub mod base;
pub mod crypto;
pub mod panorama;
pub mod units;
pub mod codec;
pub mod state;
pub mod synchronizer;
pub mod protocol;
pub mod store;
