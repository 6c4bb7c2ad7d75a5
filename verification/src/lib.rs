//! A trustless two-party wager escrow.
//!
//! Two parties each commit a quantity of a fungible asset to a
//! deterministically addressed custody vault; a single resolution event
//! releases the pooled stake to the winner. The challenge lifecycle
//! (`Created -> Accepted -> Resolved`), the vault funding and payout rules,
//! and the value-conservation guarantees are stated as contracts and
//! verified; the host ledger's address derivation is taken from the
//! `solana-program` crate behind a trusted specification.

pub mod address;
pub mod errors;
pub mod seeds;
pub mod authority;
pub mod vault;
pub mod payout;
pub mod challenge;
pub mod escrow;
pub mod laws;
