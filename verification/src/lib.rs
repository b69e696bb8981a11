//! Operator backend core for a rollup-style layer-2 network.
//!
//! The library models the two hard subsystems of the operator: the
//! aggregated-operation planner, which batches sealed blocks into on-chain
//! commit / create-proof / publish-proof / execute operations under deadline,
//! gas and proof-size constraints, and the on-chain transaction sender state,
//! which tracks in-flight base-chain transactions, escalates gas prices and
//! reconciles confirmations against the persistent store.
//!
//! All state is modelled over an in-memory store so that every decision and
//! every store transition carries a verified contract; the process wiring,
//! the real database and the base-chain client live outside the library and
//! exchange plain values with it.

pub mod aggregated_operations;
pub mod block;
pub mod change_pubkey;
pub mod codec;
pub mod eth_sender;
pub mod helpers;
pub mod pass;
pub mod planner;
pub mod prover;
pub mod signer;
pub mod storage;
pub mod test_data;

use vstd::prelude::*;

verus! {

} // verus!
