//! Sealed rollup blocks.
//!
//! A block is immutable once sealed by the state keeper. The planner only
//! reads its number, its timestamp and its two gas limits; the state root is
//! carried as a plain numeric stand-in for the underlying field element.

use vstd::prelude::*;

verus! {

/// A sealed rollup block.
///
/// Block numbers are monotonic and gap-free; block number 0 is the genesis
/// block. Executed transactions belonging to the block are tracked in the
/// store's executed-transactions table, not inside the block itself.
#[derive(Clone, Copy, Debug, PartialEq, Eq, Structural)]
pub struct Block {
    /// Position of the block in the chain; gap-free, genesis is 0.
    pub block_number: u32,
    /// Seal time, in seconds.
    pub timestamp: u64,
    /// Number of chunks the block occupies in the circuit.
    pub block_chunks_size: u64,
    /// Gas needed to commit this block on the base chain.
    pub commit_gas_limit: u64,
    /// Gas needed to execute (verify) this block on the base chain.
    pub verify_gas_limit: u64,
    /// State-root commitment after this block, as a numeric stand-in.
    pub new_root_hash: u64,
    /// Account that collects the block's fees.
    pub fee_account: u32,
}

} // verus!
