//! Deterministic builders for store contents, used to fill a store for
//! exercising the planner and the sender. Values that would come from a
//! random source are taken as arguments instead, so every builder is a
//! function of its inputs alone.

use vstd::prelude::*;

use crate::block::Block;
use crate::change_pubkey::PubKeyHash;
use crate::helpers::Hash256;

verus! {

/// Block size used by the builders.
pub const BLOCK_SIZE_CHUNKS: u64 = 100;

/// The action a legacy per-block operation carries.
pub enum Action {
    Commit,
    Verify { proof: Vec<u8> },
}

/// A legacy per-block operation: one block with its action.
pub struct Operation {
    pub id: Option<i64>,
    pub action: Action,
    pub block: Block,
}

/// A dummy state root derived from the block number alone.
pub fn dummy_root_hash_for_block(block_number: u32) -> (r: u64)
    ensures
        r == block_number as u64,
{
    block_number as u64
}

/// A dummy base-chain transaction hash holding the operation id in its
/// first eight bytes, little-endian.
pub fn dummy_ethereum_tx_hash(ethereum_op_id: u64) -> (r: Hash256)
    ensures
        r.wf(),
        r.bytes@ == crate::codec::enc_u64(ethereum_op_id) + Seq::new(24, |i: int| 0u8),
{
    let mut bytes: Vec<u8> = Vec::new();
    crate::codec::push_u64_le(&mut bytes, ethereum_op_id);
    let mut i: usize = 0;
    while i < 24
        invariant
            0 <= i <= 24,
            bytes@ =~= crate::codec::enc_u64(ethereum_op_id) + Seq::new(i as nat, |j: int| 0u8),
        decreases 24 - i,
    {
        bytes.push(0u8);
        i = i + 1;
        proof {
            assert(bytes@ =~= crate::codec::enc_u64(ethereum_op_id) + Seq::new(
                i as nat,
                |j: int| 0u8,
            ));
        }
    }
    Hash256 { bytes }
}

/// A dummy operation whose block has the default root hash.
pub fn gen_operation(block_number: u32, action: Action, block_chunks_size: u64) -> (r: Operation)
    ensures
        r.id is None,
        r.block.block_number == block_number,
        r.block.block_chunks_size == block_chunks_size,
        r.block.commit_gas_limit == 1_000_000,
        r.block.verify_gas_limit == 1_500_000,
        r.block.new_root_hash == 0,
        r.block.timestamp == 0,
{
    Operation {
        id: None,
        action,
        block: Block {
            block_number,
            timestamp: 0,
            block_chunks_size,
            commit_gas_limit: 1_000_000,
            verify_gas_limit: 1_500_000,
            new_root_hash: 0,
            fee_account: 0,
        },
    }
}

/// A dummy operation whose block has a root hash unique to its number.
pub fn gen_unique_operation(block_number: u32, action: Action, block_chunks_size: u64) -> (r:
    Operation)
    ensures
        r.id is None,
        r.block.block_number == block_number,
        r.block.block_chunks_size == block_chunks_size,
        r.block.new_root_hash == block_number as u64,
{
    Operation {
        id: None,
        action,
        block: Block {
            block_number,
            timestamp: 0,
            block_chunks_size,
            commit_gas_limit: 1_000_000,
            verify_gas_limit: 1_500_000,
            new_root_hash: dummy_root_hash_for_block(block_number),
            fee_account: 0,
        },
    }
}

/// One step of an account's history.
pub enum AccountUpdate {
    Create { address: Vec<u8>, nonce: u32 },
    ChangePubKeyHash {
        old_nonce: u32,
        old_pub_key_hash: PubKeyHash,
        new_nonce: u32,
        new_pub_key_hash: PubKeyHash,
    },
    UpdateBalance { old_nonce: u32, new_nonce: u32, balance_update: (u16, u128, u128) },
}

/// An account's creation history from given values: create it, set its key
/// hash, then fund it, advancing the nonce one step per update. The id,
/// balance, nonce, key hash and address are the caller's to pick.
pub fn gen_acc_updates(
    id: u32,
    balance: u128,
    nonce: u32,
    pub_key_hash: PubKeyHash,
    address: Vec<u8>,
) -> (r: Vec<(u32, AccountUpdate)>)
    requires
        nonce <= 0xffff_fffd,
    ensures
        r@.len() == 3,
        r@[0].0 == id && r@[1].0 == id && r@[2].0 == id,
        (match r@[0].1 {
            AccountUpdate::Create { address: a, nonce: n } => n == nonce,
            _ => false,
        }),
        (match r@[1].1 {
            AccountUpdate::ChangePubKeyHash { old_nonce, new_nonce, .. } => old_nonce == nonce
                && new_nonce == nonce + 1,
            _ => false,
        }),
        (match r@[2].1 {
            AccountUpdate::UpdateBalance { old_nonce, new_nonce, balance_update } => old_nonce
                == nonce + 1 && new_nonce == nonce + 2 && balance_update.2 == balance,
            _ => false,
        }),
{
    let mut zero_hash: Vec<u8> = Vec::new();
    let mut i: usize = 0;
    while i < 20
        invariant
            0 <= i <= 20,
            zero_hash@.len() == i,
        decreases 20 - i,
    {
        zero_hash.push(0u8);
        i = i + 1;
    }
    let mut updates: Vec<(u32, AccountUpdate)> = Vec::new();
    updates.push((id, AccountUpdate::Create { address, nonce }));
    updates.push(
        (
            id,
            AccountUpdate::ChangePubKeyHash {
                old_nonce: nonce,
                old_pub_key_hash: PubKeyHash { data: zero_hash },
                new_nonce: nonce + 1,
                new_pub_key_hash: pub_key_hash,
            },
        ),
    );
    updates.push(
        (
            id,
            AccountUpdate::UpdateBalance {
                old_nonce: nonce + 1,
                new_nonce: nonce + 2,
                balance_update: (0, 0, balance),
            },
        ),
    );
    updates
}

} // verus!
