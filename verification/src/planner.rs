//! The aggregated-operation planner: pure decision logic.
//!
//! Given the sealed blocks beyond the last block already affected by an
//! action type, each decision function decides whether enough pending work
//! has accumulated to emit a new aggregated operation, and constructs it
//! deterministically. Time enters as a plain seconds value so that every
//! decision is a function of its arguments alone.

use vstd::prelude::*;

use crate::aggregated_operations::{
    BlocksCommitOperation, BlocksCreateProofOperation, BlocksExecuteOperation, BlocksProofOperation,
};
use crate::block::Block;

verus! {

/// Most blocks a single commit or execute operation may carry.
pub const MAX_BLOCK_TO_COMMIT: usize = 5;

/// Seconds a pending block may wait before a commit (or proof, or execute)
/// is forced.
pub const BLOCK_COMMIT_DEADLINE_SECONDS: u64 = 10;

/// Gas budget of a single base-chain transaction.
pub const MAX_GAS_TX: u64 = 2_000_000;

/// The supported aggregate proof sizes, ascending.
pub fn available_aggregate_proof_sizes() -> (r: Vec<usize>)
    ensures
        r@.len() == 2,
        r@[0] == 1usize,
        r@[1] == 5usize,
{
    let mut v: Vec<usize> = Vec::new();
    v.push(1);
    v.push(5);
    v
}

/// The smaller of two mathematical integers.
pub open spec fn min_i(a: int, b: int) -> int {
    if a < b {
        a
    } else {
        b
    }
}

/// Whole seconds elapsed since `ts`, never negative.
pub open spec fn seconds_since(current_time: u64, ts: u64) -> int {
    if ts <= current_time {
        current_time - ts
    } else {
        0
    }
}

/// Some block among the first `considered` has waited strictly longer than
/// `deadline_seconds`.
pub open spec fn deadline_triggered(
    blocks: Seq<Block>,
    considered: int,
    current_time: u64,
    deadline_seconds: u64,
) -> bool {
    exists|i: int|
        0 <= i < considered && i < blocks.len() && seconds_since(
            current_time,
            #[trigger] blocks[i].timestamp,
        ) > deadline_seconds
}

/// The gas limits of a block list, for commit or for execute.
pub open spec fn gas_seq(blocks: Seq<Block>, verify: bool) -> Seq<u64> {
    blocks.map(
        |i: int, b: Block|
            if verify {
                b.verify_gas_limit
            } else {
                b.commit_gas_limit
            },
    )
}

/// Sum of the first `k` gas values.
pub open spec fn gas_prefix_sum(gas: Seq<u64>, k: int) -> int
    decreases k,
{
    if k <= 0 || k > gas.len() {
        0
    } else {
        gas_prefix_sum(gas, k - 1) + gas[k - 1]
    }
}

/// Greedy packing: how many blocks fit. The first block is always packed;
/// after that, packing stops before the running gas sum would exceed
/// `max_gas`.
pub open spec fn pack_count_from(gas: Seq<u64>, i: int, acc: int, max_gas: u64) -> int
    decreases gas.len() - i,
{
    if i < 0 || i >= gas.len() {
        i
    } else if i > 0 && acc + gas[i] > max_gas {
        i
    } else {
        pack_count_from(gas, i + 1, acc + gas[i], max_gas)
    }
}

/// Number of blocks the greedy packing selects out of `gas`.
pub open spec fn pack_count(gas: Seq<u64>, max_gas: u64) -> int {
    pack_count_from(gas, 0, 0, max_gas)
}

/// The commit decision fires: a deadline ran out, the considered prefix
/// reaches the gas budget, or at least `max_blocks` blocks are pending.
pub open spec fn commit_trigger(
    blocks: Seq<Block>,
    current_time: u64,
    max_blocks: int,
    deadline_seconds: u64,
    max_gas: u64,
    verify: bool,
) -> bool {
    let g = gas_seq(blocks, verify);
    ||| deadline_triggered(blocks, max_blocks, current_time, deadline_seconds)
    ||| gas_prefix_sum(g, min_i(max_blocks, blocks.len() as int)) >= max_gas
    ||| blocks.len() >= max_blocks
}

/// The block prefix a firing commit (or execute) decision packs.
pub open spec fn packed_prefix_len(blocks: Seq<Block>, max_blocks: int, max_gas: u64, verify: bool) -> int {
    pack_count(gas_seq(blocks, verify).take(min_i(max_blocks, blocks.len() as int)), max_gas)
}

proof fn lemma_gas_prefix_sum_monotone(gas: Seq<u64>, i: int, j: int)
    requires
        0 <= i <= j <= gas.len(),
    ensures
        gas_prefix_sum(gas, i) <= gas_prefix_sum(gas, j),
    decreases j - i,
{
    if i < j {
        lemma_gas_prefix_sum_monotone(gas, i, j - 1);
    }
}

proof fn lemma_gas_prefix_sum_take(gas: Seq<u64>, m: int, k: int)
    requires
        0 <= k <= m <= gas.len(),
    ensures
        gas_prefix_sum(gas.take(m), k) == gas_prefix_sum(gas, k),
    decreases k,
{
    if k > 0 {
        lemma_gas_prefix_sum_take(gas, m, k - 1);
    }
}

proof fn lemma_pack_count_from_bounds(gas: Seq<u64>, i: int, acc: int, max_gas: u64)
    requires
        0 <= i <= gas.len(),
    ensures
        i <= pack_count_from(gas, i, acc, max_gas) <= gas.len(),
        i == 0 && gas.len() > 0 ==> pack_count_from(gas, i, acc, max_gas) >= 1,
    decreases gas.len() - i,
{
    if i < gas.len() && !(i > 0 && acc + gas[i] > max_gas) {
        lemma_pack_count_from_bounds(gas, i + 1, acc + gas[i], max_gas);
    }
}

proof fn lemma_pack_count_from_gas(gas: Seq<u64>, i: int, max_gas: u64)
    requires
        0 <= i <= gas.len(),
        i > 1 ==> gas_prefix_sum(gas, i) <= max_gas,
    ensures
        ({
            let k = pack_count_from(gas, i, gas_prefix_sum(gas, i), max_gas);
            k <= 1 || gas_prefix_sum(gas, k) <= max_gas
        }),
    decreases gas.len() - i,
{
    let acc = gas_prefix_sum(gas, i);
    if i < gas.len() && !(i > 0 && acc + gas[i] > max_gas) {
        assert(gas_prefix_sum(gas, i + 1) == acc + gas[i]);
        lemma_pack_count_from_gas(gas, i + 1, max_gas);
    }
}

/// P1 support: the packed prefix is never empty and never exceeds the gas
/// budget, unless the very first block alone exceeds it, in which case
/// exactly that one block is packed.
pub proof fn lemma_pack_count_props(gas: Seq<u64>, max_gas: u64)
    requires
        gas.len() > 0,
    ensures
        1 <= pack_count(gas, max_gas) <= gas.len(),
        pack_count(gas, max_gas) == 1 || gas_prefix_sum(gas, pack_count(gas, max_gas)) <= max_gas,
{
    lemma_pack_count_from_bounds(gas, 0, 0, max_gas);
    lemma_pack_count_from_gas(gas, 0, max_gas);
}

/// Does some block among the first `limit` exceed the waiting deadline?
fn any_deadline_triggered(blocks: &Vec<Block>, limit: usize, current_time: u64, deadline_seconds: u64) -> (r:
    bool)
    ensures
        r == deadline_triggered(blocks@, limit as int, current_time, deadline_seconds),
{
    let mut i: usize = 0;
    while i < limit && i < blocks.len()
        invariant
            0 <= i,
            forall|j: int|
                0 <= j < i && j < blocks@.len() ==> seconds_since(
                    current_time,
                    #[trigger] blocks@[j].timestamp,
                ) <= deadline_seconds,
        decreases blocks@.len() - i,
    {
        let ts = blocks[i].timestamp;
        let waited: u64 = if ts <= current_time {
            current_time - ts
        } else {
            0
        };
        if waited > deadline_seconds {
            return true;
        }
        i = i + 1;
    }
    false
}

/// Does the gas of the considered prefix reach the budget?
fn gas_limit_reached(blocks: &Vec<Block>, limit: usize, max_gas: u64, verify: bool) -> (r: bool)
    ensures
        r == (gas_prefix_sum(gas_seq(blocks@, verify), min_i(limit as int, blocks@.len() as int))
            >= max_gas),
{
    let ghost g = gas_seq(blocks@, verify);
    let ghost considered = min_i(limit as int, blocks@.len() as int);
    let mut sum: u128 = 0;
    let mut i: usize = 0;
    while i < limit && i < blocks.len() && sum < max_gas as u128
        invariant
            0 <= i <= blocks@.len(),
            i <= limit,
            g == gas_seq(blocks@, verify),
            considered == min_i(limit as int, blocks@.len() as int),
            sum == gas_prefix_sum(g, i as int),
            sum < max_gas as u128 + 0x1_0000_0000_0000_0000u128,
        decreases blocks@.len() - i,
    {
        let gas: u64 = if verify {
            blocks[i].verify_gas_limit
        } else {
            blocks[i].commit_gas_limit
        };
        sum = sum + gas as u128;
        i = i + 1;
    }
    proof {
        if sum >= max_gas as u128 {
            lemma_gas_prefix_sum_monotone(g, i as int, considered);
        } else {
            assert(i as int == considered);
        }
    }
    sum >= max_gas as u128
}

/// Greedily pack blocks from the front, stopping before the running gas sum
/// would exceed `max_gas`; the first block is always packed.
fn pack_block_prefix(blocks: &Vec<Block>, limit: usize, max_gas: u64, verify: bool) -> (r: Vec<
    Block,
>)
    ensures
        r@ == blocks@.take(packed_prefix_len(blocks@, limit as int, max_gas, verify)),
{
    let ghost g = gas_seq(blocks@, verify).take(min_i(limit as int, blocks@.len() as int));
    let mut packed: Vec<Block> = Vec::new();
    let mut sum: u128 = 0;
    let mut i: usize = 0;
    while i < limit && i < blocks.len()
        invariant
            0 <= i <= blocks@.len(),
            i <= limit,
            g == gas_seq(blocks@, verify).take(min_i(limit as int, blocks@.len() as int)),
            g.len() == min_i(limit as int, blocks@.len() as int),
            packed@ == blocks@.take(i as int),
            sum == gas_prefix_sum(g, i as int),
            i <= 1 || sum <= max_gas as u128,
            i == 1 ==> sum < 0x1_0000_0000_0000_0000u128,
            pack_count_from(g, i as int, sum as int, max_gas) == pack_count(g, max_gas),
        ensures
            packed@ == blocks@.take(pack_count(g, max_gas)),
        decreases blocks@.len() - i,
    {
        let gas: u64 = if verify {
            blocks[i].verify_gas_limit
        } else {
            blocks[i].commit_gas_limit
        };
        proof {
            assert(g[i as int] == gas);
        }
        if i > 0 && sum + gas as u128 > max_gas as u128 {
            proof {
                assert(pack_count_from(g, i as int, sum as int, max_gas) == i as int);
            }
            break;
        }
        packed.push(blocks[i]);
        sum = sum + gas as u128;
        i = i + 1;
        proof {
            assert(packed@ =~= blocks@.take(i as int));
        }
    }
    packed
}

/// Decide whether to commit a prefix of the pending sealed blocks, and pack
/// it.
///
/// Fires when the oldest pending block has waited past the deadline, when
/// the considered prefix reaches the gas budget, or when at least
/// `max_blocks_to_commit` blocks are pending. The packed set is never empty
/// and keeps its cumulative commit gas within `max_gas_for_tx`, except that
/// a first block alone over the budget is packed by itself.
pub fn create_new_commit_operation(
    last_committed_block: &Block,
    new_blocks: &Vec<Block>,
    current_time: u64,
    max_blocks_to_commit: usize,
    block_commit_deadline: u64,
    max_gas_for_tx: u64,
) -> (r: Option<BlocksCommitOperation>)
    requires
        max_blocks_to_commit >= 1,
    ensures
        (r is Some) <==> (new_blocks@.len() > 0 && commit_trigger(
            new_blocks@,
            current_time,
            max_blocks_to_commit as int,
            block_commit_deadline,
            max_gas_for_tx,
            false,
        )),
        r matches Some(op) ==> {
            &&& op.last_committed_block == *last_committed_block
            &&& op.blocks@ == new_blocks@.take(
                packed_prefix_len(new_blocks@, max_blocks_to_commit as int, max_gas_for_tx, false),
            )
            &&& 0 < packed_prefix_len(new_blocks@, max_blocks_to_commit as int, max_gas_for_tx, false)
                <= min_i(max_blocks_to_commit as int, new_blocks@.len() as int)
            &&& op.blocks@.len() > 0
            &&& (op.blocks@.len() == 1 || gas_prefix_sum(
                gas_seq(new_blocks@, false),
                op.blocks@.len() as int,
            ) <= max_gas_for_tx)
        },
{
    let any_block_commit_deadline_triggered = any_deadline_triggered(
        new_blocks,
        max_blocks_to_commit,
        current_time,
        block_commit_deadline,
    );
    let gas_limit_reached_for_blocks = gas_limit_reached(
        new_blocks,
        max_blocks_to_commit,
        max_gas_for_tx,
        false,
    );

    let should_commit_blocks = any_block_commit_deadline_triggered || gas_limit_reached_for_blocks
        || new_blocks.len() >= max_blocks_to_commit;
    if !should_commit_blocks || new_blocks.len() == 0 {
        return None;
    }
    let blocks_to_commit = pack_block_prefix(
        new_blocks,
        max_blocks_to_commit,
        max_gas_for_tx,
        false,
    );
    proof {
        let g = gas_seq(new_blocks@, false).take(
            min_i(max_blocks_to_commit as int, new_blocks@.len() as int),
        );
        lemma_pack_count_props(g, max_gas_for_tx);
        let k = pack_count(g, max_gas_for_tx);
        lemma_gas_prefix_sum_take(
            gas_seq(new_blocks@, false),
            min_i(max_blocks_to_commit as int, new_blocks@.len() as int),
            k,
        );
    }
    Some(BlocksCommitOperation { last_committed_block: *last_committed_block, blocks: blocks_to_commit })
}

/// Decide whether to execute a prefix of the published-but-not-executed
/// blocks, and pack it.
///
/// Mirrors the commit decision, but budgets `verify_gas_limit` instead of
/// `commit_gas_limit`.
pub fn create_execute_blocks_operation(
    proven_non_executed_blocks: &Vec<Block>,
    current_time: u64,
    max_blocks_to_execute: usize,
    block_execute_deadline: u64,
    max_gas_for_tx: u64,
) -> (r: Option<BlocksExecuteOperation>)
    requires
        max_blocks_to_execute >= 1,
    ensures
        (r is Some) <==> (proven_non_executed_blocks@.len() > 0 && commit_trigger(
            proven_non_executed_blocks@,
            current_time,
            max_blocks_to_execute as int,
            block_execute_deadline,
            max_gas_for_tx,
            true,
        )),
        r matches Some(op) ==> {
            &&& op.blocks@ == proven_non_executed_blocks@.take(
                packed_prefix_len(
                    proven_non_executed_blocks@,
                    max_blocks_to_execute as int,
                    max_gas_for_tx,
                    true,
                ),
            )
            &&& 0 < packed_prefix_len(
                proven_non_executed_blocks@,
                max_blocks_to_execute as int,
                max_gas_for_tx,
                true,
            ) <= min_i(max_blocks_to_execute as int, proven_non_executed_blocks@.len() as int)
            &&& op.blocks@.len() > 0
            &&& (op.blocks@.len() == 1 || gas_prefix_sum(
                gas_seq(proven_non_executed_blocks@, true),
                op.blocks@.len() as int,
            ) <= max_gas_for_tx)
        },
{
    let any_block_execute_deadline_triggered = any_deadline_triggered(
        proven_non_executed_blocks,
        max_blocks_to_execute,
        current_time,
        block_execute_deadline,
    );
    let gas_limit_reached_for_blocks = gas_limit_reached(
        proven_non_executed_blocks,
        max_blocks_to_execute,
        max_gas_for_tx,
        true,
    );

    let should_execute_blocks = any_block_execute_deadline_triggered
        || gas_limit_reached_for_blocks || proven_non_executed_blocks.len()
        >= max_blocks_to_execute;
    if !should_execute_blocks || proven_non_executed_blocks.len() == 0 {
        return None;
    }
    let blocks_to_execute = pack_block_prefix(
        proven_non_executed_blocks,
        max_blocks_to_execute,
        max_gas_for_tx,
        true,
    );
    proof {
        let g = gas_seq(proven_non_executed_blocks@, true).take(
            min_i(max_blocks_to_execute as int, proven_non_executed_blocks@.len() as int),
        );
        lemma_pack_count_props(g, max_gas_for_tx);
        let k = pack_count(g, max_gas_for_tx);
        lemma_gas_prefix_sum_take(
            gas_seq(proven_non_executed_blocks@, true),
            min_i(max_blocks_to_execute as int, proven_non_executed_blocks@.len() as int),
            k,
        );
    }
    Some(BlocksExecuteOperation { blocks: blocks_to_execute })
}

/// The smallest size in an ascending list that is at least `n`; scanning
/// from the front finds it first.
pub open spec fn first_size_geq(sizes: Seq<usize>, n: int) -> int
    decreases sizes.len(),
{
    if sizes.len() == 0 {
        n
    } else if sizes[0] >= n {
        sizes[0] as int
    } else {
        first_size_geq(sizes.drop_first(), n)
    }
}

/// The create-proof decision fires: a deadline ran out among the considered
/// blocks, or the count of proven pending blocks reaches the largest
/// supported aggregate size.
pub open spec fn proof_trigger(
    blocks: Seq<Block>,
    max_size: int,
    current_time: u64,
    deadline_seconds: u64,
) -> bool {
    deadline_triggered(blocks, max_size, current_time, deadline_seconds) || blocks.len()
        >= max_size
}

proof fn lemma_first_size_geq(sizes: Seq<usize>, n: int)
    requires
        sizes.len() > 0,
        forall|i: int, j: int| 0 <= i < j < sizes.len() ==> sizes[i] < sizes[j],
        sizes.last() >= n,
    ensures
        ({
            let s = first_size_geq(sizes, n);
            &&& s >= n
            &&& exists|i: int| 0 <= i < sizes.len() && sizes[i] == s
            &&& forall|i: int| 0 <= i < sizes.len() && sizes[i] >= n ==> s <= sizes[i]
        }),
    decreases sizes.len(),
{
    if sizes[0] >= n {
        assert(sizes[0] == sizes[0 as int]);
    } else {
        let rest = sizes.drop_first();
        assert(rest.last() == sizes.last());
        lemma_first_size_geq(rest, n);
        let s = first_size_geq(rest, n);
        assert forall|i: int| 0 <= i < sizes.len() && sizes[i] >= n implies s <= sizes[i] by {
            if i > 0 {
                assert(rest[i - 1] == sizes[i]);
            }
        }
        assert(exists|i: int| 0 <= i < rest.len() && rest[i] == s);
        let w = choose|i: int| 0 <= i < rest.len() && rest[i] == s;
        assert(sizes[w + 1] == s);
    }
}

/// Decide whether to aggregate the proven pending blocks into a single
/// create-proof operation.
///
/// Considers at most the largest supported aggregate size. On firing,
/// selects the smallest supported size that still covers the considered
/// blocks and pads the difference with placeholder proof slots, so that
/// `proofs_to_pad + blocks.len()` equals the selected size exactly.
pub fn create_new_create_proof_operation(
    new_blocks_with_proofs: &Vec<Block>,
    available_aggregate_proof_sizes: &Vec<usize>,
    current_time: u64,
    block_verify_deadline: u64,
) -> (r: Option<BlocksCreateProofOperation>)
    requires
        available_aggregate_proof_sizes@.len() > 0,
        forall|i: int, j: int|
            0 <= i < j < available_aggregate_proof_sizes@.len()
                ==> available_aggregate_proof_sizes@[i] < available_aggregate_proof_sizes@[j],
        forall|i: int|
            0 <= i < available_aggregate_proof_sizes@.len()
                ==> #[trigger] available_aggregate_proof_sizes@[i] >= 1,
    ensures
        (r is Some) <==> proof_trigger(
            new_blocks_with_proofs@,
            available_aggregate_proof_sizes@.last() as int,
            current_time,
            block_verify_deadline,
        ),
        r matches Some(op) ==> {
            let avail = min_i(
                new_blocks_with_proofs@.len() as int,
                available_aggregate_proof_sizes@.last() as int,
            );
            let size = first_size_geq(available_aggregate_proof_sizes@, avail);
            &&& op.blocks@ == new_blocks_with_proofs@.take(avail)
            &&& op.blocks@.len() > 0
            &&& op.proofs_to_pad + op.blocks@.len() == size
            &&& exists|i: int|
                0 <= i < available_aggregate_proof_sizes@.len()
                    && available_aggregate_proof_sizes@[i] == size
            &&& forall|i: int|
                0 <= i < available_aggregate_proof_sizes@.len()
                    && #[trigger] available_aggregate_proof_sizes@[i] >= avail ==> size
                    <= available_aggregate_proof_sizes@[i]
        },
{
    let max_aggregate_size = available_aggregate_proof_sizes[available_aggregate_proof_sizes.len()
        - 1];

    let any_block_verify_deadline_triggered = any_deadline_triggered(
        new_blocks_with_proofs,
        max_aggregate_size,
        current_time,
        block_verify_deadline,
    );
    let can_create_max_aggregate_proof = new_blocks_with_proofs.len() >= max_aggregate_size;

    let should_create_aggregate_proof = any_block_verify_deadline_triggered
        || can_create_max_aggregate_proof;
    if !should_create_aggregate_proof {
        return None;
    }
    let available_count = if new_blocks_with_proofs.len() < max_aggregate_size {
        new_blocks_with_proofs.len()
    } else {
        max_aggregate_size
    };

    proof {
        assert(available_aggregate_proof_sizes@.skip(0) =~= available_aggregate_proof_sizes@);
    }
    // The smallest supported size that covers the considered blocks; the
    // scan finds it because the list ascends.
    let mut size_idx: usize = 0;
    while size_idx < available_aggregate_proof_sizes.len() - 1
        && available_aggregate_proof_sizes[size_idx] < available_count
        invariant
            0 <= size_idx < available_aggregate_proof_sizes@.len(),
            forall|i: int, j: int|
                0 <= i < j < available_aggregate_proof_sizes@.len()
                    ==> available_aggregate_proof_sizes@[i] < available_aggregate_proof_sizes@[j],
            first_size_geq(
                available_aggregate_proof_sizes@.skip(size_idx as int),
                available_count as int,
            ) == first_size_geq(available_aggregate_proof_sizes@, available_count as int),
        decreases available_aggregate_proof_sizes@.len() - size_idx,
    {
        proof {
            let rest = available_aggregate_proof_sizes@.skip(size_idx as int);
            assert(rest[0] == available_aggregate_proof_sizes@[size_idx as int]);
            assert(rest.drop_first() =~= available_aggregate_proof_sizes@.skip(
                size_idx as int + 1,
            ));
        }
        size_idx = size_idx + 1;
    }
    let aggregate_proof_size = available_aggregate_proof_sizes[size_idx];
    proof {
        let rest = available_aggregate_proof_sizes@.skip(size_idx as int);
        assert(rest[0] == available_aggregate_proof_sizes@[size_idx as int]);
        if size_idx as int == available_aggregate_proof_sizes@.len() - 1 {
            assert(available_aggregate_proof_sizes@.last() == aggregate_proof_size);
        }
        assert(rest[0] >= available_count);
        assert(first_size_geq(rest, available_count as int) == aggregate_proof_size);
        lemma_first_size_geq(available_aggregate_proof_sizes@, available_count as int);
    }

    let mut blocks: Vec<Block> = Vec::new();
    let mut i: usize = 0;
    while i < available_count
        invariant
            0 <= i <= available_count,
            available_count <= new_blocks_with_proofs@.len(),
            blocks@ == new_blocks_with_proofs@.take(i as int),
        decreases available_count - i,
    {
        blocks.push(new_blocks_with_proofs[i]);
        i = i + 1;
        proof {
            assert(blocks@ =~= new_blocks_with_proofs@.take(i as int));
        }
    }

    let proofs_to_pad = (aggregate_proof_size - available_count) as u64;
    Some(BlocksCreateProofOperation { blocks, proofs_to_pad })
}

/// Wrap an aggregated proof for the blocks of a pending create-proof
/// operation into a publishable operation. Not time or gas gated.
pub fn create_publish_proof_operation(
    unpublished_create_proof_op: &BlocksCreateProofOperation,
    aggregated_proof: &Vec<u8>,
) -> (r: BlocksProofOperation)
    ensures
        r.blocks@ == unpublished_create_proof_op.blocks@,
        r.proof@ == aggregated_proof@,
{
    BlocksProofOperation {
        blocks: unpublished_create_proof_op.blocks.clone(),
        proof: aggregated_proof.clone(),
    }
}

} // verus!
