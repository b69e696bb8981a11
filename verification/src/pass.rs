//! The planner pass: re-evaluates each of the four decisions against the
//! store, persisting every operation that fires, in a fixed order
//! (commit, create-proof, publish-proof, execute), draining each decision
//! before moving to the next.
//!
//! A missing expected block or a malformed persisted operation is a fatal
//! invariant violation: the pass aborts with an explicit error instead of
//! silently skipping. Under the store's well-formedness invariant these
//! errors are proved unreachable.

use vstd::prelude::*;

use crate::aggregated_operations::{AggregatedActionType, AggregatedOperation};
use crate::block::Block;
use crate::planner::{
    available_aggregate_proof_sizes, commit_trigger, create_execute_blocks_operation,
    create_new_commit_operation, create_new_create_proof_operation, create_publish_proof_operation,
    min_i, packed_prefix_len, proof_trigger, BLOCK_COMMIT_DEADLINE_SECONDS, MAX_BLOCK_TO_COMMIT,
    MAX_GAS_TX,
};
use crate::storage::{
    agg_last_affected, agg_log_wf, lemma_agg_coverage, lemma_agg_last_affected_ge_member,
    lemma_agg_last_affected_nonneg, lemma_agg_last_affected_push, lemma_covering_op_unique,
    lemma_create_op_index_starts_at_boundary, lemma_op_wf_range, lemma_storage_log_len_small,
    publish_boundary_aligned, storage_wf, Storage, StoredAggregatedOperation,
};

verus! {

/// A fatal inconsistency of the persisted state.
#[derive(Clone, Copy, Debug, PartialEq, Eq, Structural)]
pub enum PlannerError {
    /// A block that the aggregate log refers to is missing from the ledger.
    MissingBlock,
    /// No create-proof operation covers the block past the publish boundary.
    MissingCreateProofOperation,
    /// The operation found at the publish boundary has the wrong type.
    UnexpectedOperationType,
}

/// The sealed blocks past the last block affected by the given action type.
pub open spec fn pending_after(s: Storage, ty: AggregatedActionType) -> Seq<Block> {
    s.blocks.blocks@.subrange(
        agg_last_affected(s.operations.aggregate_operations@, ty) + 1,
        s.blocks.blocks@.len() as int,
    )
}

/// The commit decision fires on the current store state.
pub open spec fn commit_fires(s: Storage, current_time: u64) -> bool {
    let la = agg_last_affected(
        s.operations.aggregate_operations@,
        AggregatedActionType::CommitBlocks,
    );
    &&& la < s.blocks.spec_last_sealed()
    &&& commit_trigger(
        pending_after(s, AggregatedActionType::CommitBlocks),
        current_time,
        MAX_BLOCK_TO_COMMIT as int,
        BLOCK_COMMIT_DEADLINE_SECONDS,
        MAX_GAS_TX,
        false,
    )
}

/// Is a single-block proof recorded for the block?
pub open spec fn has_single_proof(s: Storage, block_number: int) -> bool {
    exists|i: int|
        0 <= i < s.prover.single_proofs@.len() && (#[trigger] s.prover.single_proofs@[i]).0
            == block_number
}

/// Number of consecutive sealed blocks with single proofs, starting at `n`.
pub open spec fn proven_run_len(s: Storage, n: int) -> int
    decreases s.blocks.blocks@.len() - n when n <= s.blocks.blocks@.len()
{
    if n < 0 || n >= s.blocks.blocks@.len() || !has_single_proof(s, n) {
        0
    } else {
        1 + proven_run_len(s, n + 1)
    }
}

/// The maximal run of proven, sealed, not yet proof-aggregated blocks.
pub open spec fn proven_pending_blocks(s: Storage) -> Seq<Block> {
    let from = agg_last_affected(
        s.operations.aggregate_operations@,
        AggregatedActionType::CreateProofBlocks,
    ) + 1;
    s.blocks.blocks@.subrange(from, from + proven_run_len(s, from))
}

/// The create-proof decision fires on the current store state. The largest
/// supported aggregate size is the last entry of the supported size list.
pub open spec fn proof_fires(s: Storage, current_time: u64) -> bool {
    let lcp = agg_last_affected(
        s.operations.aggregate_operations@,
        AggregatedActionType::CreateProofBlocks,
    );
    &&& lcp < s.blocks.spec_last_sealed()
    &&& proof_trigger(
        proven_pending_blocks(s),
        5int,
        current_time,
        BLOCK_COMMIT_DEADLINE_SECONDS,
    )
}

/// The index of the create-proof operation covering the block right past
/// the publish boundary; meaningful when such an operation exists.
pub open spec fn publish_candidate_of(ops: Seq<StoredAggregatedOperation>) -> int {
    let b = agg_last_affected(ops, AggregatedActionType::PublishProofBlocksOnchain) + 1;
    choose|i: int|
        0 <= i < ops.len() && (#[trigger] ops[i]).operation.spec_action_type()
            == AggregatedActionType::CreateProofBlocks && ops[i].operation.spec_first_block() <= b
            && b <= ops[i].operation.spec_last_block()
}

/// The candidate index over a store.
pub open spec fn publish_candidate_index(s: Storage) -> int {
    publish_candidate_of(s.operations.aggregate_operations@)
}

/// Everything the publish step needs to know about an operation found to
/// cover the block right past the publish boundary.
proof fn lemma_unpublished_create_proof_facts(
    ops: Seq<StoredAggregatedOperation>,
    lp: int,
    w: int,
    op_blocks: Seq<Block>,
)
    requires
        agg_log_wf(ops),
        publish_boundary_aligned(ops),
        lp == agg_last_affected(ops, AggregatedActionType::PublishProofBlocksOnchain),
        lp < agg_last_affected(ops, AggregatedActionType::CreateProofBlocks),
        0 <= w < ops.len(),
        ops[w].operation.spec_action_type() == AggregatedActionType::CreateProofBlocks,
        ops[w].operation.spec_first_block() <= lp + 1,
        lp + 1 <= ops[w].operation.spec_last_block(),
        op_blocks == ops[w].operation.spec_blocks(),
    ensures
        w == publish_candidate_of(ops),
        op_blocks.len() > 0,
        forall|i: int|
            0 <= i < op_blocks.len() ==> (#[trigger] op_blocks[i]).block_number == lp + 1 + i,
        ops[w].operation.spec_first_block() == lp + 1,
        ops[w].operation.spec_last_block() == lp + op_blocks.len(),
        ops[w].operation.spec_last_block() <= agg_last_affected(
            ops,
            AggregatedActionType::CreateProofBlocks,
        ),
{
    lemma_create_op_index_starts_at_boundary(ops, lp + 1, w);
    lemma_covering_op_unique(
        ops,
        AggregatedActionType::CreateProofBlocks,
        lp + 1,
        w,
        publish_candidate_of(ops),
    );
    lemma_op_wf_range(ops[w].operation);
    assert(ops[w].operation.wf());
    assert(op_blocks[op_blocks.len() - 1] == ops[w].operation.spec_blocks().last());
    lemma_agg_last_affected_ge_member(
        ops,
        AggregatedActionType::CreateProofBlocks,
        w,
        ops.len() as int,
    );
    assert(ops.take(ops.len() as int) =~= ops);
}

/// Is an aggregated proof recorded for exactly this range?
pub open spec fn has_aggregated_proof(s: Storage, first: int, last: int) -> bool {
    exists|i: int|
        0 <= i < s.prover.aggregated_proofs@.len() && (#[trigger] s.prover.aggregated_proofs@[i]).0
            == first && s.prover.aggregated_proofs@[i].1 == last
}

/// The publish decision fires: an unpublished create-proof operation exists
/// and its aggregated proof is ready. Not time or gas gated.
pub open spec fn publish_fires(s: Storage) -> bool {
    let ops = s.operations.aggregate_operations@;
    let lp = agg_last_affected(ops, AggregatedActionType::PublishProofBlocksOnchain);
    let lcp = agg_last_affected(ops, AggregatedActionType::CreateProofBlocks);
    &&& lp < lcp
    &&& has_aggregated_proof(
        s,
        lp + 1,
        ops[publish_candidate_index(s)].operation.spec_last_block(),
    )
}

/// The execute decision fires on the current store state.
pub open spec fn execute_fires(s: Storage, current_time: u64) -> bool {
    let ops = s.operations.aggregate_operations@;
    let le = agg_last_affected(ops, AggregatedActionType::ExecuteBlocks);
    let lp = agg_last_affected(ops, AggregatedActionType::PublishProofBlocksOnchain);
    &&& le < lp
    &&& commit_trigger(
        published_pending_blocks(s),
        current_time,
        MAX_BLOCK_TO_COMMIT as int,
        BLOCK_COMMIT_DEADLINE_SECONDS,
        MAX_GAS_TX,
        true,
    )
}

/// The published-but-not-executed blocks.
pub open spec fn published_pending_blocks(s: Storage) -> Seq<Block> {
    let ops = s.operations.aggregate_operations@;
    s.blocks.blocks@.subrange(
        agg_last_affected(ops, AggregatedActionType::ExecuteBlocks) + 1,
        agg_last_affected(ops, AggregatedActionType::PublishProofBlocksOnchain) + 1,
    )
}

/// No decision fires: a further pass emits nothing.
pub open spec fn planner_quiescent(s: Storage, current_time: u64) -> bool {
    &&& !commit_fires(s, current_time)
    &&& !proof_fires(s, current_time)
    &&& !publish_fires(s)
    &&& !execute_fires(s, current_time)
}

/// Everything the planner never writes: the ledger, the proofs, the on-chain
/// transactions, and the per-block operations rows.
pub open spec fn planner_readonly_unchanged(a: Storage, b: Storage) -> bool {
    &&& b.blocks.blocks@ == a.blocks.blocks@
    &&& b.blocks.executed@ == a.blocks.executed@
    &&& b.prover.single_proofs@ == a.prover.single_proofs@
    &&& b.prover.aggregated_proofs@ == a.prover.aggregated_proofs@
    &&& b.ethereum.eth_ops@ == a.ethereum.eth_ops@
    &&& b.ethereum.gas_price_limit == a.ethereum.gas_price_limit
    &&& b.ethereum.average_gas_price == a.ethereum.average_gas_price
    &&& b.operations.operations@ == a.operations.operations@
}

proof fn lemma_proven_run_len_exact(s: Storage, a: int, b: int)
    requires
        0 <= a <= b <= s.blocks.blocks@.len(),
        forall|m: int| a <= m < b ==> has_single_proof(s, m),
        b == s.blocks.blocks@.len() || !has_single_proof(s, b),
    ensures
        proven_run_len(s, a) == b - a,
    decreases b - a,
{
    if a < b {
        lemma_proven_run_len_exact(s, a + 1, b);
    }
}

/// Push an aggregated operation and re-establish the storage invariant.
/// Returns nothing; all facts flow through the ensures.
proof fn lemma_storage_wf_after_push(pre: Storage, post: Storage, sao: StoredAggregatedOperation)
    requires
        storage_wf(pre),
        post.blocks.blocks@ == pre.blocks.blocks@,
        post.blocks.executed@ == pre.blocks.executed@,
        post.ethereum.eth_ops@ == pre.ethereum.eth_ops@,
        post.ethereum.gas_price_limit == pre.ethereum.gas_price_limit,
        post.ethereum.average_gas_price == pre.ethereum.average_gas_price,
        post.operations.wf(),
        post.operations.aggregate_operations@ == pre.operations.aggregate_operations@.push(sao),
        sao.operation.wf(),
        // The pushed range stays within what the stage before it allows.
        sao.operation.spec_action_type() == AggregatedActionType::CommitBlocks
            ==> sao.operation.spec_last_block() <= pre.blocks.spec_last_sealed(),
        sao.operation.spec_action_type() == AggregatedActionType::CreateProofBlocks
            ==> sao.operation.spec_last_block() <= pre.blocks.spec_last_sealed(),
        sao.operation.spec_action_type() == AggregatedActionType::PublishProofBlocksOnchain
            ==> sao.operation.spec_last_block() <= agg_last_affected(
            pre.operations.aggregate_operations@,
            AggregatedActionType::CreateProofBlocks,
        ) && (exists|i: int|
            0 <= i < pre.operations.aggregate_operations@.len() && (
            #[trigger] pre.operations.aggregate_operations@[i]).operation.spec_action_type()
                == AggregatedActionType::CreateProofBlocks
                && pre.operations.aggregate_operations@[i].operation.spec_last_block()
                == sao.operation.spec_last_block()),
        sao.operation.spec_action_type() == AggregatedActionType::ExecuteBlocks
            ==> sao.operation.spec_last_block() <= agg_last_affected(
            pre.operations.aggregate_operations@,
            AggregatedActionType::PublishProofBlocksOnchain,
        ),
    ensures
        storage_wf(post),
        forall|ty: AggregatedActionType|
            ty != sao.operation.spec_action_type() ==> agg_last_affected(
                post.operations.aggregate_operations@,
                ty,
            ) == agg_last_affected(pre.operations.aggregate_operations@, ty),
        agg_last_affected(
            post.operations.aggregate_operations@,
            sao.operation.spec_action_type(),
        ) == if sao.operation.spec_last_block() > agg_last_affected(
            pre.operations.aggregate_operations@,
            sao.operation.spec_action_type(),
        ) {
            sao.operation.spec_last_block()
        } else {
            agg_last_affected(pre.operations.aggregate_operations@, sao.operation.spec_action_type())
        },
{
    let pre_ops = pre.operations.aggregate_operations@;
    let post_ops = post.operations.aggregate_operations@;
    lemma_agg_last_affected_push(pre_ops, sao, AggregatedActionType::CommitBlocks);
    lemma_agg_last_affected_push(pre_ops, sao, AggregatedActionType::CreateProofBlocks);
    lemma_agg_last_affected_push(pre_ops, sao, AggregatedActionType::PublishProofBlocksOnchain);
    lemma_agg_last_affected_push(pre_ops, sao, AggregatedActionType::ExecuteBlocks);
    assert forall|ty: AggregatedActionType|
        ty != sao.operation.spec_action_type() implies agg_last_affected(post_ops, ty)
        == agg_last_affected(pre_ops, ty) by {
        lemma_agg_last_affected_push(pre_ops, sao, ty);
    }
    // Publish boundary alignment carries over: witnesses keep their indices.
    let lp_post = agg_last_affected(post_ops, AggregatedActionType::PublishProofBlocksOnchain);
    if lp_post != 0 {
        if sao.operation.spec_action_type() == AggregatedActionType::PublishProofBlocksOnchain
            && sao.operation.spec_last_block() == lp_post {
            let w = choose|i: int|
                0 <= i < pre_ops.len() && (#[trigger] pre_ops[i]).operation.spec_action_type()
                    == AggregatedActionType::CreateProofBlocks
                    && pre_ops[i].operation.spec_last_block() == sao.operation.spec_last_block();
            assert(post_ops[w] == pre_ops[w]);
            assert(publish_boundary_aligned(post_ops));
        } else {
            assert(lp_post == agg_last_affected(
                pre_ops,
                AggregatedActionType::PublishProofBlocksOnchain,
            ));
            let w = choose|i: int|
                0 <= i < pre_ops.len() && (#[trigger] pre_ops[i]).operation.spec_action_type()
                    == AggregatedActionType::CreateProofBlocks
                    && pre_ops[i].operation.spec_last_block() == lp_post;
            assert(post_ops[w] == pre_ops[w]);
            assert(publish_boundary_aligned(post_ops));
        }
    }
}

/// Collect the sealed blocks numbered `from ..= to`, in order.
fn collect_blocks(storage: &Storage, from: u64, to: u64) -> (r: Result<Vec<Block>, PlannerError>)
    requires
        storage.blocks.wf(),
        1 <= from,
        from <= to + 1,
        to <= storage.blocks.spec_last_sealed(),
    ensures
        r matches Ok(blocks) ==> blocks@ == storage.blocks.blocks@.subrange(
            from as int,
            to as int + 1,
        ),
        r is Ok,
{
    let mut new_blocks: Vec<Block> = Vec::new();
    let mut n: u64 = from;
    while n <= to
        invariant
            storage.blocks.wf(),
            from <= n <= to + 1,
            to <= storage.blocks.spec_last_sealed(),
            to < 0x1_0000_0000,
            new_blocks@ == storage.blocks.blocks@.subrange(from as int, n as int),
        decreases to + 1 - n,
    {
        let block = match storage.blocks.get_block(n as u32) {
            Option::Some(b) => b,
            Option::None => {
                return Err(PlannerError::MissingBlock);
            },
        };
        new_blocks.push(block);
        n = n + 1;
        proof {
            assert(new_blocks@ =~= storage.blocks.blocks@.subrange(from as int, n as int));
        }
    }
    Ok(new_blocks)
}

/// One commit decision against the store: gather the sealed blocks past the
/// last aggregate commit, run the commit decision, and persist the operation
/// when it fires. `Ok(true)` reports that one operation was persisted.
#[verifier::rlimit(100)]
#[verifier::spinoff_prover]
pub fn create_aggregated_commits_storage(storage: &mut Storage, current_time: u64) -> (r: Result<
    bool,
    PlannerError,
>)
    requires
        storage_wf(*old(storage)),
    ensures
        storage_wf(*final(storage)),
        r is Ok,
        r matches Ok(fired) ==> fired == commit_fires(*old(storage), current_time),
        !commit_fires(*old(storage), current_time) ==> *final(storage) == *old(storage),
        planner_readonly_unchanged(*old(storage), *final(storage)),
        commit_fires(*old(storage), current_time) ==> {
            let pre_ops = old(storage).operations.aggregate_operations@;
            let post_ops = final(storage).operations.aggregate_operations@;
            &&& post_ops.len() == pre_ops.len() + 1
            &&& post_ops.drop_last() == pre_ops
            &&& post_ops.last().operation.spec_action_type() == AggregatedActionType::CommitBlocks
            &&& post_ops.last().operation.spec_blocks() == pending_after(
                *old(storage),
                AggregatedActionType::CommitBlocks,
            ).take(
                packed_prefix_len(
                    pending_after(*old(storage), AggregatedActionType::CommitBlocks),
                    MAX_BLOCK_TO_COMMIT as int,
                    MAX_GAS_TX,
                    false,
                ),
            )
            &&& agg_last_affected(post_ops, AggregatedActionType::CommitBlocks)
                > agg_last_affected(pre_ops, AggregatedActionType::CommitBlocks)
            &&& forall|ty: AggregatedActionType|
                ty != AggregatedActionType::CommitBlocks ==> agg_last_affected(post_ops, ty)
                    == agg_last_affected(pre_ops, ty)
        },
{
    let ghost pre = *old(storage);
    let last_committed_block = storage.blocks.get_last_committed_block();
    let last_aggregate_committed_block =
        storage.operations.get_last_affected_block_by_aggregated_action(
        AggregatedActionType::CommitBlocks,
    );
    if last_committed_block <= last_aggregate_committed_block {
        return Ok(false);
    }
    let old_committed_block = match storage.blocks.get_block(last_aggregate_committed_block) {
        Option::Some(b) => b,
        Option::None => {
            return Err(PlannerError::MissingBlock);
        },
    };
    let new_blocks = match collect_blocks(
        storage,
        last_aggregate_committed_block as u64 + 1,
        last_committed_block as u64,
    ) {
        Result::Ok(blocks) => blocks,
        Result::Err(e) => {
            return Err(e);
        },
    };
    proof {
        assert(new_blocks@ == pending_after(pre, AggregatedActionType::CommitBlocks));
    }

    let commit_operation = create_new_commit_operation(
        &old_committed_block,
        &new_blocks,
        current_time,
        MAX_BLOCK_TO_COMMIT,
        BLOCK_COMMIT_DEADLINE_SECONDS,
        MAX_GAS_TX,
    );

    match commit_operation {
        Option::Some(op) => {
            let ghost la = last_aggregate_committed_block as int;
            let aggregated_op = AggregatedOperation::CommitBlocks(op);
            proof {
                let pending = pending_after(pre, AggregatedActionType::CommitBlocks);
                let packed = aggregated_op.spec_blocks();
                let k = packed_prefix_len(pending, MAX_BLOCK_TO_COMMIT as int, MAX_GAS_TX, false);
                assert(packed == pending.take(k));
                assert(0 < k <= pending.len());
                assert(packed.len() == k);
                assert forall|i: int| 0 <= i < packed.len() implies (#[trigger] packed[i]).block_number
                    == packed[0].block_number + i by {
                    assert(packed[i] == pending[i]);
                    assert(pending[i] == pre.blocks.blocks@[la + 1 + i]);
                    assert(packed[0] == pending[0]);
                    assert(pending[0] == pre.blocks.blocks@[la + 1]);
                }
                assert(aggregated_op.wf());
                assert(aggregated_op.spec_first_block() == la + 1);
            }
            let ghost sao = StoredAggregatedOperation {
                id: (storage.operations.aggregate_operations@.len() + 1) as i64,
                operation: aggregated_op,
                confirmed: false,
            };
            proof {
                lemma_op_wf_range(aggregated_op);
                let pending = pending_after(pre, AggregatedActionType::CommitBlocks);
                let packed = aggregated_op.spec_blocks();
                assert(aggregated_op.spec_last_block() == packed[packed.len() - 1].block_number);
                assert(packed[packed.len() - 1] == pending[packed.len() - 1]);
                assert(pending[packed.len() - 1] == pre.blocks.blocks@[la + packed.len()]);
                assert(aggregated_op.spec_last_block() == la + packed.len());
                assert(packed.len() <= pre.blocks.spec_last_sealed() - la);
            }
            proof {
                lemma_storage_log_len_small(pre);
            }
            storage.operations.store_aggregated_action(aggregated_op);
            proof {
                lemma_storage_wf_after_push(pre, *storage, sao);
                assert(storage.operations.aggregate_operations@.drop_last()
                    =~= pre.operations.aggregate_operations@);
            }
            Ok(true)
        },
        Option::None => Ok(false),
    }
}

/// One execute decision against the store: gather the published blocks past
/// the last aggregate execute, run the execute decision, and persist the
/// operation when it fires.
#[verifier::rlimit(100)]
#[verifier::spinoff_prover]
pub fn create_aggregated_execute_operation_storage(storage: &mut Storage, current_time: u64) -> (r:
    Result<bool, PlannerError>)
    requires
        storage_wf(*old(storage)),
    ensures
        storage_wf(*final(storage)),
        r is Ok,
        r matches Ok(fired) ==> fired == execute_fires(*old(storage), current_time),
        !execute_fires(*old(storage), current_time) ==> *final(storage) == *old(storage),
        planner_readonly_unchanged(*old(storage), *final(storage)),
        execute_fires(*old(storage), current_time) ==> {
            let pre_ops = old(storage).operations.aggregate_operations@;
            let post_ops = final(storage).operations.aggregate_operations@;
            &&& post_ops.len() == pre_ops.len() + 1
            &&& post_ops.drop_last() == pre_ops
            &&& post_ops.last().operation.spec_action_type() == AggregatedActionType::ExecuteBlocks
            &&& post_ops.last().operation.spec_blocks() == published_pending_blocks(
                *old(storage),
            ).take(
                packed_prefix_len(
                    published_pending_blocks(*old(storage)),
                    MAX_BLOCK_TO_COMMIT as int,
                    MAX_GAS_TX,
                    true,
                ),
            )
            &&& agg_last_affected(post_ops, AggregatedActionType::ExecuteBlocks)
                > agg_last_affected(pre_ops, AggregatedActionType::ExecuteBlocks)
            &&& forall|ty: AggregatedActionType|
                ty != AggregatedActionType::ExecuteBlocks ==> agg_last_affected(post_ops, ty)
                    == agg_last_affected(pre_ops, ty)
        },
{
    let ghost pre = *old(storage);
    let last_aggregate_executed_block =
        storage.operations.get_last_affected_block_by_aggregated_action(
        AggregatedActionType::ExecuteBlocks,
    );
    let last_aggregate_publish_proof_block =
        storage.operations.get_last_affected_block_by_aggregated_action(
        AggregatedActionType::PublishProofBlocksOnchain,
    );
    if last_aggregate_publish_proof_block <= last_aggregate_executed_block {
        return Ok(false);
    }
    let blocks = match collect_blocks(
        storage,
        last_aggregate_executed_block as u64 + 1,
        last_aggregate_publish_proof_block as u64,
    ) {
        Result::Ok(blocks) => blocks,
        Result::Err(e) => {
            return Err(e);
        },
    };
    proof {
        assert(blocks@ =~= published_pending_blocks(pre));
    }

    let execute_operation = create_execute_blocks_operation(
        &blocks,
        current_time,
        MAX_BLOCK_TO_COMMIT,
        BLOCK_COMMIT_DEADLINE_SECONDS,
        MAX_GAS_TX,
    );

    match execute_operation {
        Option::Some(op) => {
            persist_execute_operation(storage, op, last_aggregate_executed_block);
            Ok(true)
        },
        Option::None => Ok(false),
    }
}

/// Persist a freshly decided execute operation at the end of the log.
#[verifier::rlimit(100)]
#[verifier::spinoff_prover]
fn persist_execute_operation(
    storage: &mut Storage,
    op: crate::aggregated_operations::BlocksExecuteOperation,
    last_executed: u32,
)
    requires
        storage_wf(*old(storage)),
        ({
            let le = last_executed as int;
            let pending = published_pending_blocks(*old(storage));
            let k = packed_prefix_len(pending, MAX_BLOCK_TO_COMMIT as int, MAX_GAS_TX, true);
            &&& le == agg_last_affected(
                old(storage).operations.aggregate_operations@,
                AggregatedActionType::ExecuteBlocks,
            )
            &&& le < agg_last_affected(
                old(storage).operations.aggregate_operations@,
                AggregatedActionType::PublishProofBlocksOnchain,
            )
            &&& op.blocks@ == pending.take(k)
            &&& 0 < k <= pending.len()
        }),
    ensures
        storage_wf(*final(storage)),
        planner_readonly_unchanged(*old(storage), *final(storage)),
        ({
            let pre_ops = old(storage).operations.aggregate_operations@;
            let post_ops = final(storage).operations.aggregate_operations@;
            &&& post_ops.len() == pre_ops.len() + 1
            &&& post_ops.drop_last() == pre_ops
            &&& post_ops.last().operation.spec_action_type() == AggregatedActionType::ExecuteBlocks
            &&& post_ops.last().operation.spec_blocks() == published_pending_blocks(
                *old(storage),
            ).take(
                packed_prefix_len(
                    published_pending_blocks(*old(storage)),
                    MAX_BLOCK_TO_COMMIT as int,
                    MAX_GAS_TX,
                    true,
                ),
            )
            &&& agg_last_affected(post_ops, AggregatedActionType::ExecuteBlocks)
                > agg_last_affected(pre_ops, AggregatedActionType::ExecuteBlocks)
            &&& forall|ty: AggregatedActionType|
                ty != AggregatedActionType::ExecuteBlocks ==> agg_last_affected(post_ops, ty)
                    == agg_last_affected(pre_ops, ty)
        }),
{
    let ghost pre = *old(storage);
    let ghost le = last_executed as int;
    let aggregated_op = AggregatedOperation::ExecuteBlocks(op);
    proof {
        let pending = published_pending_blocks(pre);
        let packed = aggregated_op.spec_blocks();
        let k = packed_prefix_len(pending, MAX_BLOCK_TO_COMMIT as int, MAX_GAS_TX, true);
        assert(packed == pending.take(k));
        assert(packed.len() == k);
        assert forall|i: int| 0 <= i < packed.len() implies (#[trigger] packed[i]).block_number
            == packed[0].block_number + i by {
            assert(packed[i] == pending[i]);
            assert(pending[i] == pre.blocks.blocks@[le + 1 + i]);
            assert(packed[0] == pending[0]);
            assert(pending[0] == pre.blocks.blocks@[le + 1]);
        }
        assert(aggregated_op.wf());
        assert(aggregated_op.spec_first_block() == le + 1);
    }
    let ghost sao = StoredAggregatedOperation {
        id: (storage.operations.aggregate_operations@.len() + 1) as i64,
        operation: aggregated_op,
        confirmed: false,
    };
    proof {
        lemma_op_wf_range(aggregated_op);
        let pending = published_pending_blocks(pre);
        let packed = aggregated_op.spec_blocks();
        assert(aggregated_op.spec_last_block() == packed[packed.len() - 1].block_number);
        assert(packed[packed.len() - 1] == pending[packed.len() - 1]);
        assert(pending[packed.len() - 1] == pre.blocks.blocks@[le + packed.len()]);
        assert(aggregated_op.spec_last_block() == le + packed.len());
        lemma_storage_log_len_small(pre);
    }
    storage.operations.store_aggregated_action(aggregated_op);
    proof {
        lemma_storage_wf_after_push(pre, *storage, sao);
        assert(storage.operations.aggregate_operations@.drop_last()
            =~= pre.operations.aggregate_operations@);
    }
}

/// One create-proof decision against the store: gather the run of proven
/// blocks past the last aggregate proof, run the decision, and persist the
/// operation when it fires.
#[verifier::rlimit(100)]
#[verifier::spinoff_prover]
pub fn create_aggregated_prover_task_storage(storage: &mut Storage, current_time: u64) -> (r:
    Result<bool, PlannerError>)
    requires
        storage_wf(*old(storage)),
    ensures
        storage_wf(*final(storage)),
        r is Ok,
        r matches Ok(fired) ==> fired == proof_fires(*old(storage), current_time),
        !proof_fires(*old(storage), current_time) ==> *final(storage) == *old(storage),
        planner_readonly_unchanged(*old(storage), *final(storage)),
        proof_fires(*old(storage), current_time) ==> {
            let pre_ops = old(storage).operations.aggregate_operations@;
            let post_ops = final(storage).operations.aggregate_operations@;
            &&& post_ops.len() == pre_ops.len() + 1
            &&& post_ops.drop_last() == pre_ops
            &&& post_ops.last().operation.spec_action_type()
                == AggregatedActionType::CreateProofBlocks
            &&& post_ops.last().operation.spec_blocks() == proven_pending_blocks(
                *old(storage),
            ).take(min_i(proven_pending_blocks(*old(storage)).len() as int, 5int))
            &&& agg_last_affected(post_ops, AggregatedActionType::CreateProofBlocks)
                > agg_last_affected(pre_ops, AggregatedActionType::CreateProofBlocks)
            &&& forall|ty: AggregatedActionType|
                ty != AggregatedActionType::CreateProofBlocks ==> agg_last_affected(post_ops, ty)
                    == agg_last_affected(pre_ops, ty)
        },
{
    let ghost pre = *old(storage);
    let last_committed_block = storage.blocks.get_last_committed_block();
    let last_aggregate_create_proof_block =
        storage.operations.get_last_affected_block_by_aggregated_action(
        AggregatedActionType::CreateProofBlocks,
    );
    if last_committed_block <= last_aggregate_create_proof_block {
        return Ok(false);
    }
    let ghost lcp = last_aggregate_create_proof_block as int;

    let mut blocks_with_proofs: Vec<Block> = Vec::new();
    let mut n: u64 = last_aggregate_create_proof_block as u64 + 1;
    while n <= last_committed_block as u64
        invariant
            *storage == pre,
            storage_wf(pre),
            lcp + 1 <= n <= last_committed_block as u64 + 1,
            last_committed_block as int == pre.blocks.spec_last_sealed(),
            lcp == last_aggregate_create_proof_block as int,
            blocks_with_proofs@ == pre.blocks.blocks@.subrange(lcp + 1, n as int),
            forall|m: int| lcp + 1 <= m < n as int ==> has_single_proof(pre, m),
        ensures
            blocks_with_proofs@ == pre.blocks.blocks@.subrange(lcp + 1, n as int),
            forall|m: int| lcp + 1 <= m < n as int ==> has_single_proof(pre, m),
            n as int == pre.blocks.blocks@.len() || !has_single_proof(pre, n as int),
            lcp + 1 <= n <= last_committed_block as u64 + 1,
        decreases last_committed_block as u64 + 1 - n,
    {
        let proof_exists = storage.prover.load_proof(n as u32);
        if proof_exists {
            let block = match storage.blocks.get_block(n as u32) {
                Option::Some(b) => b,
                Option::None => {
                    return Err(PlannerError::MissingBlock);
                },
            };
            blocks_with_proofs.push(block);
            n = n + 1;
            proof {
                assert(blocks_with_proofs@ =~= pre.blocks.blocks@.subrange(lcp + 1, n as int));
            }
        } else {
            break;
        }
    }
    proof {
        lemma_proven_run_len_exact(pre, lcp + 1, n as int);
        assert(blocks_with_proofs@ == proven_pending_blocks(pre));
    }

    let available_sizes = available_aggregate_proof_sizes();
    proof {
        assert(available_sizes@.last() == 5usize);
        assert(forall|i: int, j: int|
            0 <= i < j < available_sizes@.len() ==> available_sizes@[i] < available_sizes@[j]);
        assert(forall|i: int|
            0 <= i < available_sizes@.len() ==> #[trigger] available_sizes@[i] >= 1);
    }
    let create_proof_operation = create_new_create_proof_operation(
        &blocks_with_proofs,
        &available_sizes,
        current_time,
        BLOCK_COMMIT_DEADLINE_SECONDS,
    );

    match create_proof_operation {
        Option::Some(op) => {
            let aggregated_op = AggregatedOperation::CreateProofBlocks(op);
            proof {
                let pending = proven_pending_blocks(pre);
                let packed = aggregated_op.spec_blocks();
                let avail = min_i(pending.len() as int, 5int);
                assert(packed == pending.take(avail));
                assert(0 < avail <= pending.len());
                assert(pending.len() <= pre.blocks.spec_last_sealed() - lcp);
                assert(packed.len() == avail);
                assert forall|i: int| 0 <= i < packed.len() implies (
                    #[trigger] packed[i]).block_number == packed[0].block_number + i by {
                    assert(packed[i] == pending[i]);
                    assert(pending[i] == pre.blocks.blocks@[lcp + 1 + i]);
                    assert(packed[0] == pending[0]);
                    assert(pending[0] == pre.blocks.blocks@[lcp + 1]);
                }
                assert(aggregated_op.wf());
                assert(aggregated_op.spec_first_block() == lcp + 1);
            }
            let ghost sao = StoredAggregatedOperation {
                id: (storage.operations.aggregate_operations@.len() + 1) as i64,
                operation: aggregated_op,
                confirmed: false,
            };
            proof {
                lemma_op_wf_range(aggregated_op);
                let pending = proven_pending_blocks(pre);
                let packed = aggregated_op.spec_blocks();
                assert(aggregated_op.spec_last_block() == packed[packed.len() - 1].block_number);
                assert(packed[packed.len() - 1] == pending[packed.len() - 1]);
                assert(pending[packed.len() - 1] == pre.blocks.blocks@[lcp + packed.len()]);
                assert(aggregated_op.spec_last_block() == lcp + packed.len());
                lemma_storage_log_len_small(pre);
            }
            storage.operations.store_aggregated_action(aggregated_op);
            proof {
                lemma_storage_wf_after_push(pre, *storage, sao);
                assert(storage.operations.aggregate_operations@.drop_last()
                    =~= pre.operations.aggregate_operations@);
            }
            Ok(true)
        },
        Option::None => Ok(false),
    }
}

/// Locate the oldest unpublished create-proof operation: the one whose
/// range starts right past the publish boundary.
#[verifier::rlimit(100)]
#[verifier::spinoff_prover]
fn find_unpublished_create_proof_operation(storage: &Storage, last_publish: u32) -> (r: Result<
    crate::aggregated_operations::BlocksCreateProofOperation,
    PlannerError,
>)
    requires
        storage_wf(*storage),
        last_publish as int == agg_last_affected(
            storage.operations.aggregate_operations@,
            AggregatedActionType::PublishProofBlocksOnchain,
        ),
        agg_last_affected(
            storage.operations.aggregate_operations@,
            AggregatedActionType::PublishProofBlocksOnchain,
        ) < agg_last_affected(
            storage.operations.aggregate_operations@,
            AggregatedActionType::CreateProofBlocks,
        ),
    ensures
        r is Ok,
        r matches Ok(op) ==> {
            let ops = storage.operations.aggregate_operations@;
            let c = publish_candidate_index(*storage);
            &&& 0 <= c < ops.len()
            &&& ops[c].operation.spec_action_type() == AggregatedActionType::CreateProofBlocks
            &&& op.blocks@ == ops[c].operation.spec_blocks()
            &&& op.blocks@.len() > 0
            &&& forall|i: int|
                0 <= i < op.blocks@.len() ==> (#[trigger] op.blocks@[i]).block_number
                    == last_publish as int + 1 + i
            &&& ops[c].operation.spec_first_block() == last_publish as int + 1
            &&& ops[c].operation.spec_last_block() == last_publish as int + op.blocks@.len()
            &&& ops[c].operation.spec_last_block() <= agg_last_affected(
                ops,
                AggregatedActionType::CreateProofBlocks,
            )
        },
{
    let ghost pre = *storage;
    let ghost lp = last_publish as int;
    proof {
        lemma_agg_coverage(
            pre.operations.aggregate_operations@,
            AggregatedActionType::CreateProofBlocks,
            lp + 1,
        );
    }
    let found = storage.operations.get_aggregated_op_that_affects_block(
        AggregatedActionType::CreateProofBlocks,
        last_publish + 1,
    );
    let (_op_id, aggregated_operation) = match found {
        Option::Some(pair) => pair,
        Option::None => {
            return Err(PlannerError::MissingCreateProofOperation);
        },
    };
    let ghost w = choose|i: int|
        0 <= i < pre.operations.aggregate_operations@.len() && (
        #[trigger] pre.operations.aggregate_operations@[i]).operation.spec_action_type()
            == AggregatedActionType::CreateProofBlocks
            && pre.operations.aggregate_operations@[i].operation.spec_eq(aggregated_operation)
            && pre.operations.aggregate_operations@[i].operation.spec_first_block() <= lp + 1 && lp
            + 1 <= pre.operations.aggregate_operations@[i].operation.spec_last_block();
    proof {
        let pre_ops = pre.operations.aggregate_operations@;
        assert(pre_ops[w].operation.spec_blocks() == aggregated_operation.spec_blocks());
        lemma_unpublished_create_proof_facts(
            pre_ops,
            lp,
            w,
            aggregated_operation.spec_blocks(),
        );
    }
    match aggregated_operation {
        AggregatedOperation::CreateProofBlocks(create_proof_blocks) => Ok(create_proof_blocks),
        _ => Err(PlannerError::UnexpectedOperationType),
    }
}

/// Persist a publish operation wrapping the aggregated proof of the found
/// create-proof operation.
#[verifier::rlimit(100)]
#[verifier::spinoff_prover]
fn persist_publish_operation(
    storage: &mut Storage,
    create_proof_op: &crate::aggregated_operations::BlocksCreateProofOperation,
    proof_bytes: &Vec<u8>,
    last_publish: u32,
)
    requires
        storage_wf(*old(storage)),
        ({
            let ops = old(storage).operations.aggregate_operations@;
            let lp = last_publish as int;
            let c = publish_candidate_of(ops);
            &&& lp == agg_last_affected(ops, AggregatedActionType::PublishProofBlocksOnchain)
            &&& lp < agg_last_affected(ops, AggregatedActionType::CreateProofBlocks)
            &&& 0 <= c < ops.len()
            &&& ops[c].operation.spec_action_type() == AggregatedActionType::CreateProofBlocks
            &&& create_proof_op.blocks@ == ops[c].operation.spec_blocks()
            &&& create_proof_op.blocks@.len() > 0
            &&& forall|i: int|
                0 <= i < create_proof_op.blocks@.len() ==> (
                #[trigger] create_proof_op.blocks@[i]).block_number == lp + 1 + i
            &&& ops[c].operation.spec_first_block() == lp + 1
            &&& ops[c].operation.spec_last_block() == lp + create_proof_op.blocks@.len()
            &&& ops[c].operation.spec_last_block() <= agg_last_affected(
                ops,
                AggregatedActionType::CreateProofBlocks,
            )
        }),
    ensures
        storage_wf(*final(storage)),
        planner_readonly_unchanged(*old(storage), *final(storage)),
        ({
            let pre_ops = old(storage).operations.aggregate_operations@;
            let post_ops = final(storage).operations.aggregate_operations@;
            &&& post_ops.len() == pre_ops.len() + 1
            &&& post_ops.drop_last() == pre_ops
            &&& post_ops.last().operation.spec_action_type()
                == AggregatedActionType::PublishProofBlocksOnchain
            &&& post_ops.last().operation.spec_blocks() == pre_ops[publish_candidate_of(
                pre_ops,
            )].operation.spec_blocks()
            &&& agg_last_affected(post_ops, AggregatedActionType::PublishProofBlocksOnchain)
                > agg_last_affected(pre_ops, AggregatedActionType::PublishProofBlocksOnchain)
            &&& forall|ty: AggregatedActionType|
                ty != AggregatedActionType::PublishProofBlocksOnchain ==> agg_last_affected(
                    post_ops,
                    ty,
                ) == agg_last_affected(pre_ops, ty)
        }),
{
    let ghost pre = *old(storage);
    let ghost lp = last_publish as int;
    let ghost c = publish_candidate_of(pre.operations.aggregate_operations@);
    let op = create_publish_proof_operation(create_proof_op, proof_bytes);
    let aggregated_op = AggregatedOperation::PublishProofBlocksOnchain(op);
    proof {
        let pre_ops = pre.operations.aggregate_operations@;
        let stored = pre_ops[c].operation;
        let packed = aggregated_op.spec_blocks();
        assert(packed == stored.spec_blocks());
        assert(packed.len() > 0);
        assert forall|i: int| 0 <= i < packed.len() implies (#[trigger] packed[i]).block_number
            == packed[0].block_number + i by {
            assert(packed[i].block_number == lp + 1 + i);
            assert(packed[0].block_number == lp + 1);
        }
        assert(aggregated_op.wf());
        assert(aggregated_op.spec_first_block() == lp + 1);
        assert(aggregated_op.spec_last_block() == packed[packed.len() - 1].block_number);
        assert(aggregated_op.spec_last_block() == lp + packed.len());
        assert(aggregated_op.spec_last_block() == stored.spec_last_block());
        assert(stored.spec_action_type() == AggregatedActionType::CreateProofBlocks
            && stored.spec_last_block() == aggregated_op.spec_last_block());
        lemma_storage_log_len_small(pre);
    }
    let ghost sao = StoredAggregatedOperation {
        id: (storage.operations.aggregate_operations@.len() + 1) as i64,
        operation: aggregated_op,
        confirmed: false,
    };
    storage.operations.store_aggregated_action(aggregated_op);
    proof {
        lemma_storage_wf_after_push(pre, *storage, sao);
        assert(storage.operations.aggregate_operations@.drop_last()
            =~= pre.operations.aggregate_operations@);
    }
}

/// One publish decision against the store: find the oldest unpublished
/// create-proof operation and, when its aggregated proof is ready, wrap the
/// proof into a publish operation and persist it. Not time or gas gated.
#[verifier::rlimit(100)]
#[verifier::spinoff_prover]
pub fn create_aggregated_publish_proof_operation_storage(storage: &mut Storage) -> (r: Result<
    bool,
    PlannerError,
>)
    requires
        storage_wf(*old(storage)),
    ensures
        storage_wf(*final(storage)),
        r is Ok,
        r matches Ok(fired) ==> fired == publish_fires(*old(storage)),
        !publish_fires(*old(storage)) ==> *final(storage) == *old(storage),
        planner_readonly_unchanged(*old(storage), *final(storage)),
        publish_fires(*old(storage)) ==> {
            let pre_ops = old(storage).operations.aggregate_operations@;
            let post_ops = final(storage).operations.aggregate_operations@;
            &&& post_ops.len() == pre_ops.len() + 1
            &&& post_ops.drop_last() == pre_ops
            &&& post_ops.last().operation.spec_action_type()
                == AggregatedActionType::PublishProofBlocksOnchain
            &&& post_ops.last().operation.spec_blocks() == pre_ops[publish_candidate_index(
                *old(storage),
            )].operation.spec_blocks()
            &&& agg_last_affected(post_ops, AggregatedActionType::PublishProofBlocksOnchain)
                > agg_last_affected(pre_ops, AggregatedActionType::PublishProofBlocksOnchain)
            &&& forall|ty: AggregatedActionType|
                ty != AggregatedActionType::PublishProofBlocksOnchain ==> agg_last_affected(
                    post_ops,
                    ty,
                ) == agg_last_affected(pre_ops, ty)
        },
{
    let ghost pre = *old(storage);
    let last_aggregate_create_proof_block =
        storage.operations.get_last_affected_block_by_aggregated_action(
        AggregatedActionType::CreateProofBlocks,
    );
    let last_aggregate_publish_proof_block =
        storage.operations.get_last_affected_block_by_aggregated_action(
        AggregatedActionType::PublishProofBlocksOnchain,
    );
    if last_aggregate_create_proof_block <= last_aggregate_publish_proof_block {
        return Ok(false);
    }
    let ghost lp = last_aggregate_publish_proof_block as int;
    let last_unpublished_create_proof_operation = match find_unpublished_create_proof_operation(
        storage,
        last_aggregate_publish_proof_block,
    ) {
        Result::Ok(op) => op,
        Result::Err(e) => {
            return Err(e);
        },
    };
    let ghost c = publish_candidate_index(pre);

    let first_block = last_unpublished_create_proof_operation.blocks[0].block_number;
    let last_block = last_unpublished_create_proof_operation.blocks[
        last_unpublished_create_proof_operation.blocks.len() - 1
    ].block_number;

    let aggregated_proof = storage.prover.load_aggregated_proof(first_block, last_block);

    match aggregated_proof {
        Option::Some(proof_bytes) => {
            persist_publish_operation(
                storage,
                &last_unpublished_create_proof_operation,
                &proof_bytes,
                last_aggregate_publish_proof_block,
            );
            Ok(true)
        },
        Option::None => Ok(false),
    }
}

/// The proven-run length reads only the ledger and the single proofs.
proof fn lemma_proven_run_len_frame(a: Storage, b: Storage, n: int)
    requires
        n <= a.blocks.blocks@.len(),
        a.blocks.blocks@ == b.blocks.blocks@,
        a.prover.single_proofs@ == b.prover.single_proofs@,
    ensures
        proven_run_len(a, n) == proven_run_len(b, n),
    decreases a.blocks.blocks@.len() - n,
{
    if 0 <= n < a.blocks.blocks@.len() {
        assert(has_single_proof(a, n) == has_single_proof(b, n));
        if has_single_proof(a, n) {
            lemma_proven_run_len_frame(a, b, n + 1);
        }
    }
}

/// Appending an operation that is not a create-proof operation, while the
/// publish and create-proof marks stay put, leaves the covering operation at
/// the publish boundary the same.
#[verifier::rlimit(100)]
#[verifier::spinoff_prover]
proof fn lemma_publish_candidate_frame(
    pre_ops: Seq<StoredAggregatedOperation>,
    post_ops: Seq<StoredAggregatedOperation>,
)
    requires
        agg_log_wf(pre_ops),
        post_ops.len() == pre_ops.len() + 1,
        post_ops.drop_last() == pre_ops,
        post_ops.last().operation.spec_action_type() != AggregatedActionType::CreateProofBlocks,
        agg_last_affected(post_ops, AggregatedActionType::PublishProofBlocksOnchain)
            == agg_last_affected(pre_ops, AggregatedActionType::PublishProofBlocksOnchain),
        agg_last_affected(post_ops, AggregatedActionType::CreateProofBlocks) == agg_last_affected(
            pre_ops,
            AggregatedActionType::CreateProofBlocks,
        ),
        agg_last_affected(pre_ops, AggregatedActionType::PublishProofBlocksOnchain)
            < agg_last_affected(pre_ops, AggregatedActionType::CreateProofBlocks),
    ensures
        ({
            let c_pre = publish_candidate_of(pre_ops);
            let c_post = publish_candidate_of(post_ops);
            &&& 0 <= c_pre < pre_ops.len()
            &&& 0 <= c_post < post_ops.len()
            &&& pre_ops[c_pre] == post_ops[c_post]
        }),
{
    let lp = agg_last_affected(pre_ops, AggregatedActionType::PublishProofBlocksOnchain);
    lemma_agg_last_affected_nonneg(pre_ops, AggregatedActionType::PublishProofBlocksOnchain);
    lemma_agg_coverage(pre_ops, AggregatedActionType::CreateProofBlocks, lp + 1);
    let c_pre = publish_candidate_of(pre_ops);
    assert(0 <= c_pre < pre_ops.len() && pre_ops[c_pre].operation.spec_action_type()
        == AggregatedActionType::CreateProofBlocks && pre_ops[c_pre].operation.spec_first_block()
        <= lp + 1 && lp + 1 <= pre_ops[c_pre].operation.spec_last_block());
    assert(post_ops[c_pre] == pre_ops[c_pre]);
    // The old witness still covers the boundary in the longer log.
    assert(0 <= c_pre < post_ops.len() && post_ops[c_pre].operation.spec_action_type()
        == AggregatedActionType::CreateProofBlocks && post_ops[c_pre].operation.spec_first_block()
        <= lp + 1 && lp + 1 <= post_ops[c_pre].operation.spec_last_block());
    let c_post = publish_candidate_of(post_ops);
    assert(0 <= c_post < post_ops.len() && post_ops[c_post].operation.spec_action_type()
        == AggregatedActionType::CreateProofBlocks && post_ops[c_post].operation.spec_first_block()
        <= lp + 1 && lp + 1 <= post_ops[c_post].operation.spec_last_block());
    assert(c_post < pre_ops.len());
    assert(post_ops[c_post] == pre_ops[c_post]);
    lemma_covering_op_unique(pre_ops, AggregatedActionType::CreateProofBlocks, lp + 1, c_pre, c_post);
}

/// Appending an operation that is neither a create-proof nor a publish
/// operation leaves the publish decision unchanged.
#[verifier::rlimit(100)]
#[verifier::spinoff_prover]
proof fn lemma_publish_fires_frame(pre: Storage, post: Storage)
    requires
        agg_log_wf(pre.operations.aggregate_operations@),
        agg_log_wf(post.operations.aggregate_operations@),
        post.operations.aggregate_operations@.len() == pre.operations.aggregate_operations@.len()
            + 1,
        post.operations.aggregate_operations@.drop_last()
            == pre.operations.aggregate_operations@,
        post.operations.aggregate_operations@.last().operation.spec_action_type()
            != AggregatedActionType::CreateProofBlocks,
        agg_last_affected(
            post.operations.aggregate_operations@,
            AggregatedActionType::PublishProofBlocksOnchain,
        ) == agg_last_affected(
            pre.operations.aggregate_operations@,
            AggregatedActionType::PublishProofBlocksOnchain,
        ),
        agg_last_affected(
            post.operations.aggregate_operations@,
            AggregatedActionType::CreateProofBlocks,
        ) == agg_last_affected(
            pre.operations.aggregate_operations@,
            AggregatedActionType::CreateProofBlocks,
        ),
        post.prover.aggregated_proofs@ == pre.prover.aggregated_proofs@,
    ensures
        publish_fires(post) == publish_fires(pre),
{
    let pre_ops = pre.operations.aggregate_operations@;
    let post_ops = post.operations.aggregate_operations@;
    let lp = agg_last_affected(pre_ops, AggregatedActionType::PublishProofBlocksOnchain);
    let lcp = agg_last_affected(pre_ops, AggregatedActionType::CreateProofBlocks);
    if lp < lcp {
        lemma_publish_candidate_frame(pre_ops, post_ops);
        assert(post_ops[publish_candidate_of(post_ops)].operation.spec_last_block()
            == pre_ops[publish_candidate_of(pre_ops)].operation.spec_last_block());
    }
}

/// One full planner pass: drain each of the four decisions in order until
/// none fires. After the pass the store is quiescent: running the pass again
/// with no new sealed blocks, proofs and time produces no new operations.
#[verifier::rlimit(100)]
#[verifier::spinoff_prover]
pub fn create_aggregated_operations_storage(storage: &mut Storage, current_time: u64) -> (r:
    Result<(), PlannerError>)
    requires
        storage_wf(*old(storage)),
    ensures
        storage_wf(*final(storage)),
        r is Ok,
        planner_quiescent(*final(storage), current_time),
        planner_readonly_unchanged(*old(storage), *final(storage)),
        planner_quiescent(*old(storage), current_time) ==> *final(storage) == *old(storage),
{
    let ghost orig = *old(storage);
    loop
        invariant
            storage_wf(*storage),
            planner_readonly_unchanged(orig, *storage),
            planner_quiescent(orig, current_time) ==> *storage == orig,
        ensures
            storage_wf(*storage),
            planner_readonly_unchanged(orig, *storage),
            planner_quiescent(orig, current_time) ==> *storage == orig,
            !commit_fires(*storage, current_time),
        decreases storage.blocks.blocks@.len() - agg_last_affected(
            storage.operations.aggregate_operations@,
            AggregatedActionType::CommitBlocks,
        ),
    {
        let ghost prev = *storage;
        let fired = match create_aggregated_commits_storage(storage, current_time) {
            Result::Ok(f) => f,
            Result::Err(e) => {
                return Err(e);
            },
        };
        if !fired {
            break;
        }
        proof {
            lemma_agg_last_affected_nonneg(
                storage.operations.aggregate_operations@,
                AggregatedActionType::CommitBlocks,
            );
        }
    }
    loop
        invariant
            storage_wf(*storage),
            planner_readonly_unchanged(orig, *storage),
            planner_quiescent(orig, current_time) ==> *storage == orig,
            !commit_fires(*storage, current_time),
        ensures
            storage_wf(*storage),
            planner_readonly_unchanged(orig, *storage),
            planner_quiescent(orig, current_time) ==> *storage == orig,
            !commit_fires(*storage, current_time),
            !proof_fires(*storage, current_time),
        decreases storage.blocks.blocks@.len() - agg_last_affected(
            storage.operations.aggregate_operations@,
            AggregatedActionType::CreateProofBlocks,
        ),
    {
        let ghost prev = *storage;
        let fired = match create_aggregated_prover_task_storage(storage, current_time) {
            Result::Ok(f) => f,
            Result::Err(e) => {
                return Err(e);
            },
        };
        if !fired {
            break;
        }
        proof {
            assert(pending_after(*storage, AggregatedActionType::CommitBlocks) == pending_after(
                prev,
                AggregatedActionType::CommitBlocks,
            ));
            assert(commit_fires(*storage, current_time) == commit_fires(prev, current_time));
            lemma_agg_last_affected_nonneg(
                storage.operations.aggregate_operations@,
                AggregatedActionType::CreateProofBlocks,
            );
        }
    }
    loop
        invariant
            storage_wf(*storage),
            planner_readonly_unchanged(orig, *storage),
            planner_quiescent(orig, current_time) ==> *storage == orig,
            !commit_fires(*storage, current_time),
            !proof_fires(*storage, current_time),
        ensures
            storage_wf(*storage),
            planner_readonly_unchanged(orig, *storage),
            planner_quiescent(orig, current_time) ==> *storage == orig,
            !commit_fires(*storage, current_time),
            !proof_fires(*storage, current_time),
            !publish_fires(*storage),
        decreases agg_last_affected(
            storage.operations.aggregate_operations@,
            AggregatedActionType::CreateProofBlocks,
        ) - agg_last_affected(
            storage.operations.aggregate_operations@,
            AggregatedActionType::PublishProofBlocksOnchain,
        ),
    {
        let ghost prev = *storage;
        let fired = match create_aggregated_publish_proof_operation_storage(storage) {
            Result::Ok(f) => f,
            Result::Err(e) => {
                return Err(e);
            },
        };
        if !fired {
            break;
        }
        proof {
            assert(pending_after(*storage, AggregatedActionType::CommitBlocks) == pending_after(
                prev,
                AggregatedActionType::CommitBlocks,
            ));
            assert(commit_fires(*storage, current_time) == commit_fires(prev, current_time));
            lemma_proven_run_len_frame(
                *storage,
                prev,
                agg_last_affected(
                    storage.operations.aggregate_operations@,
                    AggregatedActionType::CreateProofBlocks,
                ) + 1,
            );
            assert(proven_pending_blocks(*storage) == proven_pending_blocks(prev));
            assert(proof_fires(*storage, current_time) == proof_fires(prev, current_time));
            lemma_agg_last_affected_nonneg(
                storage.operations.aggregate_operations@,
                AggregatedActionType::PublishProofBlocksOnchain,
            );
        }
    }
    loop
        invariant
            storage_wf(*storage),
            planner_readonly_unchanged(orig, *storage),
            planner_quiescent(orig, current_time) ==> *storage == orig,
            !commit_fires(*storage, current_time),
            !proof_fires(*storage, current_time),
            !publish_fires(*storage),
        ensures
            storage_wf(*storage),
            planner_readonly_unchanged(orig, *storage),
            planner_quiescent(orig, current_time) ==> *storage == orig,
            planner_quiescent(*storage, current_time),
        decreases agg_last_affected(
            storage.operations.aggregate_operations@,
            AggregatedActionType::PublishProofBlocksOnchain,
        ) - agg_last_affected(
            storage.operations.aggregate_operations@,
            AggregatedActionType::ExecuteBlocks,
        ),
    {
        let ghost prev = *storage;
        let fired = match create_aggregated_execute_operation_storage(storage, current_time) {
            Result::Ok(f) => f,
            Result::Err(e) => {
                return Err(e);
            },
        };
        if !fired {
            break;
        }
        proof {
            assert(pending_after(*storage, AggregatedActionType::CommitBlocks) == pending_after(
                prev,
                AggregatedActionType::CommitBlocks,
            ));
            assert(commit_fires(*storage, current_time) == commit_fires(prev, current_time));
            lemma_proven_run_len_frame(
                *storage,
                prev,
                agg_last_affected(
                    storage.operations.aggregate_operations@,
                    AggregatedActionType::CreateProofBlocks,
                ) + 1,
            );
            assert(proven_pending_blocks(*storage) == proven_pending_blocks(prev));
            assert(proof_fires(*storage, current_time) == proof_fires(prev, current_time));
            assert(storage.operations.aggregate_operations@
                == prev.operations.aggregate_operations@.push(
                storage.operations.aggregate_operations@.last(),
            )) by {
                assert(storage.operations.aggregate_operations@
                    =~= prev.operations.aggregate_operations@.push(
                    storage.operations.aggregate_operations@.last(),
                ));
            }
            lemma_publish_fires_frame(prev, *storage);
            lemma_agg_last_affected_nonneg(
                storage.operations.aggregate_operations@,
                AggregatedActionType::ExecuteBlocks,
            );
        }
    }
    Ok(())
}

} // verus!
