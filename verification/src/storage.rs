//! In-memory model of the persistent store.
//!
//! The store is the single source of truth: both the planner and the sender
//! are reconstructible from its contents alone. Each schema below models one
//! group of tables; `Storage` bundles them so that cross-schema writes (a
//! confirmation, an executed transaction) can be stated as one atomic
//! transition.

use vstd::prelude::*;

use crate::aggregated_operations::{AggregatedActionType, AggregatedOperation};
use crate::block::Block;
use crate::eth_sender::EthereumSchema;

verus! {

/// Action type of the per-block operations table.
#[derive(Clone, Copy, Debug, PartialEq, Eq, Structural)]
pub enum ActionType {
    Commit,
    Verify,
}

/// A row of the per-block operations table.
#[derive(Clone, Copy, Debug, PartialEq, Eq, Structural)]
pub struct StoredOperation {
    pub id: i64,
    pub block_number: u32,
    pub action_type: ActionType,
    pub confirmed: bool,
}

/// A per-block operation about to be inserted.
#[derive(Clone, Copy, Debug, PartialEq, Eq, Structural)]
pub struct NewOperation {
    pub block_number: u32,
    pub action_type: ActionType,
}

/// A row of the aggregate-operations log: a persisted planner decision.
#[derive(Clone, Debug)]
pub struct StoredAggregatedOperation {
    pub id: i64,
    pub operation: AggregatedOperation,
    pub confirmed: bool,
}

impl StoredAggregatedOperation {
    pub open spec fn spec_eq(self, other: StoredAggregatedOperation) -> bool {
        self.id == other.id && self.operation.spec_eq(other.operation) && self.confirmed
            == other.confirmed
    }
}

/// Last block number affected by an operation of the given action type, 0
/// when none is.
pub open spec fn agg_last_affected(
    ops: Seq<StoredAggregatedOperation>,
    ty: AggregatedActionType,
) -> int
    decreases ops.len(),
{
    if ops.len() == 0 {
        0
    } else {
        let rest = agg_last_affected(ops.drop_last(), ty);
        if ops.last().operation.spec_action_type() == ty && ops.last().operation.spec_last_block()
            > rest {
            ops.last().operation.spec_last_block()
        } else {
            rest
        }
    }
}

/// The aggregate-operations log is well formed: every operation carries a
/// contiguous non-empty block list, ids are the append order, and each
/// operation's range starts right after the last block its action type had
/// affected before it.
pub open spec fn agg_log_wf(ops: Seq<StoredAggregatedOperation>) -> bool {
    forall|i: int|
        0 <= i < ops.len() ==> {
            &&& (#[trigger] ops[i]).operation.wf()
            &&& ops[i].operation.spec_first_block() == agg_last_affected(
                ops.take(i),
                ops[i].operation.spec_action_type(),
            ) + 1
            &&& ops[i].id == i + 1
        }
}

/// The last published block sits on a create-proof operation boundary.
pub open spec fn publish_boundary_aligned(ops: Seq<StoredAggregatedOperation>) -> bool {
    let lp = agg_last_affected(ops, AggregatedActionType::PublishProofBlocksOnchain);
    lp == 0 || exists|i: int|
        0 <= i < ops.len() && (#[trigger] ops[i]).operation.spec_action_type()
            == AggregatedActionType::CreateProofBlocks && ops[i].operation.spec_last_block() == lp
}

pub proof fn lemma_agg_last_affected_nonneg(ops: Seq<StoredAggregatedOperation>, ty: AggregatedActionType)
    ensures
        agg_last_affected(ops, ty) >= 0,
    decreases ops.len(),
{
    if ops.len() > 0 {
        lemma_agg_last_affected_nonneg(ops.drop_last(), ty);
    }
}

/// Appending one operation moves the last-affected mark of its own action
/// type and no other.
pub proof fn lemma_agg_last_affected_push(
    ops: Seq<StoredAggregatedOperation>,
    sao: StoredAggregatedOperation,
    ty: AggregatedActionType,
)
    ensures
        agg_last_affected(ops.push(sao), ty) == if sao.operation.spec_action_type() == ty
            && sao.operation.spec_last_block() > agg_last_affected(ops, ty) {
            sao.operation.spec_last_block()
        } else {
            agg_last_affected(ops, ty)
        },
{
    assert(ops.push(sao).drop_last() =~= ops);
    assert(ops.push(sao).last() == sao);
}

pub proof fn lemma_agg_last_affected_take_monotone(
    ops: Seq<StoredAggregatedOperation>,
    ty: AggregatedActionType,
    i: int,
    j: int,
)
    requires
        0 <= i <= j <= ops.len(),
    ensures
        agg_last_affected(ops.take(i), ty) <= agg_last_affected(ops.take(j), ty),
    decreases j - i,
{
    if i < j {
        lemma_agg_last_affected_take_monotone(ops, ty, i, j - 1);
        assert(ops.take(j).drop_last() =~= ops.take(j - 1));
        assert(ops.take(j).last() == ops[j - 1]);
    }
}

/// The last-affected mark over a prefix reaches at least the last block of
/// every operation of that type inside the prefix.
pub proof fn lemma_agg_last_affected_ge_member(
    ops: Seq<StoredAggregatedOperation>,
    ty: AggregatedActionType,
    i: int,
    n: int,
)
    requires
        0 <= i < n <= ops.len(),
        ops[i].operation.spec_action_type() == ty,
    ensures
        agg_last_affected(ops.take(n), ty) >= ops[i].operation.spec_last_block(),
    decreases n,
{
    assert(ops.take(n).drop_last() =~= ops.take(n - 1));
    assert(ops.take(n).last() == ops[n - 1]);
    if i < n - 1 {
        lemma_agg_last_affected_ge_member(ops, ty, i, n - 1);
    }
}

/// The last-affected mark does not move across a stretch that holds no
/// operation of the type.
pub proof fn lemma_agg_last_affected_skip(
    ops: Seq<StoredAggregatedOperation>,
    ty: AggregatedActionType,
    m: int,
    n: int,
)
    requires
        0 <= m <= n <= ops.len(),
        forall|k: int|
            m <= k < n ==> (#[trigger] ops[k]).operation.spec_action_type() != ty,
    ensures
        agg_last_affected(ops.take(n), ty) == agg_last_affected(ops.take(m), ty),
    decreases n - m,
{
    if m < n {
        lemma_agg_last_affected_skip(ops, ty, m, n - 1);
        assert(ops.take(n).drop_last() =~= ops.take(n - 1));
        assert(ops.take(n).last() == ops[n - 1]);
    }
}

/// A well-formed prefix of a well-formed log.
pub proof fn lemma_agg_log_wf_prefix(ops: Seq<StoredAggregatedOperation>, n: int)
    requires
        agg_log_wf(ops),
        0 <= n <= ops.len(),
    ensures
        agg_log_wf(ops.take(n)),
{
    let pre = ops.take(n);
    assert forall|i: int| 0 <= i < pre.len() implies {
        &&& (#[trigger] pre[i]).operation.wf()
        &&& pre[i].operation.spec_first_block() == agg_last_affected(
            pre.take(i),
            pre[i].operation.spec_action_type(),
        ) + 1
        &&& pre[i].id == i + 1
    } by {
        assert(pre[i] == ops[i]);
        assert(pre.take(i) =~= ops.take(i));
    }
}

/// Ranges of one action type never overlap and appear in strictly
/// increasing order; where no operation of the type stands between two,
/// the later range starts right after the earlier one ends.
pub proof fn lemma_aggregated_ranges_ordered(
    ops: Seq<StoredAggregatedOperation>,
    ty: AggregatedActionType,
    i: int,
    j: int,
)
    requires
        agg_log_wf(ops),
        0 <= i < j < ops.len(),
        ops[i].operation.spec_action_type() == ty,
        ops[j].operation.spec_action_type() == ty,
    ensures
        ops[i].operation.spec_last_block() < ops[j].operation.spec_first_block(),
        (forall|k: int|
            i < k < j ==> (#[trigger] ops[k]).operation.spec_action_type() != ty)
            ==> ops[j].operation.spec_first_block() == ops[i].operation.spec_last_block() + 1,
{
    lemma_agg_last_affected_ge_member(ops, ty, i, j);
    if forall|k: int| i < k < j ==> (#[trigger] ops[k]).operation.spec_action_type() != ty {
        lemma_agg_last_affected_skip(ops, ty, i + 1, j);
        assert(ops.take(i + 1).drop_last() =~= ops.take(i));
        assert(ops.take(i + 1).last() == ops[i]);
        lemma_agg_last_affected_ge_member(ops, ty, i, i + 1);
    }
}

/// Every block up to the last-affected mark of a type is covered by some
/// operation of that type.
pub proof fn lemma_agg_coverage(ops: Seq<StoredAggregatedOperation>, ty: AggregatedActionType, b: int)
    requires
        agg_log_wf(ops),
        1 <= b <= agg_last_affected(ops, ty),
    ensures
        exists|i: int|
            0 <= i < ops.len() && (#[trigger] ops[i]).operation.spec_action_type() == ty
                && ops[i].operation.spec_first_block() <= b
                && b <= ops[i].operation.spec_last_block(),
    decreases ops.len(),
{
    let n = ops.len() as int;
    assert(ops.take(n) =~= ops);
    let rest = ops.drop_last();
    assert(rest =~= ops.take(n - 1));
    lemma_agg_log_wf_prefix(ops, n - 1);
    if b <= agg_last_affected(rest, ty) {
        lemma_agg_coverage(rest, ty, b);
        let w = choose|i: int|
            0 <= i < rest.len() && (#[trigger] rest[i]).operation.spec_action_type() == ty
                && rest[i].operation.spec_first_block() <= b
                && b <= rest[i].operation.spec_last_block();
        assert(ops[w] == rest[w]);
    } else {
        assert(ops.last().operation.spec_action_type() == ty);
        assert(ops.last() == ops[n - 1]);
        assert(ops[n - 1].operation.spec_first_block() == agg_last_affected(ops.take(n - 1), ty)
            + 1);
    }
}

/// At most one operation of a type covers any given block.
pub proof fn lemma_covering_op_unique(
    ops: Seq<StoredAggregatedOperation>,
    ty: AggregatedActionType,
    b: int,
    i: int,
    j: int,
)
    requires
        agg_log_wf(ops),
        0 <= i < ops.len(),
        0 <= j < ops.len(),
        ops[i].operation.spec_action_type() == ty,
        ops[j].operation.spec_action_type() == ty,
        ops[i].operation.spec_first_block() <= b <= ops[i].operation.spec_last_block(),
        ops[j].operation.spec_first_block() <= b <= ops[j].operation.spec_last_block(),
    ensures
        i == j,
{
    if i < j {
        lemma_aggregated_ranges_ordered(ops, ty, i, j);
        assert(false);
    } else if j < i {
        lemma_aggregated_ranges_ordered(ops, ty, j, i);
        assert(false);
    }
}

/// A well-formed log cannot outgrow the block ranges it covers: its length
/// is bounded by the sum of the four last-affected marks.
pub proof fn lemma_agg_log_len_bound(ops: Seq<StoredAggregatedOperation>)
    requires
        agg_log_wf(ops),
    ensures
        ops.len() <= agg_last_affected(ops, AggregatedActionType::CommitBlocks)
            + agg_last_affected(ops, AggregatedActionType::CreateProofBlocks) + agg_last_affected(
            ops,
            AggregatedActionType::PublishProofBlocksOnchain,
        ) + agg_last_affected(ops, AggregatedActionType::ExecuteBlocks),
    decreases ops.len(),
{
    if ops.len() > 0 {
        let n = ops.len() as int;
        let rest = ops.drop_last();
        assert(rest =~= ops.take(n - 1));
        lemma_agg_log_wf_prefix(ops, n - 1);
        lemma_agg_log_len_bound(rest);
        let last = ops[n - 1];
        let ty = last.operation.spec_action_type();
        assert(ops.take(n) =~= ops);
        lemma_op_wf_range(last.operation);
        assert(last.operation.spec_first_block() == agg_last_affected(rest, ty) + 1);
        assert(agg_last_affected(ops, ty) >= agg_last_affected(rest, ty) + 1);
        assert(agg_last_affected(ops, AggregatedActionType::CommitBlocks) >= agg_last_affected(
            rest,
            AggregatedActionType::CommitBlocks,
        ) && agg_last_affected(ops, AggregatedActionType::CreateProofBlocks) >= agg_last_affected(
            rest,
            AggregatedActionType::CreateProofBlocks,
        ) && agg_last_affected(ops, AggregatedActionType::PublishProofBlocksOnchain)
            >= agg_last_affected(rest, AggregatedActionType::PublishProofBlocksOnchain)
            && agg_last_affected(ops, AggregatedActionType::ExecuteBlocks) >= agg_last_affected(
            rest,
            AggregatedActionType::ExecuteBlocks,
        )) by {
            lemma_agg_last_affected_take_monotone(ops, AggregatedActionType::CommitBlocks, n - 1, n);
            lemma_agg_last_affected_take_monotone(
                ops,
                AggregatedActionType::CreateProofBlocks,
                n - 1,
                n,
            );
            lemma_agg_last_affected_take_monotone(
                ops,
                AggregatedActionType::PublishProofBlocksOnchain,
                n - 1,
                n,
            );
            lemma_agg_last_affected_take_monotone(ops, AggregatedActionType::ExecuteBlocks, n - 1, n);
        }
    }
}

/// Under the storage invariant the log length stays far below the id bound.
pub proof fn lemma_storage_log_len_small(s: Storage)
    requires
        storage_wf(s),
    ensures
        s.operations.aggregate_operations@.len() < 0x1_0000_0000_0000,
{
    let ops = s.operations.aggregate_operations@;
    lemma_agg_log_len_bound(ops);
    lemma_agg_last_affected_nonneg(ops, AggregatedActionType::CommitBlocks);
    lemma_agg_last_affected_nonneg(ops, AggregatedActionType::CreateProofBlocks);
    lemma_agg_last_affected_nonneg(ops, AggregatedActionType::PublishProofBlocksOnchain);
    lemma_agg_last_affected_nonneg(ops, AggregatedActionType::ExecuteBlocks);
}

/// The create-proof operation covering the block right after the publish
/// boundary starts exactly at that block.
/// The create-proof operation at a given index that covers the block right
/// after the publish boundary starts exactly at that block.
#[verifier::rlimit(100)]
#[verifier::spinoff_prover]
pub proof fn lemma_create_op_index_starts_at_boundary(
    ops: Seq<StoredAggregatedOperation>,
    b: int,
    i: int,
)
    requires
        agg_log_wf(ops),
        publish_boundary_aligned(ops),
        b == agg_last_affected(ops, AggregatedActionType::PublishProofBlocksOnchain) + 1,
        0 <= i < ops.len(),
        ops[i].operation.spec_action_type() == AggregatedActionType::CreateProofBlocks,
        ops[i].operation.spec_first_block() <= b,
        b <= ops[i].operation.spec_last_block(),
    ensures
        ops[i].operation.spec_first_block() == b,
{
    let cp = AggregatedActionType::CreateProofBlocks;
    let lp = agg_last_affected(ops, AggregatedActionType::PublishProofBlocksOnchain);
    lemma_agg_last_affected_nonneg(ops, AggregatedActionType::PublishProofBlocksOnchain);
    if ops[i].operation.spec_first_block() < b {
        // Then the boundary block lp lies inside this operation's range,
        // yet alignment names a create operation ending exactly at lp.
        lemma_agg_last_affected_nonneg(ops.take(i), cp);
        assert(ops[i].operation.spec_first_block() == agg_last_affected(ops.take(i), cp) + 1);
        assert(lp >= 1);
        let w = choose|k: int|
            0 <= k < ops.len() && (#[trigger] ops[k]).operation.spec_action_type() == cp
                && ops[k].operation.spec_last_block() == lp;
        if w < i {
            lemma_aggregated_ranges_ordered(ops, cp, w, i);
            // lp < first_i, so first_i >= lp + 1 == b: contradiction.
            assert(false);
        } else if w > i {
            lemma_aggregated_ranges_ordered(ops, cp, i, w);
            lemma_op_wf_range(ops[w].operation);
            // last_i < first_w <= last_w == lp < b <= last_i: contradiction.
            assert(false);
        } else {
            // One operation cannot both end at lp and cover b == lp + 1.
            assert(false);
        }
    }
}

pub proof fn lemma_create_op_at_publish_boundary(ops: Seq<StoredAggregatedOperation>, b: int)
    requires
        agg_log_wf(ops),
        publish_boundary_aligned(ops),
        b == agg_last_affected(ops, AggregatedActionType::PublishProofBlocksOnchain) + 1,
        b <= agg_last_affected(ops, AggregatedActionType::CreateProofBlocks),
    ensures
        exists|i: int|
            0 <= i < ops.len() && (#[trigger] ops[i]).operation.spec_action_type()
                == AggregatedActionType::CreateProofBlocks && ops[i].operation.spec_first_block()
                <= b && b <= ops[i].operation.spec_last_block(),
        forall|i: int|
            0 <= i < ops.len() && (#[trigger] ops[i]).operation.spec_action_type()
                == AggregatedActionType::CreateProofBlocks && ops[i].operation.spec_first_block()
                <= b && b <= ops[i].operation.spec_last_block()
                ==> ops[i].operation.spec_first_block() == b,
{
    let cp = AggregatedActionType::CreateProofBlocks;
    lemma_agg_coverage(ops, cp, b);
    assert forall|i: int|
        0 <= i < ops.len() && (#[trigger] ops[i]).operation.spec_action_type() == cp
            && ops[i].operation.spec_first_block() <= b && b
            <= ops[i].operation.spec_last_block() implies ops[i].operation.spec_first_block()
        == b by {
        lemma_create_op_index_starts_at_boundary(ops, b, i);
    }
}

/// A well-formed operation's range is non-empty.
pub proof fn lemma_op_wf_range(op: AggregatedOperation)
    requires
        op.wf(),
    ensures
        op.spec_first_block() <= op.spec_last_block(),
{
    let blocks = op.spec_blocks();
    assert(blocks.last() == blocks[blocks.len() - 1]);
    assert(blocks[blocks.len() - 1].block_number == op.spec_first_block() + blocks.len() - 1);
}

/// A row of the executed-transactions table.
pub struct ExecutedTxRecord {
    /// Block the transaction was executed in.
    pub block_number: u32,
    /// Position inside the block, absent for failed transactions.
    pub block_index: Option<u32>,
    /// The serialized transaction payload.
    pub tx: Vec<u8>,
    /// The transaction's rollup hash; unique in the table.
    pub tx_hash: Vec<u8>,
    /// Did the transaction succeed?
    pub success: bool,
}

/// A row of the executed-priority-operations table.
pub struct ExecutedPriorityOpRecord {
    pub block_number: u32,
    pub block_index: u32,
    /// The serialized operation payload.
    pub operation: Vec<u8>,
    /// The base chain's serial id; unique in the table.
    pub priority_op_serialid: u64,
    pub deadline_block: u64,
    /// Hash of the base-chain transaction that enqueued the operation.
    pub eth_hash: Vec<u8>,
    pub eth_block: u64,
}

/// The pending-transactions pool, keyed by transaction hash.
pub struct MempoolSchema {
    /// Hashes of the transactions waiting to be executed.
    pub txs: Vec<Vec<u8>>,
}

/// The byte strings a hash list holds.
pub open spec fn views_of(txs: Seq<Vec<u8>>) -> Seq<Seq<u8>> {
    Seq::new(txs.len(), |i: int| txs[i]@)
}

/// The pool's contents with every copy of one hash removed.
pub open spec fn mempool_without(txs: Seq<Vec<u8>>, hash: Seq<u8>) -> Seq<Seq<u8>>
    decreases txs.len(),
{
    if txs.len() == 0 {
        Seq::empty()
    } else {
        let rest = mempool_without(txs.drop_last(), hash);
        if txs.last()@ == hash {
            rest
        } else {
            rest.push(txs.last()@)
        }
    }
}

impl MempoolSchema {
    pub fn new_empty() -> (r: MempoolSchema)
        ensures
            r.txs@.len() == 0,
    {
        MempoolSchema { txs: Vec::new() }
    }

    /// Add a pending transaction hash.
    pub fn insert_tx(&mut self, hash: Vec<u8>)
        ensures
            final(self).txs@ == old(self).txs@.push(hash),
    {
        self.txs.push(hash);
    }

    /// Drop a transaction from the pool once it was executed.
    pub fn remove_tx(&mut self, hash: &Vec<u8>)
        ensures
            views_of(final(self).txs@) == mempool_without(old(self).txs@, hash@),
    {
        let mut kept: Vec<Vec<u8>> = Vec::new();
        let mut i: usize = 0;
        while i < self.txs.len()
            invariant
                0 <= i <= self.txs@.len(),
                self.txs@ == old(self).txs@,
                views_of(kept@) == mempool_without(self.txs@.take(i as int), hash@),
            decreases self.txs@.len() - i,
        {
            proof {
                assert(self.txs@.take(i as int + 1).drop_last() =~= self.txs@.take(i as int));
                assert(self.txs@.take(i as int + 1).last() == self.txs@[i as int]);
            }
            if !crate::aggregated_operations::bytes_eq(&self.txs[i], hash) {
                kept.push(self.txs[i].clone());
            }
            i = i + 1;
            proof {
                assert(views_of(kept@) =~= mempool_without(self.txs@.take(i as int), hash@));
            }
        }
        proof {
            assert(self.txs@.take(self.txs@.len() as int) =~= self.txs@);
        }
        self.txs = kept;
    }
}

/// The per-block and aggregate operations tables, with the executed
/// transactions they record.
pub struct OperationsSchema {
    /// Per-block operations, one row per (block, action).
    pub operations: Vec<StoredOperation>,
    /// Append-only log of persisted planner decisions.
    pub aggregate_operations: Vec<StoredAggregatedOperation>,
    /// Executed rollup transactions, unique by transaction hash.
    pub executed_transactions: Vec<ExecutedTxRecord>,
    /// Executed priority operations, unique by serial id.
    pub executed_priority_operations: Vec<ExecutedPriorityOpRecord>,
}

impl OperationsSchema {
    /// Table invariants: ids are the append order and the aggregate log is
    /// contiguous per action type.
    pub open spec fn wf(self) -> bool {
        &&& agg_log_wf(self.aggregate_operations@)
        &&& self.aggregate_operations@.len() <= 0x1_0000_0000_0000
        &&& self.operations@.len() <= 0x1_0000_0000_0000
        &&& forall|i: int|
            0 <= i < self.operations@.len() ==> (#[trigger] self.operations@[i]).id == i + 1
        &&& forall|i: int, j: int|
            0 <= i < j < self.executed_transactions@.len()
                ==> (#[trigger] self.executed_transactions@[i]).tx_hash@ != (
            #[trigger] self.executed_transactions@[j]).tx_hash@
        &&& forall|i: int, j: int|
            0 <= i < j < self.executed_priority_operations@.len()
                ==> (#[trigger] self.executed_priority_operations@[i]).priority_op_serialid != (
            #[trigger] self.executed_priority_operations@[j]).priority_op_serialid
    }

    pub fn new_empty() -> (r: OperationsSchema)
        ensures
            r.wf(),
            r.operations@.len() == 0,
            r.aggregate_operations@.len() == 0,
    {
        OperationsSchema {
            operations: Vec::new(),
            aggregate_operations: Vec::new(),
            executed_transactions: Vec::new(),
            executed_priority_operations: Vec::new(),
        }
    }

    /// Persist a planner decision at the end of the log.
    ///
    /// The operation must continue its action type's range exactly where it
    /// left off; the planner emits operations in this form by construction.
    pub fn store_aggregated_action(&mut self, operation: AggregatedOperation)
        requires
            old(self).wf(),
            old(self).aggregate_operations@.len() < 0x1_0000_0000_0000,
            operation.wf(),
            operation.spec_first_block() == agg_last_affected(
                old(self).aggregate_operations@,
                operation.spec_action_type(),
            ) + 1,
        ensures
            final(self).wf(),
            final(self).operations@ == old(self).operations@,
            final(self).aggregate_operations@ == old(self).aggregate_operations@.push(
                StoredAggregatedOperation {
                    id: (old(self).aggregate_operations@.len() + 1) as i64,
                    operation,
                    confirmed: false,
                },
            ),
    {
        let id = self.aggregate_operations.len() as i64 + 1;
        let sao = StoredAggregatedOperation { id, operation, confirmed: false };
        proof {
            let ops = self.aggregate_operations@;
            let new_ops = ops.push(sao);
            assert forall|i: int| 0 <= i < new_ops.len() implies {
                &&& (#[trigger] new_ops[i]).operation.wf()
                &&& new_ops[i].operation.spec_first_block() == agg_last_affected(
                    new_ops.take(i),
                    new_ops[i].operation.spec_action_type(),
                ) + 1
                &&& new_ops[i].id == i + 1
            } by {
                assert(new_ops.take(i) =~= ops.take(i));
                if i < ops.len() {
                    assert(new_ops[i] == ops[i]);
                } else {
                    assert(new_ops[i] == sao);
                    assert(ops.take(i) =~= ops);
                }
            }
        }
        self.aggregate_operations.push(sao);
    }

    /// Last block number affected by the given aggregated action type, 0
    /// when the log holds none.
    #[verifier::rlimit(100)]
    #[verifier::spinoff_prover]
    pub fn get_last_affected_block_by_aggregated_action(
        &self,
        aggregated_action: AggregatedActionType,
    ) -> (r: u32)
        requires
            self.wf(),
        ensures
            r as int == agg_last_affected(self.aggregate_operations@, aggregated_action),
    {
        let mut best: u32 = 0;
        let mut i: usize = 0;
        while i < self.aggregate_operations.len()
            invariant
                0 <= i <= self.aggregate_operations@.len(),
                agg_log_wf(self.aggregate_operations@),
                best as int == agg_last_affected(
                    self.aggregate_operations@.take(i as int),
                    aggregated_action,
                ),
            decreases self.aggregate_operations@.len() - i,
        {
            proof {
                let saos = self.aggregate_operations@;
                assert(saos.take(i as int + 1).drop_last() =~= saos.take(i as int));
                assert(saos.take(i as int + 1).last() == saos[i as int]);
            }
            let sao = &self.aggregate_operations[i];
            if sao.operation.get_action_type() == aggregated_action {
                let (_, to_block) = sao.operation.get_block_range();
                if to_block > best {
                    best = to_block;
                }
            }
            i = i + 1;
        }
        proof {
            assert(self.aggregate_operations@.take(self.aggregate_operations@.len() as int)
                =~= self.aggregate_operations@);
        }
        best
    }

    /// Does a per-block operation row match the action type and the
    /// confirmation filter? A `None` filter accepts either state.
    pub open spec fn row_matches(
        row: StoredOperation,
        action_type: ActionType,
        confirmed: Option<bool>,
    ) -> bool {
        row.action_type == action_type && match confirmed {
            Option::None => true,
            Option::Some(v) => row.confirmed == v,
        }
    }

    /// Largest block number among matching per-block operation rows, 0 when
    /// none matches.
    pub open spec fn spec_last_block_by_action(
        rows: Seq<StoredOperation>,
        action_type: ActionType,
        confirmed: Option<bool>,
    ) -> int
        decreases rows.len(),
    {
        if rows.len() == 0 {
            0
        } else {
            let rest = Self::spec_last_block_by_action(rows.drop_last(), action_type, confirmed);
            if Self::row_matches(rows.last(), action_type, confirmed)
                && rows.last().block_number > rest {
                rows.last().block_number as int
            } else {
                rest
            }
        }
    }

    /// Largest block number with a per-block operation of the given action
    /// type, restricted by the confirmation filter; 0 when none exists.
    pub fn get_last_block_by_action(&self, action_type: ActionType, confirmed: Option<bool>) -> (r:
        u32)
        ensures
            r as int == Self::spec_last_block_by_action(self.operations@, action_type, confirmed),
    {
        let mut best: u32 = 0;
        let mut i: usize = 0;
        while i < self.operations.len()
            invariant
                0 <= i <= self.operations@.len(),
                best as int == Self::spec_last_block_by_action(
                    self.operations@.take(i as int),
                    action_type,
                    confirmed,
                ),
            decreases self.operations@.len() - i,
        {
            proof {
                let rows = self.operations@;
                assert(rows.take(i as int + 1).drop_last() =~= rows.take(i as int));
                assert(rows.take(i as int + 1).last() == rows[i as int]);
            }
            let row = self.operations[i];
            let matches_filter = match confirmed {
                Option::None => true,
                Option::Some(v) => row.confirmed == v,
            };
            if row.action_type == action_type && matches_filter && row.block_number > best {
                best = row.block_number;
            }
            i = i + 1;
        }
        proof {
            assert(self.operations@.take(self.operations@.len() as int) =~= self.operations@);
        }
        best
    }

    /// The first per-block operation row for the block and action type.
    pub fn get_operation(&self, block_number: u32, action_type: ActionType) -> (r: Option<
        StoredOperation,
    >)
        ensures
            (r is Some) <==> exists|i: int|
                0 <= i < self.operations@.len() && (#[trigger] self.operations@[i]).block_number
                    == block_number && self.operations@[i].action_type == action_type,
            r matches Some(row) ==> exists|i: int|
                0 <= i < self.operations@.len() && #[trigger] self.operations@[i] == row
                    && row.block_number == block_number && row.action_type == action_type,
    {
        let mut i: usize = 0;
        while i < self.operations.len()
            invariant
                0 <= i <= self.operations@.len(),
                forall|j: int|
                    0 <= j < i ==> !((#[trigger] self.operations@[j]).block_number == block_number
                        && self.operations@[j].action_type == action_type),
            decreases self.operations@.len() - i,
        {
            let row = self.operations[i];
            if row.block_number == block_number && row.action_type == action_type {
                return Some(row);
            }
            i = i + 1;
        }
        None
    }

    /// Insert a per-block operation row, unconfirmed, and return it.
    pub fn store_operation(&mut self, operation: NewOperation) -> (r: StoredOperation)
        requires
            old(self).wf(),
            old(self).operations@.len() < 0x1_0000_0000_0000,
        ensures
            final(self).wf(),
            final(self).aggregate_operations@ == old(self).aggregate_operations@,
            final(self).operations@ == old(self).operations@.push(r),
            r.id == old(self).operations@.len() + 1,
            r.block_number == operation.block_number,
            r.action_type == operation.action_type,
            !r.confirmed,
    {
        let row = StoredOperation {
            id: self.operations.len() as i64 + 1,
            block_number: operation.block_number,
            action_type: operation.action_type,
            confirmed: false,
        };
        self.operations.push(row);
        row
    }

    /// Mark the per-block operation rows of one block and action type
    /// confirmed.
    pub fn confirm_operation(&mut self, block_number: u32, action_type: ActionType)
        requires
            old(self).wf(),
        ensures
            final(self).wf(),
            final(self).aggregate_operations@ == old(self).aggregate_operations@,
            final(self).operations@.len() == old(self).operations@.len(),
            forall|i: int|
                0 <= i < old(self).operations@.len() ==> #[trigger] final(self).operations@[i]
                    == (if old(self).operations@[i].block_number == block_number && old(
                    self,
                ).operations@[i].action_type == action_type {
                    StoredOperation { confirmed: true, ..old(self).operations@[i] }
                } else {
                    old(self).operations@[i]
                }),
    {
        self.confirm_operations(block_number, block_number, action_type);
    }

    /// Mark the per-block operation rows of a block range and action type
    /// confirmed.
    pub fn confirm_operations(&mut self, first_block: u32, last_block: u32, action_type: ActionType)
        requires
            old(self).wf(),
        ensures
            final(self).wf(),
            final(self).aggregate_operations@ == old(self).aggregate_operations@,
            final(self).operations@.len() == old(self).operations@.len(),
            forall|i: int|
                0 <= i < old(self).operations@.len() ==> #[trigger] final(self).operations@[i]
                    == (if first_block <= old(self).operations@[i].block_number && old(
                    self,
                ).operations@[i].block_number <= last_block && old(self).operations@[i].action_type
                    == action_type {
                    StoredOperation { confirmed: true, ..old(self).operations@[i] }
                } else {
                    old(self).operations@[i]
                }),
    {
        let mut i: usize = 0;
        while i < self.operations.len()
            invariant
                0 <= i <= self.operations@.len(),
                self.operations@.len() == old(self).operations@.len(),
                self.aggregate_operations@ == old(self).aggregate_operations@,
                self.executed_transactions@ == old(self).executed_transactions@,
                self.executed_priority_operations@ == old(self).executed_priority_operations@,
                agg_log_wf(self.aggregate_operations@),
                old(self).wf(),
                forall|j: int|
                    0 <= j < i ==> #[trigger] self.operations@[j] == (if first_block <= old(
                        self,
                    ).operations@[j].block_number && old(self).operations@[j].block_number
                        <= last_block && old(self).operations@[j].action_type == action_type {
                        StoredOperation { confirmed: true, ..old(self).operations@[j] }
                    } else {
                        old(self).operations@[j]
                    }),
                forall|j: int|
                    i <= j < self.operations@.len() ==> #[trigger] self.operations@[j] == old(
                        self,
                    ).operations@[j],
            decreases self.operations@.len() - i,
        {
            let row = self.operations[i];
            if first_block <= row.block_number && row.block_number <= last_block
                && row.action_type == action_type {
                self.operations.set(i, StoredOperation { confirmed: true, ..row });
            }
            i = i + 1;
        }
        proof {
            assert forall|j: int| 0 <= j < self.operations@.len() implies (
                #[trigger] self.operations@[j]).id == j + 1 by {
                assert(old(self).operations@[j].id == j + 1);
            }
        }
    }

    /// The aggregated operation of the given type whose range contains the
    /// block, with its id, when one is persisted.
    #[verifier::rlimit(100)]
    #[verifier::spinoff_prover]
    pub fn get_aggregated_op_that_affects_block(
        &self,
        aggregated_action: AggregatedActionType,
        block_number: u32,
    ) -> (r: Option<(i64, AggregatedOperation)>)
        requires
            self.wf(),
        ensures
            (r is Some) <==> exists|i: int|
                0 <= i < self.aggregate_operations@.len() && (#[trigger] self.aggregate_operations@[i]).operation.spec_action_type()
                    == aggregated_action && self.aggregate_operations@[i].operation.spec_first_block()
                    <= block_number as int && block_number as int
                    <= self.aggregate_operations@[i].operation.spec_last_block(),
            r matches Some((id, op)) ==> exists|i: int|
                0 <= i < self.aggregate_operations@.len() && (#[trigger] self.aggregate_operations@[i]).id
                    == id && self.aggregate_operations@[i].operation.spec_eq(op)
                    && self.aggregate_operations@[i].operation.spec_action_type()
                    == aggregated_action && self.aggregate_operations@[i].operation.spec_first_block()
                    <= block_number as int && block_number as int
                    <= self.aggregate_operations@[i].operation.spec_last_block(),
    {
        let mut i: usize = 0;
        while i < self.aggregate_operations.len()
            invariant
                0 <= i <= self.aggregate_operations@.len(),
                agg_log_wf(self.aggregate_operations@),
                forall|j: int|
                    0 <= j < i ==> !((#[trigger] self.aggregate_operations@[j]).operation.spec_action_type()
                        == aggregated_action && self.aggregate_operations@[j].operation.spec_first_block()
                        <= block_number as int && block_number as int
                        <= self.aggregate_operations@[j].operation.spec_last_block()),
            decreases self.aggregate_operations@.len() - i,
        {
            let sao = &self.aggregate_operations[i];
            if sao.operation.get_action_type() == aggregated_action {
                let (from_block, to_block) = sao.operation.get_block_range();
                if from_block <= block_number && block_number <= to_block {
                    let result_op = sao.operation.duplicate();
                    proof {
                        let saos = self.aggregate_operations@;
                        assert(saos[i as int] == *sao);
                        assert(saos[i as int].operation.wf());
                        assert(saos[i as int].operation.spec_action_type() == aggregated_action);
                        assert(saos[i as int].operation.spec_first_block() <= block_number as int);
                        assert(block_number as int <= saos[i as int].operation.spec_last_block());
                        assert(saos[i as int].operation.spec_eq(result_op));
                    }
                    return Some((sao.id, result_op));
                }
            }
            i = i + 1;
        }
        None
    }
}

/// The sealed-block ledger: read-only for the planner, appended by the
/// state keeper, with a per-block executed mark applied on confirmation.
pub struct BlockSchema {
    /// Sealed blocks; position equals block number, position 0 is genesis.
    pub blocks: Vec<Block>,
    /// Whether the block's state update has been applied on confirmation.
    pub executed: Vec<bool>,
}

impl BlockSchema {
    /// Blocks are gap-free from genesis and numbers fit in `u32`.
    pub open spec fn wf(self) -> bool {
        &&& self.blocks@.len() >= 1
        &&& self.blocks@.len() <= 0x1_0000_0000
        &&& self.executed@.len() == self.blocks@.len()
        &&& forall|i: int|
            0 <= i < self.blocks@.len() ==> (#[trigger] self.blocks@[i]).block_number == i
    }

    /// Number of the last sealed block.
    pub open spec fn spec_last_sealed(self) -> int {
        self.blocks@.len() - 1
    }

    /// A fresh ledger holding only the genesis block.
    pub fn new_with_genesis(genesis: Block) -> (r: BlockSchema)
        requires
            genesis.block_number == 0,
        ensures
            r.wf(),
            r.blocks@ == seq![genesis],
            r.executed@ == seq![true],
    {
        let mut blocks: Vec<Block> = Vec::new();
        blocks.push(genesis);
        let mut executed: Vec<bool> = Vec::new();
        executed.push(true);
        proof {
            assert(blocks@ =~= seq![genesis]);
            assert(executed@ =~= seq![true]);
        }
        BlockSchema { blocks, executed }
    }

    /// Number of the last block sealed into the ledger.
    pub fn get_last_committed_block(&self) -> (r: u32)
        requires
            self.wf(),
        ensures
            r as int == self.spec_last_sealed(),
    {
        (self.blocks.len() - 1) as u32
    }

    /// The sealed block with the given number, when it exists.
    pub fn get_block(&self, block_number: u32) -> (r: Option<Block>)
        requires
            self.wf(),
        ensures
            (r is Some) <==> block_number as int <= self.spec_last_sealed(),
            r matches Some(b) ==> b == self.blocks@[block_number as int],
    {
        if (block_number as usize) < self.blocks.len() {
            Some(self.blocks[block_number as usize])
        } else {
            None
        }
    }

    /// Seal the next block.
    pub fn save_block(&mut self, block: Block)
        requires
            old(self).wf(),
            block.block_number as int == old(self).blocks@.len(),
            old(self).blocks@.len() < 0x1_0000_0000,
        ensures
            final(self).wf(),
            final(self).blocks@ == old(self).blocks@.push(block),
            final(self).executed@ == old(self).executed@.push(false),
    {
        self.blocks.push(block);
        self.executed.push(false);
    }

    /// Apply the state update of a confirmed executed block and mark the
    /// block executed.
    pub fn apply_block_execution(&mut self, block_number: u32)
        requires
            old(self).wf(),
            block_number as int <= old(self).spec_last_sealed(),
        ensures
            final(self).wf(),
            final(self).blocks@ == old(self).blocks@,
            final(self).executed@ == old(self).executed@.update(block_number as int, true),
    {
        self.executed.set(block_number as usize, true);
    }
}

/// A single-block proof or an aggregated range proof recorded by the proof
/// workers; proofs are carried as opaque bytes.
pub struct ProverSchema {
    /// `(block_number, proof)` pairs for single-block proofs.
    pub single_proofs: Vec<(u32, Vec<u8>)>,
    /// `(first_block, last_block, proof)` triples for aggregated proofs.
    pub aggregated_proofs: Vec<(u32, u32, Vec<u8>)>,
}

impl ProverSchema {
    pub fn new_empty() -> (r: ProverSchema)
        ensures
            r.single_proofs@.len() == 0,
            r.aggregated_proofs@.len() == 0,
    {
        ProverSchema { single_proofs: Vec::new(), aggregated_proofs: Vec::new() }
    }

    /// Record a single-block proof.
    pub fn store_proof(&mut self, block_number: u32, proof: Vec<u8>)
        ensures
            final(self).single_proofs@ == old(self).single_proofs@.push((block_number, proof)),
            final(self).aggregated_proofs@ == old(self).aggregated_proofs@,
    {
        self.single_proofs.push((block_number, proof));
    }

    /// Is a single-block proof recorded for the block?
    pub fn load_proof(&self, block_number: u32) -> (r: bool)
        ensures
            r == exists|i: int|
                0 <= i < self.single_proofs@.len() && (#[trigger] self.single_proofs@[i]).0
                    == block_number,
    {
        let mut i: usize = 0;
        while i < self.single_proofs.len()
            invariant
                0 <= i <= self.single_proofs@.len(),
                forall|j: int|
                    0 <= j < i ==> (#[trigger] self.single_proofs@[j]).0 != block_number,
            decreases self.single_proofs@.len() - i,
        {
            if self.single_proofs[i].0 == block_number {
                return true;
            }
            i = i + 1;
        }
        false
    }

    /// Record an aggregated proof for a block range.
    pub fn store_aggregated_proof(&mut self, first_block: u32, last_block: u32, proof: Vec<u8>)
        ensures
            final(self).aggregated_proofs@ == old(self).aggregated_proofs@.push(
                (first_block, last_block, proof),
            ),
            final(self).single_proofs@ == old(self).single_proofs@,
    {
        self.aggregated_proofs.push((first_block, last_block, proof));
    }

    /// The aggregated proof covering exactly the given range, when one is
    /// recorded.
    pub fn load_aggregated_proof(&self, first_block: u32, last_block: u32) -> (r: Option<Vec<u8>>)
        ensures
            (r is Some) <==> exists|i: int|
                0 <= i < self.aggregated_proofs@.len() && (#[trigger] self.aggregated_proofs@[i]).0
                    == first_block && self.aggregated_proofs@[i].1 == last_block,
            r matches Some(p) ==> exists|i: int|
                0 <= i < self.aggregated_proofs@.len() && (#[trigger] self.aggregated_proofs@[i]).0
                    == first_block && self.aggregated_proofs@[i].1 == last_block
                    && self.aggregated_proofs@[i].2@ == p@,
    {
        let mut i: usize = 0;
        while i < self.aggregated_proofs.len()
            invariant
                0 <= i <= self.aggregated_proofs@.len(),
                forall|j: int|
                    0 <= j < i ==> !((#[trigger] self.aggregated_proofs@[j]).0 == first_block
                        && self.aggregated_proofs@[j].1 == last_block),
            decreases self.aggregated_proofs@.len() - i,
        {
            if self.aggregated_proofs[i].0 == first_block && self.aggregated_proofs[i].1
                == last_block {
                return Some(self.aggregated_proofs[i].2.clone());
            }
            i = i + 1;
        }
        None
    }
}

/// The whole persistent store.
pub struct Storage {
    pub blocks: BlockSchema,
    pub operations: OperationsSchema,
    pub mempool: MempoolSchema,
    pub prover: ProverSchema,
    pub ethereum: EthereumSchema,
}

/// Cross-schema well-formedness: each action type's last-affected mark
/// stays within what the stage before it has produced, and the publish
/// boundary aligns with a create-proof operation.
pub open spec fn storage_wf(s: Storage) -> bool {
    let aggs = s.operations.aggregate_operations@;
    &&& s.blocks.wf()
    &&& s.operations.wf()
    &&& s.ethereum.wf()
    &&& agg_last_affected(aggs, AggregatedActionType::CommitBlocks) <= s.blocks.spec_last_sealed()
    &&& agg_last_affected(aggs, AggregatedActionType::CreateProofBlocks)
        <= s.blocks.spec_last_sealed()
    &&& agg_last_affected(aggs, AggregatedActionType::PublishProofBlocksOnchain)
        <= agg_last_affected(aggs, AggregatedActionType::CreateProofBlocks)
    &&& agg_last_affected(aggs, AggregatedActionType::ExecuteBlocks) <= agg_last_affected(
        aggs,
        AggregatedActionType::PublishProofBlocksOnchain,
    )
    &&& publish_boundary_aligned(aggs)
}

/// Does the table hold a row with this transaction hash?
pub open spec fn has_executed_tx(rows: Seq<ExecutedTxRecord>, hash: Seq<u8>) -> bool {
    exists|i: int| 0 <= i < rows.len() && (#[trigger] rows[i]).tx_hash@ == hash
}

/// Does the table hold a priority operation with this serial id?
pub open spec fn has_priority_op(rows: Seq<ExecutedPriorityOpRecord>, serialid: u64) -> bool {
    exists|i: int| 0 <= i < rows.len() && (#[trigger] rows[i]).priority_op_serialid == serialid
}

impl OperationsSchema {
    /// The executed transaction with the given hash, when one is recorded.
    pub fn get_executed_operation(&self, op_hash: &Vec<u8>) -> (r: Option<&ExecutedTxRecord>)
        ensures
            (r is Some) <==> has_executed_tx(self.executed_transactions@, op_hash@),
            r matches Some(row) ==> exists|i: int|
                0 <= i < self.executed_transactions@.len()
                    && #[trigger] self.executed_transactions@[i] == *row && row.tx_hash@
                    == op_hash@,
    {
        let mut i: usize = 0;
        while i < self.executed_transactions.len()
            invariant
                0 <= i <= self.executed_transactions@.len(),
                forall|j: int|
                    0 <= j < i ==> (#[trigger] self.executed_transactions@[j]).tx_hash@
                        != op_hash@,
            decreases self.executed_transactions@.len() - i,
        {
            if crate::aggregated_operations::bytes_eq(
                &self.executed_transactions[i].tx_hash,
                op_hash,
            ) {
                return Some(&self.executed_transactions[i]);
            }
            i = i + 1;
        }
        None
    }

    /// The executed priority operation with the given serial id, when one
    /// is recorded.
    pub fn get_executed_priority_operation(&self, priority_op_serialid: u64) -> (r: Option<
        &ExecutedPriorityOpRecord,
    >)
        ensures
            (r is Some) <==> has_priority_op(
                self.executed_priority_operations@,
                priority_op_serialid,
            ),
            r matches Some(row) ==> exists|i: int|
                0 <= i < self.executed_priority_operations@.len()
                    && #[trigger] self.executed_priority_operations@[i] == *row
                    && row.priority_op_serialid == priority_op_serialid,
    {
        let mut i: usize = 0;
        while i < self.executed_priority_operations.len()
            invariant
                0 <= i <= self.executed_priority_operations@.len(),
                forall|j: int|
                    0 <= j < i ==> (
                    #[trigger] self.executed_priority_operations@[j]).priority_op_serialid
                        != priority_op_serialid,
            decreases self.executed_priority_operations@.len() - i,
        {
            if self.executed_priority_operations[i].priority_op_serialid == priority_op_serialid {
                return Some(&self.executed_priority_operations[i]);
            }
            i = i + 1;
        }
        None
    }

    /// The executed priority operation enqueued by the given base-chain
    /// transaction, when one is recorded.
    pub fn get_executed_priority_operation_by_hash(&self, eth_hash: &Vec<u8>) -> (r: Option<
        &ExecutedPriorityOpRecord,
    >)
        ensures
            (r is Some) <==> exists|i: int|
                0 <= i < self.executed_priority_operations@.len() && (
                #[trigger] self.executed_priority_operations@[i]).eth_hash@ == eth_hash@,
            r matches Some(row) ==> exists|i: int|
                0 <= i < self.executed_priority_operations@.len()
                    && #[trigger] self.executed_priority_operations@[i] == *row && row.eth_hash@
                    == eth_hash@,
    {
        let mut i: usize = 0;
        while i < self.executed_priority_operations.len()
            invariant
                0 <= i <= self.executed_priority_operations@.len(),
                forall|j: int|
                    0 <= j < i ==> (#[trigger] self.executed_priority_operations@[j]).eth_hash@
                        != eth_hash@,
            decreases self.executed_priority_operations@.len() - i,
        {
            if crate::aggregated_operations::bytes_eq(
                &self.executed_priority_operations[i].eth_hash,
                eth_hash,
            ) {
                return Some(&self.executed_priority_operations[i]);
            }
            i = i + 1;
        }
        None
    }

    /// Record an executed priority operation; a serial id already recorded
    /// is kept as it is.
    pub fn store_executed_priority_op(&mut self, operation: ExecutedPriorityOpRecord)
        requires
            old(self).wf(),
        ensures
            final(self).wf(),
            final(self).operations@ == old(self).operations@,
            final(self).aggregate_operations@ == old(self).aggregate_operations@,
            final(self).executed_transactions@ == old(self).executed_transactions@,
            has_priority_op(
                old(self).executed_priority_operations@,
                operation.priority_op_serialid,
            ) ==> final(self).executed_priority_operations@ == old(
                self,
            ).executed_priority_operations@,
            !has_priority_op(
                old(self).executed_priority_operations@,
                operation.priority_op_serialid,
            ) ==> final(self).executed_priority_operations@ == old(
                self,
            ).executed_priority_operations@.push(operation),
    {
        let mut i: usize = 0;
        while i < self.executed_priority_operations.len()
            invariant
                0 <= i <= self.executed_priority_operations@.len(),
                *self == *old(self),
                old(self).wf(),
                forall|j: int|
                    0 <= j < i ==> (
                    #[trigger] self.executed_priority_operations@[j]).priority_op_serialid
                        != operation.priority_op_serialid,
            decreases self.executed_priority_operations@.len() - i,
        {
            if self.executed_priority_operations[i].priority_op_serialid
                == operation.priority_op_serialid {
                return ;
            }
            i = i + 1;
        }
        self.executed_priority_operations.push(operation);
        proof {
            assert(final(self).executed_priority_operations@.drop_last() =~= old(
                self,
            ).executed_priority_operations@);
        }
    }
}

/// The block an executed transaction with the given hash sits in;
/// meaningful when such a transaction is recorded, and unique because
/// hashes are.
pub open spec fn executed_tx_block(rows: Seq<ExecutedTxRecord>, hash: Seq<u8>) -> int {
    let i = choose|i: int| 0 <= i < rows.len() && (#[trigger] rows[i]).tx_hash@ == hash;
    rows[i].block_number as int
}

/// The log id of the execute operation covering the block; meaningful when
/// one exists, and unique because ranges of one type never overlap.
pub open spec fn execute_op_id_for_block(ops: Seq<StoredAggregatedOperation>, b: int) -> i64 {
    let i = choose|i: int|
        0 <= i < ops.len() && (#[trigger] ops[i]).operation.spec_action_type()
            == AggregatedActionType::ExecuteBlocks && ops[i].operation.spec_first_block() <= b && b
            <= ops[i].operation.spec_last_block();
    ops[i].id
}

/// A withdrawal's completion is visible: the withdrawal was executed in
/// some block, an execute operation covers that block, and a confirmed
/// on-chain transaction with a final hash published that operation.
pub open spec fn withdrawal_completion_visible(s: Storage, withdrawal_hash: Seq<u8>) -> bool {
    let rows = s.operations.executed_transactions@;
    let ops = s.operations.aggregate_operations@;
    &&& has_executed_tx(rows, withdrawal_hash)
    &&& exists|i: int|
        0 <= i < ops.len() && (#[trigger] ops[i]).operation.spec_action_type()
            == AggregatedActionType::ExecuteBlocks && ops[i].operation.spec_first_block()
            <= executed_tx_block(rows, withdrawal_hash) && executed_tx_block(
            rows,
            withdrawal_hash,
        ) <= ops[i].operation.spec_last_block()
    &&& exists|i: int|
        0 <= i < s.ethereum.eth_ops@.len() && (#[trigger] s.ethereum.eth_ops@[i]).confirmed
            && (match s.ethereum.eth_ops@[i].op {
            Option::Some((linked_id, _)) => linked_id == execute_op_id_for_block(
                ops,
                executed_tx_block(rows, withdrawal_hash),
            ),
            Option::None => false,
        }) && s.ethereum.eth_ops@[i].final_hash is Some
}

impl Storage {
    /// Record an executed rollup transaction: drop it from the pending
    /// pool; a successful execution replaces any earlier row with the same
    /// hash (a transaction may fail first and succeed after a retry), a
    /// failed one is recorded only when the hash is new.
    #[verifier::rlimit(100)]
    #[verifier::spinoff_prover]
    pub fn store_executed_tx(&mut self, operation: ExecutedTxRecord)
        requires
            storage_wf(*old(self)),
        ensures
            storage_wf(*final(self)),
            final(self).blocks == old(self).blocks,
            final(self).prover == old(self).prover,
            final(self).ethereum == old(self).ethereum,
            final(self).operations.operations@ == old(self).operations.operations@,
            final(self).operations.aggregate_operations@ == old(
                self,
            ).operations.aggregate_operations@,
            final(self).operations.executed_priority_operations@ == old(
                self,
            ).operations.executed_priority_operations@,
            views_of(final(self).mempool.txs@) == mempool_without(
                old(self).mempool.txs@,
                operation.tx_hash@,
            ),
            ({
                let rows = old(self).operations.executed_transactions@;
                let post = final(self).operations.executed_transactions@;
                if operation.success {
                    if has_executed_tx(rows, operation.tx_hash@) {
                        post.len() == rows.len() && (forall|i: int|
                            0 <= i < rows.len() ==> #[trigger] post[i] == (
                            if rows[i].tx_hash@ == operation.tx_hash@ {
                                operation
                            } else {
                                rows[i]
                            }))
                    } else {
                        post == rows.push(operation)
                    }
                } else {
                    if has_executed_tx(rows, operation.tx_hash@) {
                        post == rows
                    } else {
                        post == rows.push(operation)
                    }
                }
            }),
    {
        self.mempool.remove_tx(&operation.tx_hash);
        let ghost mid = *self;
        let mut i: usize = 0;
        while i < self.operations.executed_transactions.len()
            invariant
                0 <= i <= self.operations.executed_transactions@.len(),
                *self == mid,
                storage_wf(*old(self)),
                mid.blocks == old(self).blocks,
                mid.prover == old(self).prover,
                mid.ethereum == old(self).ethereum,
                mid.operations == old(self).operations,
                views_of(mid.mempool.txs@) == mempool_without(
                    old(self).mempool.txs@,
                    operation.tx_hash@,
                ),
                forall|j: int|
                    0 <= j < i ==> (
                    #[trigger] self.operations.executed_transactions@[j]).tx_hash@
                        != operation.tx_hash@,
            decreases self.operations.executed_transactions@.len() - i,
        {
            if crate::aggregated_operations::bytes_eq(
                &self.operations.executed_transactions[i].tx_hash,
                &operation.tx_hash,
            ) {
                if operation.success {
                    // A success replaces the stored row with the same hash.
                    self.operations.executed_transactions.set(i, operation);
                    proof {
                        let pre = old(self).operations.executed_transactions@;
                        let post = self.operations.executed_transactions@;
                        assert(pre[i as int].tx_hash@ == operation.tx_hash@);
                        assert forall|k: int| 0 <= k < pre.len() implies #[trigger] post[k] == (
                            if pre[k].tx_hash@ == operation.tx_hash@ {
                                operation
                            } else {
                                pre[k]
                            }) by {
                            if k != i {
                                assert(post[k] == pre[k]);
                                if pre[k].tx_hash@ == operation.tx_hash@ {
                                    assert(pre[k].tx_hash@ != pre[i as int].tx_hash@);
                                    assert(false);
                                }
                            }
                        }
                        assert forall|a: int, b: int|
                            0 <= a < b < post.len() implies (#[trigger] post[a]).tx_hash@ != (
                        #[trigger] post[b]).tx_hash@ by {
                            assert(pre[a].tx_hash@ != pre[b].tx_hash@);
                        }
                    }
                }
                return ;
            }
            i = i + 1;
        }
        self.operations.executed_transactions.push(operation);
        proof {
            let pre = old(self).operations.executed_transactions@;
            let post = self.operations.executed_transactions@;
            assert(post.drop_last() =~= pre);
            assert forall|a: int, b: int|
                0 <= a < b < post.len() implies (#[trigger] post[a]).tx_hash@ != (
            #[trigger] post[b]).tx_hash@ by {
                if b < post.len() - 1 {
                    assert(pre[a].tx_hash@ != pre[b].tx_hash@);
                } else {
                    assert(post[a] == pre[a]);
                }
            }
        }
    }

    /// The base-chain transaction hash that completed a withdrawal: the
    /// final hash of the confirmed execute operation covering the block the
    /// withdrawal was executed in.
    #[verifier::rlimit(100)]
    #[verifier::spinoff_prover]
    pub fn eth_tx_for_withdrawal(&self, withdrawal_hash: &Vec<u8>) -> (r: Option<Vec<u8>>)
        requires
            storage_wf(*self),
        ensures
            (r is Some) <==> withdrawal_completion_visible(*self, withdrawal_hash@),
    {
        let block_number = match self.operations.get_executed_operation(withdrawal_hash) {
            Option::Some(row) => row.block_number,
            Option::None => {
                return None;
            },
        };
        proof {
            let rows = self.operations.executed_transactions@;
            let w = choose|i: int|
                0 <= i < rows.len() && (#[trigger] rows[i]).tx_hash@ == withdrawal_hash@;
            let f = choose|i: int|
                0 <= i < rows.len() && #[trigger] rows[i] == ExecutedTxRecord {
                    block_number,
                    ..rows[i]
                } && rows[i].tx_hash@ == withdrawal_hash@;
            // Hash uniqueness pins the found row to the specification's.
            assert(executed_tx_block(rows, withdrawal_hash@) == block_number as int);
        }
        let execute_block_operation = self.operations.get_aggregated_op_that_affects_block(
            AggregatedActionType::ExecuteBlocks,
            block_number,
        );
        match execute_block_operation {
            Option::Some((op_id, _)) => {
                proof {
                    let ops = self.operations.aggregate_operations@;
                    let found = choose|i: int|
                        0 <= i < ops.len() && (#[trigger] ops[i]).id == op_id
                            && ops[i].operation.spec_action_type()
                            == AggregatedActionType::ExecuteBlocks
                            && ops[i].operation.spec_first_block() <= block_number as int
                            && block_number as int <= ops[i].operation.spec_last_block();
                    let c = choose|i: int|
                        0 <= i < ops.len() && (#[trigger] ops[i]).operation.spec_action_type()
                            == AggregatedActionType::ExecuteBlocks
                            && ops[i].operation.spec_first_block() <= block_number as int
                            && block_number as int <= ops[i].operation.spec_last_block();
                    lemma_covering_op_unique(
                        ops,
                        AggregatedActionType::ExecuteBlocks,
                        block_number as int,
                        found,
                        c,
                    );
                    assert(execute_op_id_for_block(ops, block_number as int) == op_id);
                }
                crate::eth_sender::aggregated_op_final_hash(&self.ethereum, op_id)
            },
            Option::None => None,
        }
    }
}

impl Storage {
    /// A fresh store holding only the genesis block.
    pub fn new_with_genesis(genesis: Block, gas_price_limit: u128) -> (r: Storage)
        requires
            genesis.block_number == 0,
        ensures
            storage_wf(r),
            r.blocks.blocks@ == seq![genesis],
            r.blocks.executed@ == seq![true],
            r.operations.operations@.len() == 0,
            r.operations.aggregate_operations@.len() == 0,
            r.prover.single_proofs@.len() == 0,
            r.prover.aggregated_proofs@.len() == 0,
            r.ethereum.eth_ops@.len() == 0,
            r.ethereum.gas_price_limit == gas_price_limit,
    {
        Storage {
            blocks: BlockSchema::new_with_genesis(genesis),
            operations: OperationsSchema::new_empty(),
            mempool: MempoolSchema::new_empty(),
            prover: ProverSchema::new_empty(),
            ethereum: crate::eth_sender::EthereumSchema::new_empty(gas_price_limit),
        }
    }

    /// Seal the next block into the ledger.
    pub fn seal_block(&mut self, block: Block)
        requires
            storage_wf(*old(self)),
            block.block_number as int == old(self).blocks.blocks@.len(),
            old(self).blocks.blocks@.len() < 0x1_0000_0000,
        ensures
            storage_wf(*final(self)),
            final(self).blocks.blocks@ == old(self).blocks.blocks@.push(block),
            final(self).blocks.executed@ == old(self).blocks.executed@.push(false),
            final(self).operations == old(self).operations,
            final(self).prover == old(self).prover,
            final(self).ethereum == old(self).ethereum,
    {
        self.blocks.save_block(block);
    }

    /// Record a single-block proof.
    pub fn store_proof(&mut self, block_number: u32, proof: Vec<u8>)
        requires
            storage_wf(*old(self)),
        ensures
            storage_wf(*final(self)),
            final(self).prover.single_proofs@ == old(self).prover.single_proofs@.push(
                (block_number, proof),
            ),
            final(self).prover.aggregated_proofs@ == old(self).prover.aggregated_proofs@,
            final(self).blocks == old(self).blocks,
            final(self).operations == old(self).operations,
            final(self).ethereum == old(self).ethereum,
    {
        self.prover.store_proof(block_number, proof);
    }

    /// Record an aggregated proof for a block range.
    pub fn store_aggregated_proof(&mut self, first_block: u32, last_block: u32, proof: Vec<u8>)
        requires
            storage_wf(*old(self)),
        ensures
            storage_wf(*final(self)),
            final(self).prover.aggregated_proofs@ == old(self).prover.aggregated_proofs@.push(
                (first_block, last_block, proof),
            ),
            final(self).prover.single_proofs@ == old(self).prover.single_proofs@,
            final(self).blocks == old(self).blocks,
            final(self).operations == old(self).operations,
            final(self).ethereum == old(self).ethereum,
    {
        self.prover.store_aggregated_proof(first_block, last_block, proof);
    }
}

} // verus!
