//! The on-chain transaction sender's store and decision logic.
//!
//! One `ETHOperation` tracks one logical rollup operation's lifecycle on the
//! base chain: its attempts, each with a deadline block and a gas price, its
//! confirmation state, and the aggregated operation it publishes. Gas prices
//! never decrease across successive attempts of one operation; a new attempt
//! is issued only when the previous one is stuck past its deadline block.

use vstd::prelude::*;

use crate::aggregated_operations::{AggregatedActionType, AggregatedOperation};
use crate::storage::{storage_wf, ActionType, Storage};

verus! {

/// One broadcast attempt of an operation's base-chain transaction.
#[derive(Clone, Copy, Debug, PartialEq, Eq, Structural)]
pub struct TxAttempt {
    /// Base-chain block height after which this attempt counts as stuck.
    pub deadline_block: u64,
    /// Gas price used by this attempt.
    pub gas_price: u128,
}

/// One logical rollup operation's lifecycle on the base chain.
pub struct ETHOperation {
    /// Store-assigned sequential id, starting at 1.
    pub id: i64,
    /// Action type of the published aggregated operation.
    pub op_type: AggregatedActionType,
    /// The aggregated operation this transaction publishes, with its log id.
    pub op: Option<(i64, AggregatedOperation)>,
    /// Base-chain nonce reserved for this operation; all attempts share it.
    pub nonce: u64,
    /// Attempt history, oldest first; never empty.
    pub attempts: Vec<TxAttempt>,
    /// Hashes of the raw transactions broadcast for this operation.
    pub used_tx_hashes: Vec<Vec<u8>>,
    /// The signed transaction payload.
    pub encoded_tx_data: Vec<u8>,
    /// Has a broadcast attempt been confirmed on the base chain?
    pub confirmed: bool,
    /// Hash of the confirmed attempt, once confirmed.
    pub final_hash: Option<Vec<u8>>,
}

impl ETHOperation {
    /// Attempts exist and their gas prices never decrease.
    pub open spec fn wf(self) -> bool {
        &&& self.attempts@.len() >= 1
        &&& forall|i: int|
            0 <= i < self.attempts@.len() - 1 ==> (#[trigger] self.attempts@[i]).gas_price
                <= self.attempts@[i + 1].gas_price
    }

    /// The gas price of the most recent attempt.
    pub open spec fn spec_last_used_gas_price(self) -> u128 {
        self.attempts@.last().gas_price
    }

    /// The deadline block of the most recent attempt.
    pub open spec fn spec_last_deadline_block(self) -> u64 {
        self.attempts@.last().deadline_block
    }

    pub open spec fn spec_eq(self, other: ETHOperation) -> bool {
        &&& self.id == other.id
        &&& self.op_type == other.op_type
        &&& match (self.op, other.op) {
            (None, None) => true,
            (Some((a_id, a_op)), Some((b_id, b_op))) => a_id == b_id && a_op.spec_eq(b_op),
            _ => false,
        }
        &&& self.nonce == other.nonce
        &&& self.attempts@ == other.attempts@
        &&& self.used_tx_hashes@.len() == other.used_tx_hashes@.len()
        &&& forall|i: int|
            0 <= i < self.used_tx_hashes@.len() ==> (#[trigger] self.used_tx_hashes@[i])@
                == other.used_tx_hashes@[i]@
        &&& self.encoded_tx_data@ == other.encoded_tx_data@
        &&& self.confirmed == other.confirmed
        &&& match (self.final_hash, other.final_hash) {
            (None, None) => true,
            (Some(a), Some(b)) => a@ == b@,
            _ => false,
        }
    }

    /// The gas price of the most recent attempt.
    pub fn last_used_gas_price(&self) -> (r: u128)
        requires
            self.wf(),
        ensures
            r == self.spec_last_used_gas_price(),
    {
        self.attempts[self.attempts.len() - 1].gas_price
    }

    /// The deadline block of the most recent attempt.
    pub fn last_deadline_block(&self) -> (r: u64)
        requires
            self.wf(),
        ensures
            r == self.spec_last_deadline_block(),
    {
        self.attempts[self.attempts.len() - 1].deadline_block
    }

    /// A deep copy whose contents equal this operation's.
    pub fn duplicate(&self) -> (r: ETHOperation)
        ensures
            r.spec_eq(*self),
            r.attempts@ == self.attempts@,
            r.confirmed == self.confirmed,
            r.id == self.id,
    {
        let op = match &self.op {
            Option::None => None,
            Option::Some((op_id, op)) => Some((*op_id, op.duplicate())),
        };
        let mut used_tx_hashes: Vec<Vec<u8>> = Vec::new();
        let mut i: usize = 0;
        while i < self.used_tx_hashes.len()
            invariant
                0 <= i <= self.used_tx_hashes@.len(),
                used_tx_hashes@.len() == i,
                forall|j: int|
                    0 <= j < i ==> (#[trigger] used_tx_hashes@[j])@ == self.used_tx_hashes@[j]@,
            decreases self.used_tx_hashes@.len() - i,
        {
            used_tx_hashes.push(self.used_tx_hashes[i].clone());
            i = i + 1;
        }
        let final_hash = match &self.final_hash {
            Option::None => None,
            Option::Some(h) => Some(h.clone()),
        };
        ETHOperation {
            id: self.id,
            op_type: self.op_type,
            op,
            nonce: self.nonce,
            attempts: self.attempts.clone(),
            used_tx_hashes,
            encoded_tx_data: self.encoded_tx_data.clone(),
            confirmed: self.confirmed,
            final_hash,
        }
    }
}

/// Gas escalation never goes backwards: across an operation's attempt
/// history, every later attempt uses a gas price at least as large as every
/// earlier one.
pub proof fn lemma_gas_escalation_monotone(op: ETHOperation, i: int, j: int)
    requires
        op.wf(),
        0 <= i <= j < op.attempts@.len(),
    ensures
        op.attempts@[i].gas_price <= op.attempts@[j].gas_price,
    decreases j - i,
{
    if i < j {
        lemma_gas_escalation_monotone(op, i + 1, j);
        assert(op.attempts@[i].gas_price <= op.attempts@[i + 1].gas_price);
    }
}

/// Aggregate counters over the stored on-chain transactions.
#[derive(Clone, Copy, Debug, PartialEq, Eq, Structural)]
pub struct ETHStats {
    /// On-chain transactions saved so far, confirmed or not.
    pub saved_ops: usize,
    /// Confirmed commit transactions.
    pub commit_ops: usize,
    /// Confirmed proof-publishing transactions.
    pub verify_ops: usize,
    /// Confirmed execute transactions.
    pub execute_ops: usize,
}

/// The store's answer to persisting a new on-chain transaction.
#[derive(Clone, Copy, Debug, PartialEq, Eq, Structural)]
pub struct InsertedOperationResponse {
    /// Id assigned to the new operation.
    pub id: i64,
    /// Base-chain nonce reserved for it.
    pub nonce: u64,
}

/// Count of stored operations satisfying `confirmed` and the action type.
pub open spec fn count_confirmed(ops: Seq<ETHOperation>, ty: AggregatedActionType) -> int
    decreases ops.len(),
{
    if ops.len() == 0 {
        0
    } else {
        count_confirmed(ops.drop_last(), ty) + if ops.last().confirmed && ops.last().op_type
            == ty {
            1int
        } else {
            0int
        }
    }
}

/// An aggregated operation is processed once some on-chain transaction
/// links to it.
pub open spec fn agg_op_is_processed(ops: Seq<ETHOperation>, agg_id: i64) -> bool {
    exists|i: int|
        0 <= i < ops.len() && match (#[trigger] ops[i]).op {
            Some((linked_id, _)) => linked_id == agg_id,
            None => false,
        }
}

/// The on-chain transactions tables: operation rows, their attempt history,
/// and the gas price parameters kept by the sender's gas policy.
pub struct EthereumSchema {
    /// Stored operations; ids are the append order, nonces too.
    pub eth_ops: Vec<ETHOperation>,
    /// Rolling cap the gas policy keeps to avoid unbounded escalation.
    pub gas_price_limit: u128,
    /// Rolling average the gas policy maintains.
    pub average_gas_price: u128,
}

impl EthereumSchema {
    /// Ids and nonces are sequential; every row is well formed.
    pub open spec fn wf(self) -> bool {
        &&& self.eth_ops@.len() <= 0x1_0000_0000_0000
        &&& forall|i: int|
            0 <= i < self.eth_ops@.len() ==> {
                &&& (#[trigger] self.eth_ops@[i]).wf()
                &&& self.eth_ops@[i].id == i + 1
                &&& self.eth_ops@[i].nonce == i
            }
    }

    pub fn new_empty(gas_price_limit: u128) -> (r: EthereumSchema)
        ensures
            r.wf(),
            r.eth_ops@.len() == 0,
            r.gas_price_limit == gas_price_limit,
            r.average_gas_price == 0,
    {
        EthereumSchema { eth_ops: Vec::new(), gas_price_limit, average_gas_price: 0 }
    }
}

/// A mutable borrow of one stored operation, for in-place updates.
fn eth_op_entry(ops: &mut Vec<ETHOperation>, i: usize) -> (entry: &mut ETHOperation)
    requires
        i < old(ops).len(),
    ensures
        *entry == old(ops)@[i as int],
        final(ops)@ == old(ops)@.update(i as int, *final(entry)),
{
    &mut ops[i]
}

/// The store's failure to locate an operation row.
#[derive(Clone, Copy, Debug, PartialEq, Eq, Structural)]
pub enum EthSenderError {
    /// No stored operation carries the given id.
    OperationNotFound,
}

/// The unconfirmed operations, oldest first.
pub open spec fn unconfirmed_of(ops: Seq<ETHOperation>) -> Seq<ETHOperation>
    decreases ops.len(),
{
    if ops.len() == 0 {
        Seq::empty()
    } else {
        let rest = unconfirmed_of(ops.drop_last());
        if !ops.last().confirmed {
            rest.push(ops.last())
        } else {
            rest
        }
    }
}

/// The aggregated operations no on-chain transaction links to, with their
/// log ids, oldest first.
pub open spec fn unprocessed_of(
    aggs: Seq<crate::storage::StoredAggregatedOperation>,
    eth_ops: Seq<ETHOperation>,
) -> Seq<(i64, AggregatedOperation)>
    decreases aggs.len(),
{
    if aggs.len() == 0 {
        Seq::empty()
    } else {
        let rest = unprocessed_of(aggs.drop_last(), eth_ops);
        if !agg_op_is_processed(eth_ops, aggs.last().id) {
            rest.push((aggs.last().id, aggs.last().operation))
        } else {
            rest
        }
    }
}

/// Element-wise deep equality of operation sequences.
pub open spec fn eth_ops_seq_eq(a: Seq<ETHOperation>, b: Seq<ETHOperation>) -> bool {
    a.len() == b.len() && forall|i: int| 0 <= i < a.len() ==> (#[trigger] a[i]).spec_eq(b[i])
}

/// Element-wise deep equality of id-tagged aggregated operations.
pub open spec fn tagged_ops_seq_eq(
    a: Seq<(i64, AggregatedOperation)>,
    b: Seq<(i64, AggregatedOperation)>,
) -> bool {
    a.len() == b.len() && forall|i: int|
        0 <= i < a.len() ==> (#[trigger] a[i]).0 == b[i].0 && a[i].1.spec_eq(b[i].1)
}

impl EthereumSchema {
    /// Persist a brand-new operation with its first attempt; the store
    /// assigns the next sequential id and base-chain nonce.
    pub fn save_new_eth_tx(
        &mut self,
        op_type: AggregatedActionType,
        op: Option<(i64, AggregatedOperation)>,
        deadline_block: u64,
        used_gas_price: u128,
        raw_tx: Vec<u8>,
    ) -> (r: InsertedOperationResponse)
        requires
            old(self).wf(),
            old(self).eth_ops@.len() < 0x1_0000_0000_0000,
        ensures
            final(self).wf(),
            final(self).eth_ops@.len() == old(self).eth_ops@.len() + 1,
            final(self).eth_ops@.drop_last() == old(self).eth_ops@,
            final(self).gas_price_limit == old(self).gas_price_limit,
            final(self).average_gas_price == old(self).average_gas_price,
            ({
                let new_op = final(self).eth_ops@.last();
                &&& new_op.id == old(self).eth_ops@.len() + 1
                &&& new_op.op_type == op_type
                &&& new_op.op == op
                &&& new_op.nonce == old(self).eth_ops@.len()
                &&& new_op.attempts@ == seq![
                    TxAttempt { deadline_block, gas_price: used_gas_price },
                ]
                &&& new_op.used_tx_hashes@.len() == 0
                &&& new_op.encoded_tx_data@ == raw_tx@
                &&& !new_op.confirmed
                &&& new_op.final_hash is None
            }),
            r.id == old(self).eth_ops@.len() + 1,
            r.nonce == old(self).eth_ops@.len(),
    {
        let id = self.eth_ops.len() as i64 + 1;
        let nonce = self.eth_ops.len() as u64;
        let mut attempts: Vec<TxAttempt> = Vec::new();
        attempts.push(TxAttempt { deadline_block, gas_price: used_gas_price });
        proof {
            assert(attempts@ =~= seq![TxAttempt { deadline_block, gas_price: used_gas_price }]);
        }
        let new_op = ETHOperation {
            id,
            op_type,
            op,
            nonce,
            attempts,
            used_tx_hashes: Vec::new(),
            encoded_tx_data: raw_tx,
            confirmed: false,
            final_hash: None,
        };
        self.eth_ops.push(new_op);
        proof {
            assert(self.eth_ops@.drop_last() =~= old(self).eth_ops@);
        }
        InsertedOperationResponse { id, nonce }
    }

    /// Record the hash of a newly broadcast raw transaction against its
    /// operation.
    pub fn add_hash_entry(&mut self, eth_op_id: i64, hash: &Vec<u8>) -> (r: Result<
        (),
        EthSenderError,
    >)
        requires
            old(self).wf(),
        ensures
            final(self).wf(),
            (r is Ok) <==> 1 <= eth_op_id <= old(self).eth_ops@.len(),
            r is Err ==> *final(self) == *old(self),
            r is Ok ==> {
                let i = eth_op_id - 1;
                &&& final(self).eth_ops@.len() == old(self).eth_ops@.len()
                &&& forall|j: int|
                    0 <= j < old(self).eth_ops@.len() && j != i ==> final(self).eth_ops@[j] == old(
                        self,
                    ).eth_ops@[j]
                &&& final(self).eth_ops@[i] == ETHOperation {
                    used_tx_hashes: final(self).eth_ops@[i].used_tx_hashes,
                    ..old(self).eth_ops@[i]
                }
                &&& final(self).eth_ops@[i].used_tx_hashes@.len() == old(
                    self,
                ).eth_ops@[i].used_tx_hashes@.len() + 1
                &&& final(self).eth_ops@[i].used_tx_hashes@.last()@ == hash@
                &&& final(self).eth_ops@[i].used_tx_hashes@.drop_last() == old(
                    self,
                ).eth_ops@[i].used_tx_hashes@
            },
            final(self).gas_price_limit == old(self).gas_price_limit,
            final(self).average_gas_price == old(self).average_gas_price,
    {
        if eth_op_id < 1 || eth_op_id > self.eth_ops.len() as i64 {
            return Err(EthSenderError::OperationNotFound);
        }
        let i = (eth_op_id - 1) as usize;
        let entry = eth_op_entry(&mut self.eth_ops, i);
        entry.used_tx_hashes.push(hash.clone());
        proof {
            assert(final(self).eth_ops@[i as int].used_tx_hashes@.drop_last() =~= old(
                self,
            ).eth_ops@[i as int].used_tx_hashes@);
        }
        Ok(())
    }

    /// Append a gas-escalated attempt to an existing operation. The new gas
    /// price must not fall below the previous attempt's.
    pub fn update_eth_tx(&mut self, eth_op_id: i64, new_deadline_block: u64, new_gas_value: u128) -> (r:
        Result<(), EthSenderError>)
        requires
            old(self).wf(),
            forall|j: int|
                0 <= j < old(self).eth_ops@.len() && (#[trigger] old(self).eth_ops@[j]).id
                    == eth_op_id ==> new_gas_value >= old(
                    self,
                ).eth_ops@[j].spec_last_used_gas_price(),
        ensures
            final(self).wf(),
            (r is Ok) <==> 1 <= eth_op_id <= old(self).eth_ops@.len(),
            r is Err ==> *final(self) == *old(self),
            r is Ok ==> {
                let i = eth_op_id - 1;
                &&& final(self).eth_ops@.len() == old(self).eth_ops@.len()
                &&& forall|j: int|
                    0 <= j < old(self).eth_ops@.len() && j != i ==> final(self).eth_ops@[j] == old(
                        self,
                    ).eth_ops@[j]
                &&& final(self).eth_ops@[i] == ETHOperation {
                    attempts: final(self).eth_ops@[i].attempts,
                    ..old(self).eth_ops@[i]
                }
                &&& final(self).eth_ops@[i].attempts@ == old(self).eth_ops@[i].attempts@.push(
                    TxAttempt { deadline_block: new_deadline_block, gas_price: new_gas_value },
                )
            },
            final(self).gas_price_limit == old(self).gas_price_limit,
            final(self).average_gas_price == old(self).average_gas_price,
    {
        if eth_op_id < 1 || eth_op_id > self.eth_ops.len() as i64 {
            return Err(EthSenderError::OperationNotFound);
        }
        let i = (eth_op_id - 1) as usize;
        let entry = eth_op_entry(&mut self.eth_ops, i);
        entry.attempts.push(
            TxAttempt { deadline_block: new_deadline_block, gas_price: new_gas_value },
        );
        Ok(())
    }

    /// The stored gas price cap.
    pub fn load_gas_price_limit(&self) -> (r: u128)
        ensures
            r == self.gas_price_limit,
    {
        self.gas_price_limit
    }

    /// Update the gas policy parameters.
    pub fn update_gas_price_params(&mut self, gas_price_limit: u128, average_gas_price: u128)
        ensures
            final(self).gas_price_limit == gas_price_limit,
            final(self).average_gas_price == average_gas_price,
            final(self).eth_ops@ == old(self).eth_ops@,
    {
        self.gas_price_limit = gas_price_limit;
        self.average_gas_price = average_gas_price;
    }

    /// Aggregate counters over the stored operations.
    pub fn load_stats(&self) -> (r: ETHStats)
        ensures
            r.saved_ops == self.eth_ops@.len(),
            r.commit_ops == count_confirmed(self.eth_ops@, AggregatedActionType::CommitBlocks),
            r.verify_ops == count_confirmed(
                self.eth_ops@,
                AggregatedActionType::PublishProofBlocksOnchain,
            ),
            r.execute_ops == count_confirmed(self.eth_ops@, AggregatedActionType::ExecuteBlocks),
    {
        let mut commit_ops: usize = 0;
        let mut verify_ops: usize = 0;
        let mut execute_ops: usize = 0;
        let mut i: usize = 0;
        while i < self.eth_ops.len()
            invariant
                0 <= i <= self.eth_ops@.len(),
                commit_ops == count_confirmed(
                    self.eth_ops@.take(i as int),
                    AggregatedActionType::CommitBlocks,
                ),
                verify_ops == count_confirmed(
                    self.eth_ops@.take(i as int),
                    AggregatedActionType::PublishProofBlocksOnchain,
                ),
                execute_ops == count_confirmed(
                    self.eth_ops@.take(i as int),
                    AggregatedActionType::ExecuteBlocks,
                ),
                commit_ops <= i && verify_ops <= i && execute_ops <= i,
            decreases self.eth_ops@.len() - i,
        {
            proof {
                let ops = self.eth_ops@;
                assert(ops.take(i as int + 1).drop_last() =~= ops.take(i as int));
                assert(ops.take(i as int + 1).last() == ops[i as int]);
            }
            let op = &self.eth_ops[i];
            if op.confirmed {
                match op.op_type {
                    AggregatedActionType::CommitBlocks => {
                        commit_ops = commit_ops + 1;
                    },
                    AggregatedActionType::PublishProofBlocksOnchain => {
                        verify_ops = verify_ops + 1;
                    },
                    AggregatedActionType::ExecuteBlocks => {
                        execute_ops = execute_ops + 1;
                    },
                    AggregatedActionType::CreateProofBlocks => {},
                }
            }
            i = i + 1;
        }
        proof {
            assert(self.eth_ops@.take(self.eth_ops@.len() as int) =~= self.eth_ops@);
        }
        ETHStats { saved_ops: self.eth_ops.len(), commit_ops, verify_ops, execute_ops }
    }

    /// Ordering gate: before a new logical operation's first transaction is
    /// submitted, the immediately preceding operation (by the store's
    /// sequential id) must already be confirmed.
    ///
    /// This enforces strict sequential confirmation, a deliberate design
    /// decision: it trades throughput for nonce ordering safety against
    /// the base chain.
    pub fn is_previous_operation_confirmed(&self, op: &ETHOperation) -> (r: bool)
        requires
            self.wf(),
        ensures
            r == (op.id <= 1 || (2 <= op.id <= self.eth_ops@.len() && self.eth_ops@[op.id
                - 2].confirmed)),
    {
        if op.id <= 1 {
            return true;
        }
        if op.id > self.eth_ops.len() as i64 {
            return false;
        }
        self.eth_ops[(op.id - 2) as usize].confirmed
    }

    /// The unconfirmed operations with their attempt history, oldest first.
    pub fn load_unconfirmed_operations(&self) -> (r: Vec<ETHOperation>)
        ensures
            eth_ops_seq_eq(r@, unconfirmed_of(self.eth_ops@)),
    {
        let mut result: Vec<ETHOperation> = Vec::new();
        let mut i: usize = 0;
        while i < self.eth_ops.len()
            invariant
                0 <= i <= self.eth_ops@.len(),
                eth_ops_seq_eq(result@, unconfirmed_of(self.eth_ops@.take(i as int))),
            decreases self.eth_ops@.len() - i,
        {
            proof {
                let ops = self.eth_ops@;
                assert(ops.take(i as int + 1).drop_last() =~= ops.take(i as int));
                assert(ops.take(i as int + 1).last() == ops[i as int]);
            }
            let op = &self.eth_ops[i];
            if !op.confirmed {
                result.push(op.duplicate());
            }
            i = i + 1;
        }
        proof {
            assert(self.eth_ops@.take(self.eth_ops@.len() as int) =~= self.eth_ops@);
        }
        result
    }
}

/// The aggregated operations not yet picked up by any on-chain transaction,
/// with their log ids, oldest first.
fn load_unprocessed_operations(storage: &Storage) -> (r: Vec<(i64, AggregatedOperation)>)
    ensures
        tagged_ops_seq_eq(
            r@,
            unprocessed_of(storage.operations.aggregate_operations@, storage.ethereum.eth_ops@),
        ),
{
    let aggs = &storage.operations.aggregate_operations;
    let mut result: Vec<(i64, AggregatedOperation)> = Vec::new();
    let mut i: usize = 0;
    while i < aggs.len()
        invariant
            0 <= i <= aggs@.len(),
            tagged_ops_seq_eq(
                result@,
                unprocessed_of(aggs@.take(i as int), storage.ethereum.eth_ops@),
            ),
        decreases aggs@.len() - i,
    {
        proof {
            assert(aggs@.take(i as int + 1).drop_last() =~= aggs@.take(i as int));
            assert(aggs@.take(i as int + 1).last() == aggs@[i as int]);
        }
        let row = &aggs[i];
        let row_id = row.id;
        let mut processed = false;
        let mut j: usize = 0;
        while j < storage.ethereum.eth_ops.len()
            invariant_except_break
                0 <= j <= storage.ethereum.eth_ops@.len(),
                !processed,
                forall|k: int|
                    0 <= k < j ==> !(match (#[trigger] storage.ethereum.eth_ops@[k]).op {
                        Option::Some((linked_id, _)) => linked_id == row_id,
                        Option::None => false,
                    }),
            ensures
                processed == agg_op_is_processed(storage.ethereum.eth_ops@, row_id),
            decreases storage.ethereum.eth_ops@.len() - j,
        {
            let mut hit = false;
            match &storage.ethereum.eth_ops[j].op {
                Option::Some((linked_id, _)) => {
                    if *linked_id == row_id {
                        hit = true;
                    }
                },
                Option::None => {},
            }
            if hit {
                processed = true;
                proof {
                    assert(match storage.ethereum.eth_ops@[j as int].op {
                        Option::Some((linked_id, _)) => linked_id == row_id,
                        Option::None => false,
                    });
                }
                break;
            }
            j = j + 1;
        }
        if !processed {
            result.push((row.id, row.operation.duplicate()));
        }
        i = i + 1;
    }
    proof {
        assert(aggs@.take(aggs@.len() as int) =~= aggs@);
    }
    result
}

impl Storage {
    /// Reconstruct the sender's queue after a restart: the unconfirmed
    /// on-chain operations with their attempt history, and the aggregated
    /// operations no transaction was started for. Recovery resumes exactly
    /// where the store says it left off; an operation already in flight is
    /// never handed out as new work.
    pub fn restore_state(&self) -> (r: (Vec<ETHOperation>, Vec<(i64, AggregatedOperation)>))
        ensures
            eth_ops_seq_eq(r.0@, unconfirmed_of(self.ethereum.eth_ops@)),
            tagged_ops_seq_eq(
                r.1@,
                unprocessed_of(self.operations.aggregate_operations@, self.ethereum.eth_ops@),
            ),
    {
        let unconfirmed_ops = self.ethereum.load_unconfirmed_operations();
        let unprocessed_ops = load_unprocessed_operations(self);
        (unconfirmed_ops, unprocessed_ops)
    }

    /// The aggregated operations no on-chain transaction was started for.
    pub fn load_new_operations(&self) -> (r: Vec<(i64, AggregatedOperation)>)
        ensures
            tagged_ops_seq_eq(
                r@,
                unprocessed_of(self.operations.aggregate_operations@, self.ethereum.eth_ops@),
            ),
    {
        load_unprocessed_operations(self)
    }

    /// On an observed on-chain confirmation, atomically apply all effects of
    /// the operation: for a commit, confirm the per-block commit rows of its
    /// range; for an execute, apply each block's state update, mark it
    /// executed and confirm the per-block verify rows; in every case mark
    /// the on-chain transaction that carries `hash` confirmed with that
    /// final hash. In-memory, the whole write is one transition, mirroring
    /// the single store-level transaction the sender relies on.
    #[verifier::rlimit(100)]
    #[verifier::spinoff_prover]
    pub fn confirm_operation(&mut self, hash: &Vec<u8>, op: &ETHOperation)
        requires
            storage_wf(*old(self)),
            (match op.op {
                Option::Some((_, linked_op)) => linked_op.wf() && linked_op.spec_last_block()
                    <= old(self).blocks.spec_last_sealed(),
                Option::None => true,
            }),
        ensures
            storage_wf(*final(self)),
            final(self).operations.aggregate_operations@
                == old(self).operations.aggregate_operations@,
            final(self).prover.single_proofs@ == old(self).prover.single_proofs@,
            final(self).prover.aggregated_proofs@ == old(self).prover.aggregated_proofs@,
            final(self).blocks.blocks@ == old(self).blocks.blocks@,
            final(self).ethereum.gas_price_limit == old(self).ethereum.gas_price_limit,
            final(self).ethereum.average_gas_price == old(self).ethereum.average_gas_price,
            // The per-block rows of the operation's range and action type
            // are confirmed; all other rows keep their state.
            final(self).operations.operations@.len() == old(self).operations.operations@.len(),
            forall|i: int|
                0 <= i < old(self).operations.operations@.len()
                    ==> #[trigger] final(self).operations.operations@[i] == (
                if confirmed_row_range(*op).contains_row(old(self).operations.operations@[i]) {
                    crate::storage::StoredOperation {
                        confirmed: true,
                        ..old(self).operations.operations@[i]
                    }
                } else {
                    old(self).operations.operations@[i]
                }),
            // Executed blocks get their state updates applied.
            final(self).blocks.executed@.len() == old(self).blocks.executed@.len(),
            forall|i: int|
                0 <= i < old(self).blocks.executed@.len() ==> final(self).blocks.executed@[i] == (
                if executed_block_range(*op).contains_block(i) {
                    true
                } else {
                    old(self).blocks.executed@[i]
                }),
            // The transaction carrying the hash is confirmed with it.
            final(self).ethereum.eth_ops@.len() == old(self).ethereum.eth_ops@.len(),
            forall|i: int|
                0 <= i < old(self).ethereum.eth_ops@.len() ==> if holds_hash(
                    old(self).ethereum.eth_ops@[i],
                    hash@,
                ) {
                    (#[trigger] final(self).ethereum.eth_ops@[i]) == ETHOperation {
                        confirmed: true,
                        final_hash: final(self).ethereum.eth_ops@[i].final_hash,
                        ..old(self).ethereum.eth_ops@[i]
                    } && final(self).ethereum.eth_ops@[i].confirmed && (match final(self).ethereum.eth_ops@[i].final_hash {
                        Option::Some(h) => h@ == hash@,
                        Option::None => false,
                    })
                } else {
                    (#[trigger] final(self).ethereum.eth_ops@[i]) == old(self).ethereum.eth_ops@[i]
                },
    {
        match &op.op {
            Option::Some((_, AggregatedOperation::CommitBlocks(commit_op))) => {
                let (first_block, last_block) = range_of_blocks(&commit_op.blocks);
                self.operations.confirm_operations(first_block, last_block, ActionType::Commit);
            },
            Option::Some((_, AggregatedOperation::ExecuteBlocks(execute_op))) => {
                let (first_block, last_block) = range_of_blocks(&execute_op.blocks);
                let mut n: u64 = first_block as u64;
                while n <= last_block as u64
                    invariant
                        first_block <= n <= last_block as int + 1,
                        last_block as int <= self.blocks.spec_last_sealed(),
                        self.blocks.wf(),
                        self.blocks.blocks@ == old(self).blocks.blocks@,
                        self.operations == old(self).operations,
                        self.prover == old(self).prover,
                        self.ethereum == old(self).ethereum,
                        self.blocks.executed@.len() == old(self).blocks.executed@.len(),
                        forall|i: int|
                            0 <= i < old(self).blocks.executed@.len() ==> self.blocks.executed@[i]
                                == (if first_block <= i < n as int {
                                true
                            } else {
                                old(self).blocks.executed@[i]
                            }),
                    decreases last_block as int + 1 - n,
                {
                    self.blocks.apply_block_execution(n as u32);
                    n = n + 1;
                }
                self.operations.confirm_operations(first_block, last_block, ActionType::Verify);
            },
            _ => {},
        }
        confirm_eth_tx(&mut self.ethereum, hash);
    }
}

/// The `[first, last]` block-number range of a non-empty block list.
fn range_of_blocks(blocks: &Vec<crate::block::Block>) -> (r: (u32, u32))
    requires
        blocks@.len() > 0,
    ensures
        r.0 == blocks@.first().block_number,
        r.1 == blocks@.last().block_number,
{
    (blocks[0].block_number, blocks[blocks.len() - 1].block_number)
}

/// The per-block rows an on-chain confirmation confirms.
pub struct ConfirmedRowRange {
    pub applies: bool,
    pub first: int,
    pub last: int,
    pub action_type: ActionType,
}

impl ConfirmedRowRange {
    pub open spec fn contains_row(self, row: crate::storage::StoredOperation) -> bool {
        self.applies && self.first <= row.block_number <= self.last && row.action_type
            == self.action_type
    }
}

/// Which per-block rows an operation's confirmation affects.
pub open spec fn confirmed_row_range(op: ETHOperation) -> ConfirmedRowRange {
    match op.op {
        Option::Some((_, AggregatedOperation::CommitBlocks(commit_op))) => ConfirmedRowRange {
            applies: true,
            first: commit_op.blocks@.first().block_number as int,
            last: commit_op.blocks@.last().block_number as int,
            action_type: ActionType::Commit,
        },
        Option::Some((_, AggregatedOperation::ExecuteBlocks(execute_op))) => ConfirmedRowRange {
            applies: true,
            first: execute_op.blocks@.first().block_number as int,
            last: execute_op.blocks@.last().block_number as int,
            action_type: ActionType::Verify,
        },
        _ => ConfirmedRowRange {
            applies: false,
            first: 0,
            last: 0,
            action_type: ActionType::Commit,
        },
    }
}

/// The blocks an operation's confirmation marks executed.
pub struct ExecutedBlockRange {
    pub applies: bool,
    pub first: int,
    pub last: int,
}

impl ExecutedBlockRange {
    pub open spec fn contains_block(self, block_number: int) -> bool {
        self.applies && self.first <= block_number <= self.last
    }
}

/// Which blocks an operation's confirmation executes.
pub open spec fn executed_block_range(op: ETHOperation) -> ExecutedBlockRange {
    match op.op {
        Option::Some((_, AggregatedOperation::ExecuteBlocks(execute_op))) => ExecutedBlockRange {
            applies: true,
            first: execute_op.blocks@.first().block_number as int,
            last: execute_op.blocks@.last().block_number as int,
        },
        _ => ExecutedBlockRange { applies: false, first: 0, last: 0 },
    }
}

/// Does the operation carry this transaction hash among its attempts?
pub open spec fn holds_hash(op: ETHOperation, hash: Seq<u8>) -> bool {
    exists|i: int| 0 <= i < op.used_tx_hashes@.len() && (#[trigger] op.used_tx_hashes@[i])@ == hash
}

/// Mark every operation that broadcast this hash confirmed, with the hash
/// as its final hash.
#[verifier::rlimit(100)]
#[verifier::spinoff_prover]
fn confirm_eth_tx(schema: &mut EthereumSchema, hash: &Vec<u8>)
    requires
        old(schema).wf(),
    ensures
        final(schema).wf(),
        final(schema).gas_price_limit == old(schema).gas_price_limit,
        final(schema).average_gas_price == old(schema).average_gas_price,
        final(schema).eth_ops@.len() == old(schema).eth_ops@.len(),
        forall|i: int|
            0 <= i < old(schema).eth_ops@.len() ==> if holds_hash(old(schema).eth_ops@[i], hash@) {
                (#[trigger] final(schema).eth_ops@[i]) == ETHOperation {
                    confirmed: true,
                    final_hash: final(schema).eth_ops@[i].final_hash,
                    ..old(schema).eth_ops@[i]
                } && final(schema).eth_ops@[i].confirmed && (match final(schema).eth_ops@[i].final_hash {
                    Option::Some(h) => h@ == hash@,
                    Option::None => false,
                })
            } else {
                (#[trigger] final(schema).eth_ops@[i]) == old(schema).eth_ops@[i]
            },
{
    let mut i: usize = 0;
    while i < schema.eth_ops.len()
        invariant
            0 <= i <= schema.eth_ops@.len(),
            old(schema).wf(),
            schema.gas_price_limit == old(schema).gas_price_limit,
            schema.average_gas_price == old(schema).average_gas_price,
            schema.eth_ops@.len() == old(schema).eth_ops@.len(),
            forall|j: int|
                i <= j < old(schema).eth_ops@.len() ==> #[trigger] schema.eth_ops@[j] == old(
                    schema,
                ).eth_ops@[j],
            forall|j: int|
                0 <= j < i ==> if holds_hash(old(schema).eth_ops@[j], hash@) {
                    (#[trigger] schema.eth_ops@[j]) == ETHOperation {
                        confirmed: true,
                        final_hash: schema.eth_ops@[j].final_hash,
                        ..old(schema).eth_ops@[j]
                    } && schema.eth_ops@[j].confirmed && (match schema.eth_ops@[j].final_hash {
                        Option::Some(h) => h@ == hash@,
                        Option::None => false,
                    })
                } else {
                    (#[trigger] schema.eth_ops@[j]) == old(schema).eth_ops@[j]
                },
        decreases schema.eth_ops@.len() - i,
    {
        let mut found = false;
        let op_hash_count = schema.eth_ops[i].used_tx_hashes.len();
        let mut k: usize = 0;
        while k < op_hash_count
            invariant
                0 <= k <= op_hash_count,
                op_hash_count == schema.eth_ops@[i as int].used_tx_hashes@.len(),
                0 <= (i as int) < schema.eth_ops@.len(),
                found ==> holds_hash(schema.eth_ops@[i as int], hash@),
                !found ==> forall|m: int|
                    0 <= m < k ==> (#[trigger] schema.eth_ops@[i as int].used_tx_hashes@[m])@
                        != hash@,
            ensures
                found == holds_hash(schema.eth_ops@[i as int], hash@),
            decreases op_hash_count - k,
        {
            if crate::aggregated_operations::bytes_eq(&schema.eth_ops[i].used_tx_hashes[k], hash) {
                found = true;
                break;
            }
            k = k + 1;
        }
        proof {
            assert(schema.eth_ops@[i as int] == old(schema).eth_ops@[i as int]);
            assert(found == holds_hash(old(schema).eth_ops@[i as int], hash@));
        }
        if found {
            let entry = eth_op_entry(&mut schema.eth_ops, i);
            entry.confirmed = true;
            entry.final_hash = Some(hash.clone());
            proof {
                assert(schema.eth_ops@[i as int] == ETHOperation {
                    confirmed: true,
                    final_hash: schema.eth_ops@[i as int].final_hash,
                    ..old(schema).eth_ops@[i as int]
                });
                assert(match schema.eth_ops@[i as int].final_hash {
                    Option::Some(h) => h@ == hash@,
                    Option::None => false,
                });
            }
        }
        i = i + 1;
    }
    proof {
        assert forall|j: int| 0 <= j < schema.eth_ops@.len() implies {
            &&& (#[trigger] schema.eth_ops@[j]).wf()
            &&& schema.eth_ops@[j].id == j + 1
            &&& schema.eth_ops@[j].nonce == j
        } by {
            assert(old(schema).eth_ops@[j].wf());
            if holds_hash(old(schema).eth_ops@[j], hash@) {
                assert(schema.eth_ops@[j].attempts@ == old(schema).eth_ops@[j].attempts@);
            }
        }
    }
}

/// What the sender should do next for an in-flight operation.
#[derive(Clone, Copy, Debug, PartialEq, Eq, Structural)]
pub enum SenderAction {
    /// The attempt is still within its deadline: keep polling.
    Wait,
    /// The attempt is stuck: broadcast a replacement with this deadline and
    /// this escalated gas price.
    Resend { deadline_block: u64, gas_price: u128 },
    /// The operation was confirmed on chain: persist the confirmation.
    Confirm,
}

/// A gas price at least as large as both the previous attempt's and the
/// network's current suggestion. The exact escalation curve is a policy
/// parameter; this floor is what correctness requires.
pub fn escalated_gas_price(last_used_gas_price: u128, network_gas_price: u128) -> (r: u128)
    ensures
        r >= last_used_gas_price,
        r >= network_gas_price,
        r == last_used_gas_price || r == network_gas_price,
{
    if network_gas_price > last_used_gas_price {
        network_gas_price
    } else {
        last_used_gas_price
    }
}

/// One step of the sender's confirmation state machine for one in-flight
/// operation: confirm when the base chain confirmed it; resubmit with
/// escalated gas once the current attempt is stuck past its deadline block;
/// otherwise wait. A stuck attempt is superseded, never cancelled.
pub fn sender_step(
    op: &ETHOperation,
    current_block: u64,
    confirmed_on_chain: bool,
    network_gas_price: u128,
    deadline_interval: u64,
) -> (r: SenderAction)
    requires
        op.wf(),
        current_block + deadline_interval <= u64::MAX,
    ensures
        confirmed_on_chain ==> r is Confirm,
        !confirmed_on_chain && op.spec_last_deadline_block() < current_block ==> (r matches (
        SenderAction::Resend { deadline_block, gas_price }) && gas_price
            >= op.spec_last_used_gas_price() && gas_price >= network_gas_price && deadline_block
            == current_block + deadline_interval),
        !confirmed_on_chain && op.spec_last_deadline_block() >= current_block ==> r is Wait,
{
    if confirmed_on_chain {
        return SenderAction::Confirm;
    }
    if op.last_deadline_block() < current_block {
        let gas_price = escalated_gas_price(op.last_used_gas_price(), network_gas_price);
        SenderAction::Resend { deadline_block: current_block + deadline_interval, gas_price }
    } else {
        SenderAction::Wait
    }
}

/// The final hash of the confirmed on-chain transaction that published the
/// given aggregated operation, when one is confirmed.
pub fn aggregated_op_final_hash(schema: &EthereumSchema, agg_op_id: i64) -> (r: Option<Vec<u8>>)
    ensures
        (r is Some) <==> exists|i: int|
            0 <= i < schema.eth_ops@.len() && (#[trigger] schema.eth_ops@[i]).confirmed
                && (match schema.eth_ops@[i].op {
                Option::Some((linked_id, _)) => linked_id == agg_op_id,
                Option::None => false,
            }) && schema.eth_ops@[i].final_hash is Some,
        r matches Some(hash) ==> exists|i: int|
            0 <= i < schema.eth_ops@.len() && (#[trigger] schema.eth_ops@[i]).confirmed
                && (match schema.eth_ops@[i].op {
                Option::Some((linked_id, _)) => linked_id == agg_op_id,
                Option::None => false,
            }) && (match schema.eth_ops@[i].final_hash {
                Option::Some(h) => h@ == hash@,
                Option::None => false,
            }),
{
    let mut i: usize = 0;
    while i < schema.eth_ops.len()
        invariant
            0 <= i <= schema.eth_ops@.len(),
            forall|j: int|
                0 <= j < i ==> !((#[trigger] schema.eth_ops@[j]).confirmed && (match schema
                    .eth_ops@[j].op {
                    Option::Some((linked_id, _)) => linked_id == agg_op_id,
                    Option::None => false,
                }) && schema.eth_ops@[j].final_hash is Some),
        decreases schema.eth_ops@.len() - i,
    {
        let op = &schema.eth_ops[i];
        let linked = match &op.op {
            Option::Some((linked_id, _)) => *linked_id == agg_op_id,
            Option::None => false,
        };
        if op.confirmed && linked {
            match &op.final_hash {
                Option::Some(hash) => {
                    return Some(hash.clone());
                },
                Option::None => {},
            }
        }
        i = i + 1;
    }
    None
}

} // verus!
