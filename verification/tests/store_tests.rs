use rollup_operator::aggregated_operations::{
    AggregatedActionType, AggregatedOperation, BlocksExecuteOperation,
};
use rollup_operator::block::Block;
use rollup_operator::storage::{
    ActionType, ExecutedPriorityOpRecord, ExecutedTxRecord, NewOperation, Storage,
};

fn block(number: u32) -> Block {
    Block {
        block_number: number,
        timestamp: 0,
        block_chunks_size: 100,
        commit_gas_limit: 100_000,
        verify_gas_limit: 150_000,
        new_root_hash: number as u64,
        fee_account: 0,
    }
}

fn executed_tx(block_number: u32, hash: u8, success: bool) -> ExecutedTxRecord {
    ExecutedTxRecord {
        block_number,
        block_index: if success { Some(0) } else { None },
        tx: vec![0xEE],
        tx_hash: vec![hash; 32],
        success,
    }
}

fn fresh_storage() -> Storage {
    Storage::new_with_genesis(block(0), 1_000)
}

#[test]
fn executed_tx_upsert_replaces_failures_with_successes() {
    let mut storage = fresh_storage();
    storage.seal_block(block(1));
    // A failed execution is recorded once; a second failure with the same
    // hash changes nothing.
    storage.store_executed_tx(executed_tx(1, 0xAA, false));
    storage.store_executed_tx(executed_tx(1, 0xAA, false));
    assert_eq!(storage.operations.executed_transactions.len(), 1);
    assert!(!storage.operations.executed_transactions[0].success);

    // The user funds the account and retries: the success replaces the
    // stored failure under the same hash.
    storage.store_executed_tx(executed_tx(1, 0xAA, true));
    assert_eq!(storage.operations.executed_transactions.len(), 1);
    assert!(storage.operations.executed_transactions[0].success);

    // A different hash is a new row.
    storage.store_executed_tx(executed_tx(1, 0xBB, true));
    assert_eq!(storage.operations.executed_transactions.len(), 2);

    let found = storage
        .operations
        .get_executed_operation(&vec![0xAA; 32])
        .expect("recorded transaction is found");
    assert!(found.success);
    assert!(storage.operations.get_executed_operation(&vec![0xCC; 32]).is_none());
}

#[test]
fn executed_tx_removes_pending_pool_entry() {
    let mut storage = fresh_storage();
    storage.seal_block(block(1));
    storage.mempool.insert_tx(vec![0xAA; 32]);
    storage.mempool.insert_tx(vec![0xBB; 32]);
    storage.store_executed_tx(executed_tx(1, 0xAA, true));
    assert_eq!(storage.mempool.txs.len(), 1);
    assert_eq!(storage.mempool.txs[0], vec![0xBB; 32]);
}

#[test]
fn priority_ops_are_unique_by_serial_id() {
    let mut storage = fresh_storage();
    let record = ExecutedPriorityOpRecord {
        block_number: 1,
        block_index: 0,
        operation: vec![0x01],
        priority_op_serialid: 7,
        deadline_block: 100,
        eth_hash: vec![0xE7; 32],
        eth_block: 50,
    };
    storage.operations.store_executed_priority_op(record);
    let duplicate = ExecutedPriorityOpRecord {
        block_number: 2,
        block_index: 1,
        operation: vec![0x02],
        priority_op_serialid: 7,
        deadline_block: 200,
        eth_hash: vec![0xE8; 32],
        eth_block: 60,
    };
    storage.operations.store_executed_priority_op(duplicate);
    assert_eq!(storage.operations.executed_priority_operations.len(), 1);
    assert_eq!(storage.operations.executed_priority_operations[0].block_number, 1);

    let by_id = storage
        .operations
        .get_executed_priority_operation(7)
        .expect("recorded operation is found");
    assert_eq!(by_id.eth_block, 50);
    assert!(storage.operations.get_executed_priority_operation(8).is_none());

    let by_hash = storage
        .operations
        .get_executed_priority_operation_by_hash(&vec![0xE7; 32])
        .expect("recorded operation is found");
    assert_eq!(by_hash.priority_op_serialid, 7);
    assert!(storage
        .operations
        .get_executed_priority_operation_by_hash(&vec![0xE9; 32])
        .is_none());
}

#[test]
fn withdrawal_lookup_follows_execution_to_final_hash() {
    let mut storage = fresh_storage();
    storage.seal_block(block(1));
    let withdrawal_hash = vec![0xAA; 32];
    storage.store_executed_tx(executed_tx(1, 0xAA, true));

    // Not executed on the base chain yet: no completing transaction.
    assert!(storage.eth_tx_for_withdrawal(&withdrawal_hash).is_none());

    // Persist the execute operation and a confirmed on-chain transaction
    // carrying it.
    let execute_op = AggregatedOperation::ExecuteBlocks(BlocksExecuteOperation {
        blocks: vec![block(1)],
    });
    storage.operations.store_aggregated_action(execute_op.duplicate());
    let agg_id = storage.operations.aggregate_operations[0].id;
    let response = storage.ethereum.save_new_eth_tx(
        AggregatedActionType::ExecuteBlocks,
        Some((agg_id, execute_op)),
        100,
        10,
        vec![0xF0],
    );
    let eth_hash = vec![0x99; 32];
    storage.ethereum.add_hash_entry(response.id, &eth_hash).expect("operation exists");
    assert!(storage.eth_tx_for_withdrawal(&withdrawal_hash).is_none());

    let op = storage.ethereum.eth_ops[0].duplicate();
    storage.confirm_operation(&eth_hash, &op);
    let completing = storage
        .eth_tx_for_withdrawal(&withdrawal_hash)
        .expect("confirmed execution completes the withdrawal");
    assert_eq!(completing, eth_hash);

    // A hash that was never executed resolves to nothing.
    assert!(storage.eth_tx_for_withdrawal(&vec![0xBB; 32]).is_none());
}

#[test]
fn per_block_operation_rows_filter_by_confirmation() {
    let mut storage = fresh_storage();
    for n in 1..=3 {
        storage.seal_block(block(n));
        storage.operations.store_operation(NewOperation {
            block_number: n,
            action_type: ActionType::Commit,
        });
    }
    assert_eq!(storage.operations.get_last_block_by_action(ActionType::Commit, None), 3);
    assert_eq!(
        storage.operations.get_last_block_by_action(ActionType::Commit, Some(true)),
        0
    );
    assert_eq!(
        storage.operations.get_last_block_by_action(ActionType::Commit, Some(false)),
        3
    );
    assert_eq!(storage.operations.get_last_block_by_action(ActionType::Verify, None), 0);

    storage.operations.confirm_operations(1, 2, ActionType::Commit);
    assert_eq!(
        storage.operations.get_last_block_by_action(ActionType::Commit, Some(true)),
        2
    );
    assert_eq!(
        storage.operations.get_last_block_by_action(ActionType::Commit, Some(false)),
        3
    );

    let row = storage
        .operations
        .get_operation(2, ActionType::Commit)
        .expect("stored row is found");
    assert!(row.confirmed);
    assert!(storage.operations.get_operation(2, ActionType::Verify).is_none());
}
