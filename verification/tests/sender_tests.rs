use rollup_operator::aggregated_operations::{
    AggregatedActionType, AggregatedOperation, BlocksCommitOperation, BlocksExecuteOperation,
};
use rollup_operator::block::Block;
use rollup_operator::eth_sender::{escalated_gas_price, sender_step, SenderAction};
use rollup_operator::pass::create_aggregated_operations_storage;
use rollup_operator::storage::{ActionType, NewOperation, Storage};

fn block(number: u32, timestamp: u64) -> Block {
    Block {
        block_number: number,
        timestamp,
        block_chunks_size: 100,
        commit_gas_limit: 100_000,
        verify_gas_limit: 150_000,
        new_root_hash: number as u64,
        fee_account: 0,
    }
}

const NOW: u64 = 1_000_000;

#[test]
fn saved_transactions_get_sequential_ids_and_nonces() {
    let mut storage = Storage::new_with_genesis(block(0, NOW), 500);
    let first = storage.ethereum.save_new_eth_tx(
        AggregatedActionType::CommitBlocks,
        None,
        100,
        10,
        vec![0x01],
    );
    let second = storage.ethereum.save_new_eth_tx(
        AggregatedActionType::ExecuteBlocks,
        None,
        110,
        12,
        vec![0x02],
    );
    assert_eq!((first.id, first.nonce), (1, 0));
    assert_eq!((second.id, second.nonce), (2, 1));
}

#[test]
fn gas_escalation_never_decreases_across_attempts() {
    let mut storage = Storage::new_with_genesis(block(0, NOW), 500);
    storage.ethereum.save_new_eth_tx(
        AggregatedActionType::CommitBlocks,
        None,
        100,
        100,
        vec![0x01],
    );
    storage.ethereum.update_eth_tx(1, 200, 150).expect("operation exists");
    storage.ethereum.update_eth_tx(1, 300, 150).expect("operation exists");
    storage.ethereum.update_eth_tx(1, 400, 275).expect("operation exists");
    let op = &storage.ethereum.eth_ops[0];
    assert_eq!(op.attempts.len(), 4);
    for pair in op.attempts.windows(2) {
        assert!(pair[0].gas_price <= pair[1].gas_price);
    }
}

#[test]
fn escalated_gas_price_is_a_max() {
    assert_eq!(escalated_gas_price(100, 80), 100);
    assert_eq!(escalated_gas_price(100, 120), 120);
    assert_eq!(escalated_gas_price(100, 100), 100);
}

#[test]
fn restart_with_stuck_operation_resends_once_without_duplicating_it() {
    // One committed aggregate operation, picked up by an in-flight,
    // unconfirmed transaction whose deadline block has already passed.
    let mut storage = Storage::new_with_genesis(block(0, 0), 500);
    for n in 1..=5 {
        storage.seal_block(block(n, 0));
    }
    create_aggregated_operations_storage(&mut storage, NOW).expect("pass succeeds");
    let unprocessed = storage.load_new_operations();
    assert_eq!(unprocessed.len(), 1);
    let (agg_id, agg_op) = unprocessed.into_iter().next().unwrap();

    let response = storage.ethereum.save_new_eth_tx(
        AggregatedActionType::CommitBlocks,
        Some((agg_id, agg_op)),
        100,
        10,
        vec![0xC0],
    );
    storage.ethereum.add_hash_entry(response.id, &vec![0xAA; 32]).expect("operation exists");

    // Restart: recovery resumes with the in-flight operation; the logical
    // operation is not handed out as new work again.
    let (unconfirmed, unprocessed) = storage.restore_state();
    assert_eq!(unconfirmed.len(), 1);
    assert_eq!(unprocessed.len(), 0);

    // The deadline has passed: the next cycle issues exactly one escalated
    // resubmission of the same logical operation.
    let stuck = &unconfirmed[0];
    let action = sender_step(stuck, 101, false, 15, 50);
    match action {
        SenderAction::Resend { deadline_block, gas_price } => {
            assert_eq!(deadline_block, 151);
            assert!(gas_price >= 10 && gas_price >= 15);
            storage
                .ethereum
                .update_eth_tx(stuck.id, deadline_block, gas_price)
                .expect("operation exists");
        }
        other => panic!("expected a resend, got {:?}", other),
    }
    assert_eq!(storage.ethereum.eth_ops.len(), 1);
    assert_eq!(storage.ethereum.eth_ops[0].attempts.len(), 2);
    assert_eq!(storage.load_new_operations().len(), 0);
}

#[test]
fn sender_waits_within_deadline_and_confirms_when_mined() {
    let mut storage = Storage::new_with_genesis(block(0, NOW), 500);
    storage.ethereum.save_new_eth_tx(
        AggregatedActionType::CommitBlocks,
        None,
        100,
        10,
        vec![0xC0],
    );
    let op = storage.ethereum.eth_ops[0].duplicate();
    assert!(matches!(sender_step(&op, 99, false, 15, 50), SenderAction::Wait));
    assert!(matches!(sender_step(&op, 100, false, 15, 50), SenderAction::Wait));
    assert!(matches!(sender_step(&op, 101, true, 15, 50), SenderAction::Confirm));
}

#[test]
fn confirm_commit_operation_confirms_block_range_rows() {
    let mut storage = Storage::new_with_genesis(block(0, NOW), 500);
    for n in 1..=2 {
        storage.seal_block(block(n, NOW));
        storage.operations.store_operation(NewOperation {
            block_number: n,
            action_type: ActionType::Commit,
        });
    }
    let commit_op = AggregatedOperation::CommitBlocks(BlocksCommitOperation {
        last_committed_block: block(0, NOW),
        blocks: vec![block(1, NOW), block(2, NOW)],
    });
    let response = storage.ethereum.save_new_eth_tx(
        AggregatedActionType::CommitBlocks,
        Some((1, commit_op)),
        100,
        10,
        vec![0xC0],
    );
    let hash = vec![0xAB; 32];
    storage.ethereum.add_hash_entry(response.id, &hash).expect("operation exists");
    assert_eq!(
        storage.operations.get_last_block_by_action(ActionType::Commit, Some(true)),
        0
    );

    let op = storage.ethereum.eth_ops[0].duplicate();
    storage.confirm_operation(&hash, &op);

    assert_eq!(
        storage.operations.get_last_block_by_action(ActionType::Commit, Some(true)),
        2
    );
    assert!(storage.ethereum.eth_ops[0].confirmed);
    assert_eq!(storage.ethereum.eth_ops[0].final_hash.as_ref().unwrap(), &hash);
}

#[test]
fn confirm_execute_operation_marks_blocks_executed() {
    let mut storage = Storage::new_with_genesis(block(0, NOW), 500);
    for n in 1..=2 {
        storage.seal_block(block(n, NOW));
        storage.operations.store_operation(NewOperation {
            block_number: n,
            action_type: ActionType::Verify,
        });
    }
    let execute_op = AggregatedOperation::ExecuteBlocks(BlocksExecuteOperation {
        blocks: vec![block(1, NOW), block(2, NOW)],
    });
    let response = storage.ethereum.save_new_eth_tx(
        AggregatedActionType::ExecuteBlocks,
        Some((1, execute_op)),
        100,
        10,
        vec![0xE0],
    );
    let hash = vec![0xEE; 32];
    storage.ethereum.add_hash_entry(response.id, &hash).expect("operation exists");

    let op = storage.ethereum.eth_ops[0].duplicate();
    storage.confirm_operation(&hash, &op);

    assert!(storage.blocks.executed[1]);
    assert!(storage.blocks.executed[2]);
    assert_eq!(
        storage.operations.get_last_block_by_action(ActionType::Verify, Some(true)),
        2
    );
}

#[test]
fn stats_count_confirmed_transactions_by_type() {
    let mut storage = Storage::new_with_genesis(block(0, NOW), 500);
    let r1 = storage.ethereum.save_new_eth_tx(
        AggregatedActionType::CommitBlocks,
        None,
        100,
        10,
        vec![0x01],
    );
    storage.ethereum.save_new_eth_tx(
        AggregatedActionType::ExecuteBlocks,
        None,
        100,
        10,
        vec![0x02],
    );
    let hash = vec![0x11; 32];
    storage.ethereum.add_hash_entry(r1.id, &hash).expect("operation exists");
    let op = storage.ethereum.eth_ops[0].duplicate();
    storage.confirm_operation(&hash, &op);

    let stats = storage.ethereum.load_stats();
    assert_eq!(stats.saved_ops, 2);
    assert_eq!(stats.commit_ops, 1);
    assert_eq!(stats.verify_ops, 0);
    assert_eq!(stats.execute_ops, 0);
}

#[test]
fn previous_operation_gate_requires_sequential_confirmation() {
    let mut storage = Storage::new_with_genesis(block(0, NOW), 500);
    storage.ethereum.save_new_eth_tx(
        AggregatedActionType::CommitBlocks,
        None,
        100,
        10,
        vec![0x01],
    );
    let r2 = storage.ethereum.save_new_eth_tx(
        AggregatedActionType::CommitBlocks,
        None,
        100,
        10,
        vec![0x02],
    );
    storage.ethereum.add_hash_entry(r2.id, &vec![0x22; 32]).expect("operation exists");

    let first = storage.ethereum.eth_ops[0].duplicate();
    let second = storage.ethereum.eth_ops[1].duplicate();
    assert!(storage.ethereum.is_previous_operation_confirmed(&first));
    assert!(!storage.ethereum.is_previous_operation_confirmed(&second));

    let hash = vec![0x11; 32];
    storage.ethereum.add_hash_entry(first.id, &hash).expect("operation exists");
    let first = storage.ethereum.eth_ops[0].duplicate();
    storage.confirm_operation(&hash, &first);
    let second = storage.ethereum.eth_ops[1].duplicate();
    assert!(storage.ethereum.is_previous_operation_confirmed(&second));
}

#[test]
fn gas_price_params_are_stored() {
    let mut storage = Storage::new_with_genesis(block(0, NOW), 500);
    assert_eq!(storage.ethereum.load_gas_price_limit(), 500);
    storage.ethereum.update_gas_price_params(800, 300);
    assert_eq!(storage.ethereum.load_gas_price_limit(), 800);
}
