use rollup_operator::aggregated_operations::AggregatedActionType;
use rollup_operator::block::Block;
use rollup_operator::pass::{
    create_aggregated_commits_storage, create_aggregated_operations_storage,
};
use rollup_operator::storage::Storage;

fn block(number: u32, timestamp: u64) -> Block {
    Block {
        block_number: number,
        timestamp,
        block_chunks_size: 100,
        commit_gas_limit: 100_000,
        verify_gas_limit: 150_000,
        new_root_hash: number as u64,
        fee_account: 0,
    }
}

const NOW: u64 = 1_000_000;

#[test]
fn commit_pass_fires_once_for_six_fresh_blocks() {
    let mut storage = Storage::new_with_genesis(block(0, NOW), 1_000_000_000);
    for n in 1..=6 {
        storage.seal_block(block(n, NOW));
    }
    let fired = create_aggregated_commits_storage(&mut storage, NOW).expect("pass succeeds");
    assert!(fired);
    assert_eq!(
        storage
            .operations
            .get_last_affected_block_by_aggregated_action(AggregatedActionType::CommitBlocks),
        5
    );
    // Block 6 alone triggers nothing: the next pass waits.
    let second = create_aggregated_commits_storage(&mut storage, NOW).expect("pass succeeds");
    assert!(!second);
    assert_eq!(
        storage
            .operations
            .get_last_affected_block_by_aggregated_action(AggregatedActionType::CommitBlocks),
        5
    );
}

#[test]
fn full_pass_drains_backlog_into_contiguous_ranges() {
    // Six old sealed blocks, all proven, with both aggregate proofs ready:
    // one pass commits, aggregates, publishes and executes everything.
    let mut storage = Storage::new_with_genesis(block(0, 0), 1_000_000_000);
    for n in 1..=6 {
        storage.seal_block(block(n, 0));
        storage.store_proof(n, vec![n as u8]);
    }
    storage.store_aggregated_proof(1, 5, vec![0x51]);
    storage.store_aggregated_proof(6, 6, vec![0x66]);

    create_aggregated_operations_storage(&mut storage, NOW).expect("pass succeeds");

    assert_eq!(
        storage
            .operations
            .get_last_affected_block_by_aggregated_action(AggregatedActionType::CommitBlocks),
        6
    );
    assert_eq!(
        storage
            .operations
            .get_last_affected_block_by_aggregated_action(AggregatedActionType::CreateProofBlocks),
        6
    );
    assert_eq!(
        storage.operations.get_last_affected_block_by_aggregated_action(
            AggregatedActionType::PublishProofBlocksOnchain
        ),
        6
    );
    assert_eq!(
        storage
            .operations
            .get_last_affected_block_by_aggregated_action(AggregatedActionType::ExecuteBlocks),
        6
    );

    // Per action type the persisted ranges are strictly increasing,
    // contiguous and non-overlapping.
    for ty in [
        AggregatedActionType::CommitBlocks,
        AggregatedActionType::CreateProofBlocks,
        AggregatedActionType::PublishProofBlocksOnchain,
        AggregatedActionType::ExecuteBlocks,
    ] {
        let mut expected_next = 1u32;
        for sao in &storage.operations.aggregate_operations {
            if sao.operation.get_action_type() == ty {
                let (first, last) = sao.operation.get_block_range();
                assert_eq!(first, expected_next);
                assert!(first <= last);
                expected_next = last + 1;
            }
        }
        assert_eq!(expected_next, 7);
    }
}

#[test]
fn rerunning_the_pass_emits_nothing_new() {
    let mut storage = Storage::new_with_genesis(block(0, 0), 1_000_000_000);
    for n in 1..=6 {
        storage.seal_block(block(n, 0));
        storage.store_proof(n, vec![n as u8]);
    }
    storage.store_aggregated_proof(1, 5, vec![0x51]);
    storage.store_aggregated_proof(6, 6, vec![0x66]);

    create_aggregated_operations_storage(&mut storage, NOW).expect("pass succeeds");
    let ops_after_first = storage.operations.aggregate_operations.len();

    // No new sealed blocks, proofs or time: the pass is idempotent.
    create_aggregated_operations_storage(&mut storage, NOW).expect("pass succeeds");
    assert_eq!(storage.operations.aggregate_operations.len(), ops_after_first);
}

#[test]
fn publish_waits_until_aggregated_proof_is_ready() {
    let mut storage = Storage::new_with_genesis(block(0, 0), 1_000_000_000);
    for n in 1..=5 {
        storage.seal_block(block(n, 0));
        storage.store_proof(n, vec![n as u8]);
    }
    // No aggregated proof yet: commit and create-proof fire, publish waits.
    create_aggregated_operations_storage(&mut storage, NOW).expect("pass succeeds");
    assert_eq!(
        storage.operations.get_last_affected_block_by_aggregated_action(
            AggregatedActionType::PublishProofBlocksOnchain
        ),
        0
    );
    // Once the proof arrives, the next pass publishes and executes.
    storage.store_aggregated_proof(1, 5, vec![0x51]);
    create_aggregated_operations_storage(&mut storage, NOW).expect("pass succeeds");
    assert_eq!(
        storage.operations.get_last_affected_block_by_aggregated_action(
            AggregatedActionType::PublishProofBlocksOnchain
        ),
        5
    );
    assert_eq!(
        storage
            .operations
            .get_last_affected_block_by_aggregated_action(AggregatedActionType::ExecuteBlocks),
        5
    );
}
