use rollup_operator::aggregated_operations::AggregatedOperation;
use rollup_operator::block::Block;
use rollup_operator::planner::{
    available_aggregate_proof_sizes, create_execute_blocks_operation, create_new_commit_operation,
    create_new_create_proof_operation, create_publish_proof_operation, BLOCK_COMMIT_DEADLINE_SECONDS,
    MAX_BLOCK_TO_COMMIT, MAX_GAS_TX,
};

fn block(number: u32, timestamp: u64, commit_gas: u64, verify_gas: u64) -> Block {
    Block {
        block_number: number,
        timestamp,
        block_chunks_size: 100,
        commit_gas_limit: commit_gas,
        verify_gas_limit: verify_gas,
        new_root_hash: number as u64,
        fee_account: 0,
    }
}

const NOW: u64 = 1_000_000;

#[test]
fn commit_fires_on_count_of_six_pending_blocks() {
    // Six sealed blocks, none past deadline, combined gas under the limit:
    // the commit decision fires once and packs blocks 1..=5.
    let genesis = block(0, NOW, 0, 0);
    let blocks: Vec<Block> = (1..=6).map(|n| block(n, NOW, 100_000, 150_000)).collect();
    let op = create_new_commit_operation(
        &genesis,
        &blocks,
        NOW,
        MAX_BLOCK_TO_COMMIT,
        BLOCK_COMMIT_DEADLINE_SECONDS,
        MAX_GAS_TX,
    )
    .expect("commit decision should fire");
    assert_eq!(op.blocks.len(), 5);
    assert_eq!(op.blocks[0].block_number, 1);
    assert_eq!(op.blocks[4].block_number, 5);
    assert_eq!(op.last_committed_block.block_number, 0);

    // The one remaining block triggers nothing: the planner waits.
    let remaining = vec![block(6, NOW, 100_000, 150_000)];
    let second = create_new_commit_operation(
        &block(5, NOW, 100_000, 150_000),
        &remaining,
        NOW,
        MAX_BLOCK_TO_COMMIT,
        BLOCK_COMMIT_DEADLINE_SECONDS,
        MAX_GAS_TX,
    );
    assert!(second.is_none());
}

#[test]
fn commit_packs_single_block_exceeding_gas_budget() {
    // A first block alone over the gas budget is packed by itself.
    let genesis = block(0, NOW, 0, 0);
    let blocks = vec![block(1, NOW, 3_000_000, 150_000)];
    let op = create_new_commit_operation(
        &genesis,
        &blocks,
        NOW,
        MAX_BLOCK_TO_COMMIT,
        BLOCK_COMMIT_DEADLINE_SECONDS,
        MAX_GAS_TX,
    )
    .expect("gas trigger should fire");
    assert_eq!(op.blocks.len(), 1);
    assert_eq!(op.blocks[0].block_number, 1);
}

#[test]
fn commit_gas_packing_stops_before_budget() {
    // 1_500_000 + 400_000 fits; adding another 400_000 would not.
    let genesis = block(0, NOW, 0, 0);
    let blocks = vec![
        block(1, NOW, 1_500_000, 0),
        block(2, NOW, 400_000, 0),
        block(3, NOW, 400_000, 0),
        block(4, NOW, 400_000, 0),
        block(5, NOW, 400_000, 0),
    ];
    let op = create_new_commit_operation(
        &genesis,
        &blocks,
        NOW,
        MAX_BLOCK_TO_COMMIT,
        BLOCK_COMMIT_DEADLINE_SECONDS,
        MAX_GAS_TX,
    )
    .expect("count and gas triggers fire");
    assert_eq!(op.blocks.len(), 2);
    let total: u64 = op.blocks.iter().map(|b| b.commit_gas_limit).sum();
    assert!(total <= MAX_GAS_TX);
}

#[test]
fn commit_fires_on_deadline() {
    let genesis = block(0, 0, 0, 0);
    let blocks = vec![block(1, NOW - 100, 100_000, 0)];
    let op = create_new_commit_operation(
        &genesis,
        &blocks,
        NOW,
        MAX_BLOCK_TO_COMMIT,
        BLOCK_COMMIT_DEADLINE_SECONDS,
        MAX_GAS_TX,
    )
    .expect("deadline trigger should fire");
    assert_eq!(op.blocks.len(), 1);
}

#[test]
fn commit_waits_when_nothing_triggers() {
    let genesis = block(0, NOW, 0, 0);
    let blocks = vec![block(1, NOW, 100_000, 0), block(2, NOW, 100_000, 0)];
    let op = create_new_commit_operation(
        &genesis,
        &blocks,
        NOW,
        MAX_BLOCK_TO_COMMIT,
        BLOCK_COMMIT_DEADLINE_SECONDS,
        MAX_GAS_TX,
    );
    assert!(op.is_none());
}

#[test]
fn create_proof_selects_padded_size() {
    // Three proven blocks past deadline with sizes [1, 5]: the smallest
    // size covering them is 5, so two placeholder proofs pad the batch.
    let blocks = vec![
        block(1, NOW - 100, 0, 0),
        block(2, NOW - 100, 0, 0),
        block(3, NOW - 100, 0, 0),
    ];
    let sizes = available_aggregate_proof_sizes();
    let op = create_new_create_proof_operation(&blocks, &sizes, NOW, BLOCK_COMMIT_DEADLINE_SECONDS)
        .expect("deadline trigger should fire");
    assert_eq!(op.blocks.len(), 3);
    assert_eq!(op.proofs_to_pad, 2);
    assert_eq!(op.proofs_to_pad as usize + op.blocks.len(), 5);
}

#[test]
fn create_proof_single_block_needs_no_padding() {
    let blocks = vec![block(1, NOW - 100, 0, 0)];
    let sizes = available_aggregate_proof_sizes();
    let op = create_new_create_proof_operation(&blocks, &sizes, NOW, BLOCK_COMMIT_DEADLINE_SECONDS)
        .expect("deadline trigger should fire");
    assert_eq!(op.blocks.len(), 1);
    assert_eq!(op.proofs_to_pad, 0);
}

#[test]
fn create_proof_full_batch_fires_without_deadline() {
    let blocks: Vec<Block> = (1..=5).map(|n| block(n, NOW, 0, 0)).collect();
    let sizes = available_aggregate_proof_sizes();
    let op = create_new_create_proof_operation(&blocks, &sizes, NOW, BLOCK_COMMIT_DEADLINE_SECONDS)
        .expect("count trigger should fire");
    assert_eq!(op.blocks.len(), 5);
    assert_eq!(op.proofs_to_pad, 0);
}

#[test]
fn create_proof_waits_below_max_without_deadline() {
    let blocks: Vec<Block> = (1..=3).map(|n| block(n, NOW, 0, 0)).collect();
    let sizes = available_aggregate_proof_sizes();
    let op = create_new_create_proof_operation(&blocks, &sizes, NOW, BLOCK_COMMIT_DEADLINE_SECONDS);
    assert!(op.is_none());
}

#[test]
fn publish_wraps_proof_bytes() {
    let blocks = vec![block(1, NOW, 0, 0)];
    let sizes = available_aggregate_proof_sizes();
    let create_op =
        create_new_create_proof_operation(&blocks, &sizes, NOW + 100, BLOCK_COMMIT_DEADLINE_SECONDS)
            .expect("deadline fires");
    let proof = vec![0xAA, 0xBB];
    let publish = create_publish_proof_operation(&create_op, &proof);
    assert_eq!(publish.blocks.len(), 1);
    assert_eq!(publish.proof, vec![0xAA, 0xBB]);
}

#[test]
fn execute_mirrors_commit_with_verify_gas() {
    let blocks = vec![
        block(1, NOW, 0, 1_500_000),
        block(2, NOW, 0, 600_000),
        block(3, NOW, 0, 600_000),
        block(4, NOW, 0, 600_000),
        block(5, NOW, 0, 600_000),
    ];
    let op = create_execute_blocks_operation(
        &blocks,
        NOW,
        MAX_BLOCK_TO_COMMIT,
        BLOCK_COMMIT_DEADLINE_SECONDS,
        MAX_GAS_TX,
    )
    .expect("count trigger fires");
    assert_eq!(op.blocks.len(), 1);
}

#[test]
fn commit_operation_reports_range_and_type() {
    let genesis = block(0, NOW, 0, 0);
    let blocks: Vec<Block> = (1..=5).map(|n| block(n, NOW, 100_000, 0)).collect();
    let op = create_new_commit_operation(
        &genesis,
        &blocks,
        NOW,
        MAX_BLOCK_TO_COMMIT,
        BLOCK_COMMIT_DEADLINE_SECONDS,
        MAX_GAS_TX,
    )
    .expect("count trigger fires");
    let agg = AggregatedOperation::CommitBlocks(op);
    let (first, last) = agg.get_block_range();
    assert_eq!((first, last), (1, 5));
    assert_eq!(
        agg.get_action_type(),
        rollup_operator::aggregated_operations::AggregatedActionType::CommitBlocks
    );
}
