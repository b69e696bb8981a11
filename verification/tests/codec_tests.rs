use rollup_operator::aggregated_operations::{
    AggregatedOperation, BlocksCommitOperation, BlocksCreateProofOperation, BlocksExecuteOperation,
    BlocksProofOperation,
};
use rollup_operator::block::Block;
use rollup_operator::codec::{decode_aggregated_operation, encode_aggregated_operation};

fn block(number: u32) -> Block {
    Block {
        block_number: number,
        timestamp: 12_345,
        block_chunks_size: 100,
        commit_gas_limit: 100_000,
        verify_gas_limit: 150_000,
        new_root_hash: 7 * number as u64,
        fee_account: 3,
    }
}

#[test]
fn commit_operation_round_trips() {
    let op = AggregatedOperation::CommitBlocks(BlocksCommitOperation {
        last_committed_block: block(0),
        blocks: vec![block(1), block(2)],
    });
    let bytes = encode_aggregated_operation(&op);
    let decoded = decode_aggregated_operation(&bytes).expect("decodes");
    assert_eq!(decoded, op);
    let (first, last) = decoded.get_block_range();
    assert_eq!((first, last), (1, 2));
    assert_eq!(decoded.get_action_type(), op.get_action_type());
}

#[test]
fn create_proof_operation_round_trips() {
    let op = AggregatedOperation::CreateProofBlocks(BlocksCreateProofOperation {
        blocks: vec![block(3), block(4), block(5)],
        proofs_to_pad: 2,
    });
    let bytes = encode_aggregated_operation(&op);
    let decoded = decode_aggregated_operation(&bytes).expect("decodes");
    assert_eq!(decoded, op);
}

#[test]
fn publish_operation_round_trips() {
    let op = AggregatedOperation::PublishProofBlocksOnchain(BlocksProofOperation {
        blocks: vec![block(3), block(4), block(5)],
        proof: vec![0xDE, 0xAD, 0xBE, 0xEF],
    });
    let bytes = encode_aggregated_operation(&op);
    let decoded = decode_aggregated_operation(&bytes).expect("decodes");
    assert_eq!(decoded, op);
}

#[test]
fn execute_operation_round_trips() {
    let op = AggregatedOperation::ExecuteBlocks(BlocksExecuteOperation {
        blocks: vec![block(9)],
    });
    let bytes = encode_aggregated_operation(&op);
    let decoded = decode_aggregated_operation(&bytes).expect("decodes");
    assert_eq!(decoded, op);
}

#[test]
fn empty_publish_proof_round_trips() {
    let op = AggregatedOperation::PublishProofBlocksOnchain(BlocksProofOperation {
        blocks: vec![block(1)],
        proof: vec![],
    });
    let bytes = encode_aggregated_operation(&op);
    let decoded = decode_aggregated_operation(&bytes).expect("decodes");
    assert_eq!(decoded, op);
}

#[test]
fn corrupted_bytes_are_rejected() {
    assert!(decode_aggregated_operation(&vec![]).is_none());
    assert!(decode_aggregated_operation(&vec![0]).is_none());
    assert!(decode_aggregated_operation(&vec![9, 1, 2, 3]).is_none());

    let op = AggregatedOperation::ExecuteBlocks(BlocksExecuteOperation {
        blocks: vec![block(9)],
    });
    let mut bytes = encode_aggregated_operation(&op);
    // A truncated payload is store corruption.
    bytes.pop();
    assert!(decode_aggregated_operation(&bytes).is_none());

    // Trailing garbage is store corruption too.
    let mut bytes = encode_aggregated_operation(&op);
    bytes.push(0);
    assert!(decode_aggregated_operation(&bytes).is_none());
}

#[test]
fn encoding_is_tagged_by_variant() {
    let commit = AggregatedOperation::CommitBlocks(BlocksCommitOperation {
        last_committed_block: block(0),
        blocks: vec![block(1)],
    });
    let execute = AggregatedOperation::ExecuteBlocks(BlocksExecuteOperation {
        blocks: vec![block(1)],
    });
    assert_eq!(encode_aggregated_operation(&commit)[0], 1);
    assert_eq!(encode_aggregated_operation(&execute)[0], 4);
}
