use rollup_operator::helpers::{remove_prefix, try_parse_hash, try_parse_tx_hash, ParseHexError};
use rollup_operator::prover::{
    prover_cycle_decision, JobRequestData, ProverCycleAction, ProverInputResponse, ShutdownRequest,
    ABSENT_PROVER_ID,
};

#[test]
fn remove_prefix_strips_known_prefixes() {
    assert_eq!(remove_prefix("0x1234"), "1234");
    assert_eq!(remove_prefix("sync-bl:abcd"), "abcd");
    assert_eq!(remove_prefix("sync-tx:abcd"), "abcd");
    assert_eq!(remove_prefix("plain"), "plain");
    assert_eq!(remove_prefix(""), "");
    assert_eq!(remove_prefix("0x"), "");
    assert_eq!(remove_prefix("sync-zz:abcd"), "sync-zz:abcd");
}

#[test]
fn parse_hash_accepts_prefixed_64_digit_hex() {
    let query = format!("0x{}", "00ff".repeat(16));
    let hash = try_parse_hash(&query).expect("parses");
    assert_eq!(hash.bytes.len(), 32);
    assert_eq!(hash.bytes[0], 0x00);
    assert_eq!(hash.bytes[1], 0xFF);

    let bare = "a1b2c3d4".repeat(8);
    let hash = try_parse_hash(&bare).expect("parses");
    assert_eq!(hash.bytes[0], 0xA1);
    assert_eq!(hash.bytes[31], 0xD4);
}

#[test]
fn parse_hash_rejects_bad_queries() {
    assert_eq!(try_parse_hash("0x123").unwrap_err(), ParseHexError::OddLength);
    let with_bad_char = format!("0x{}zz", "00".repeat(31));
    assert_eq!(
        try_parse_hash(&with_bad_char).unwrap_err(),
        ParseHexError::InvalidCharacter
    );
    assert_eq!(
        try_parse_hash("0xabcd").unwrap_err(),
        ParseHexError::InvalidLength
    );
}

#[test]
fn parse_tx_hash_handles_sync_prefix() {
    let query = format!("sync-tx:{}", "12".repeat(32));
    let hash = try_parse_tx_hash(&query).expect("parses");
    assert_eq!(hash.bytes, vec![0x12; 32]);
    assert!(try_parse_tx_hash("sync-tx:12").is_err());
}

#[test]
fn shutdown_request_tracks_flag_and_prover_id() {
    let mut request = ShutdownRequest::new();
    assert!(!request.get());
    assert_eq!(request.prover_id(), ABSENT_PROVER_ID);
    request.set_prover_id(7);
    assert_eq!(request.prover_id(), 7);
    assert!(!request.get());
    request.set();
    assert!(request.get());
    assert_eq!(request.prover_id(), 7);
    assert_eq!(ShutdownRequest::default(), ShutdownRequest::new());
}

#[test]
fn prover_cycle_decides_shutdown_wait_and_compute() {
    assert!(matches!(
        prover_cycle_decision(true, None),
        ProverCycleAction::Shutdown
    ));
    assert!(matches!(
        prover_cycle_decision(false, None),
        ProverCycleAction::WaitForJob
    ));
    let empty = ProverInputResponse { job_id: 3, first_block: 1, last_block: 5, data: None };
    assert!(matches!(
        prover_cycle_decision(false, Some(empty)),
        ProverCycleAction::WaitForJob
    ));
    let full = ProverInputResponse {
        job_id: 3,
        first_block: 1,
        last_block: 5,
        data: Some(JobRequestData::BlockProof(100)),
    };
    match prover_cycle_decision(false, Some(full)) {
        ProverCycleAction::ComputeProof { job_id, first_block, last_block, data } => {
            assert_eq!((job_id, first_block, last_block), (3, 1, 5));
            assert!(matches!(data, JobRequestData::BlockProof(100)));
        }
        other => panic!("expected a compute action, got {:?}", other),
    }
}
