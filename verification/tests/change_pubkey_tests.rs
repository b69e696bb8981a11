use rollup_operator::change_pubkey::{
    pack_fee_amount, Address, ChangePubKey, ChangePubKeyCREATE2Data, ChangePubKeyECDSAData,
    ChangePubKeyEthAuthData, PackedEthSignature, PubKeyHash, CHANGE_PUBKEY_TX_TYPE,
};
use rollup_operator::helpers::{estimate_deposits_approval_block, Hash256};
use rollup_operator::signer::{
    change_pubkey_auth_from_signature, extract_packed_signature, require_account_id, SignerError,
    TxEthSignature,
};
use rollup_operator::test_data::{
    dummy_ethereum_tx_hash, dummy_root_hash_for_block, gen_acc_updates, gen_operation, Action,
    AccountUpdate, BLOCK_SIZE_CHUNKS,
};

fn hex_to_bytes(s: &str) -> Vec<u8> {
    hex::decode(s).expect("valid hex")
}

#[test]
fn create2_address_matches_known_vector() {
    // Precomputed with an independent Keccak-256 implementation for
    // creator 0x11..11, salt 0x22..22, code hash 0x33..33, key hash
    // 0x44..44.
    let data = ChangePubKeyCREATE2Data {
        creator_address: Address { bytes: vec![0x11; 20] },
        salt_arg: Hash256 { bytes: vec![0x22; 32] },
        code_hash: Hash256 { bytes: vec![0x33; 32] },
    };
    let derived = data.get_address(&PubKeyHash { data: vec![0x44; 20] });
    assert_eq!(derived.bytes, hex_to_bytes("790fccc8796acc30fde63b4d0e4a5de889c05149"));
}

#[test]
fn create2_validity_compares_derived_address() {
    let data = ChangePubKeyCREATE2Data {
        creator_address: Address { bytes: vec![0x11; 20] },
        salt_arg: Hash256 { bytes: vec![0x22; 32] },
        code_hash: Hash256 { bytes: vec![0x33; 32] },
    };
    let tx = ChangePubKey {
        account_id: 1,
        account: Address { bytes: hex_to_bytes("790fccc8796acc30fde63b4d0e4a5de889c05149") },
        new_pk_hash: PubKeyHash { data: vec![0x44; 20] },
        fee_token: 0,
        fee: 0,
        nonce: 0,
        eth_auth_data: ChangePubKeyEthAuthData::CREATE2(data),
    };
    assert!(tx.is_eth_auth_data_valid());

    let wrong = ChangePubKey {
        account: Address { bytes: vec![0x99; 20] },
        ..tx
    };
    assert!(!wrong.is_eth_auth_data_valid());
}

#[test]
fn garbage_ecdsa_signature_does_not_validate() {
    // An all-ones signature cannot recover; in particular, were recovery to
    // hand its input back unchanged, the account below would be the digest
    // address of those 65 bytes and the check would wrongly pass.
    let tx = ChangePubKey {
        account_id: 5,
        account: Address { bytes: hex_to_bytes("b8be2c2d87d6751a9ce0680fbd06c12e87cf7f31") },
        new_pk_hash: PubKeyHash { data: vec![0x44; 20] },
        fee_token: 0,
        fee: 0,
        nonce: 9,
        eth_auth_data: ChangePubKeyEthAuthData::ECDSA(ChangePubKeyECDSAData {
            eth_signature: PackedEthSignature { bytes: vec![0xFF; 65] },
            batch_hash: Hash256 { bytes: vec![0; 32] },
        }),
    };
    assert!(!tx.is_eth_auth_data_valid());
}

#[test]
fn eth_witness_is_tagged_and_exact() {
    let onchain = ChangePubKeyEthAuthData::Onchain;
    assert!(onchain.get_eth_witness().is_empty());
    assert!(onchain.is_onchain());
    assert!(!onchain.is_ecdsa());

    let ecdsa = ChangePubKeyEthAuthData::ECDSA(ChangePubKeyECDSAData {
        eth_signature: PackedEthSignature { bytes: vec![0xAB; 65] },
        batch_hash: Hash256 { bytes: vec![0xCD; 32] },
    });
    let witness = ecdsa.get_eth_witness();
    assert_eq!(witness.len(), 1 + 65 + 32);
    assert_eq!(witness[0], 0x00);
    assert_eq!(witness[1], 0xAB);
    assert_eq!(witness[66], 0xCD);
    assert!(ecdsa.is_ecdsa());

    let create2 = ChangePubKeyEthAuthData::CREATE2(ChangePubKeyCREATE2Data {
        creator_address: Address { bytes: vec![0x11; 20] },
        salt_arg: Hash256 { bytes: vec![0x22; 32] },
        code_hash: Hash256 { bytes: vec![0x33; 32] },
    });
    let witness = create2.get_eth_witness();
    assert_eq!(witness.len(), 1 + 20 + 32 + 32);
    assert_eq!(witness[0], 0x01);
}

#[test]
fn fee_packing_is_exact_and_rejects_unrepresentable_fees() {
    // 2047 is the largest mantissa, packed with exponent 0.
    assert_eq!(pack_fee_amount(2047), Some(2047));
    // 20470 = 2047 * 10^1: exponent 1 in the high five bits.
    assert_eq!(pack_fee_amount(20470), Some(2048 + 2047));
    assert_eq!(pack_fee_amount(0), Some(0));
    // 2048 needs twelve mantissa bits and is not divisible by ten.
    assert_eq!(pack_fee_amount(2048), None);
    // One more than a packable value.
    assert_eq!(pack_fee_amount(20471), None);
}

#[test]
fn change_pubkey_bytes_layout() {
    let tx = ChangePubKey {
        account_id: 0x01020304,
        account: Address { bytes: vec![0x11; 20] },
        new_pk_hash: PubKeyHash { data: vec![0x22; 20] },
        fee_token: 0x0506,
        fee: 2047,
        nonce: 0x0708090A,
        eth_auth_data: ChangePubKeyEthAuthData::Onchain,
    };
    let bytes = tx.get_bytes().expect("fee is packable");
    assert_eq!(bytes.len(), 1 + 4 + 20 + 20 + 2 + 2 + 4);
    assert_eq!(bytes[0], CHANGE_PUBKEY_TX_TYPE);
    assert_eq!(&bytes[1..5], &[0x01, 0x02, 0x03, 0x04]);
    assert_eq!(&bytes[45..47], &[0x05, 0x06]);
    assert_eq!(&bytes[47..49], &[0x07, 0xFF]); // 2047 = 0x07FF, exponent 0
    assert_eq!(&bytes[49..53], &[0x07, 0x08, 0x09, 0x0A]);

    let unpackable = ChangePubKey { fee: 2048, ..tx };
    assert!(unpackable.get_bytes().is_err());
}

#[test]
fn eth_signed_message_is_sixty_bytes_for_ecdsa_only() {
    let tx = ChangePubKey {
        account_id: 7,
        account: Address { bytes: vec![0x11; 20] },
        new_pk_hash: PubKeyHash { data: vec![0x22; 20] },
        fee_token: 0,
        fee: 0,
        nonce: 3,
        eth_auth_data: ChangePubKeyEthAuthData::ECDSA(ChangePubKeyECDSAData {
            eth_signature: PackedEthSignature { bytes: vec![0; 65] },
            batch_hash: Hash256 { bytes: vec![0x77; 32] },
        }),
    };
    let msg = tx.get_eth_signed_data().expect("ECDSA authorized");
    assert_eq!(msg.len(), 60);
    assert_eq!(&msg[0..20], &[0x22; 20][..]);
    assert_eq!(&msg[20..24], &[0, 0, 0, 3]);
    assert_eq!(&msg[24..28], &[0, 0, 0, 7]);
    assert_eq!(&msg[28..60], &[0x77; 32][..]);

    let onchain = ChangePubKey { eth_auth_data: ChangePubKeyEthAuthData::Onchain, ..tx };
    assert!(onchain.get_eth_signed_data().is_err());
}

#[test]
fn signer_decisions_cover_all_signature_kinds() {
    assert_eq!(require_account_id(Some(4)), Ok(4));
    assert_eq!(require_account_id(None), Err(SignerError::NoSigningKey));

    let auth = change_pubkey_auth_from_signature(true, None).expect("on-chain needs no signer");
    assert!(matches!(auth, ChangePubKeyEthAuthData::Onchain));
    assert!(matches!(
        change_pubkey_auth_from_signature(false, None),
        Err(SignerError::MissingEthSigner)
    ));
    let sig = TxEthSignature::EthereumSignature(PackedEthSignature { bytes: vec![0xAB; 65] });
    match change_pubkey_auth_from_signature(false, Some(sig)).expect("plain signature accepted") {
        ChangePubKeyEthAuthData::ECDSA(data) => {
            assert_eq!(data.eth_signature.bytes, vec![0xAB; 65]);
            assert_eq!(data.batch_hash.bytes, vec![0; 32]);
        }
        other => panic!("expected ECDSA authorization, got {:?}", other.is_onchain()),
    }
    assert!(matches!(
        change_pubkey_auth_from_signature(false, Some(TxEthSignature::EIP1271Signature(vec![1]))),
        Err(SignerError::UnsupportedSignatureKind)
    ));

    assert!(extract_packed_signature(None).expect("no signer is fine").is_none());
    let sig = TxEthSignature::EthereumSignature(PackedEthSignature { bytes: vec![0xCD; 65] });
    let packed = extract_packed_signature(Some(sig)).expect("plain signature accepted");
    assert_eq!(packed.unwrap().bytes, vec![0xCD; 65]);
    assert!(extract_packed_signature(Some(TxEthSignature::EIP1271Signature(vec![1]))).is_err());
}

#[test]
fn test_data_builders_are_deterministic() {
    assert_eq!(dummy_root_hash_for_block(42), 42);
    let hash = dummy_ethereum_tx_hash(0x0102);
    assert_eq!(hash.bytes.len(), 32);
    assert_eq!(&hash.bytes[0..2], &[0x02, 0x01]);
    assert!(hash.bytes[8..].iter().all(|b| *b == 0));

    let op = gen_operation(9, Action::Commit, BLOCK_SIZE_CHUNKS);
    assert_eq!(op.block.block_number, 9);
    assert_eq!(op.block.commit_gas_limit, 1_000_000);
    assert_eq!(op.block.verify_gas_limit, 1_500_000);

    let updates = gen_acc_updates(
        3,
        1_000,
        10,
        PubKeyHash { data: vec![0x55; 20] },
        vec![0x66; 20],
    );
    assert_eq!(updates.len(), 3);
    assert!(matches!(updates[0].1, AccountUpdate::Create { nonce: 10, .. }));
    assert!(matches!(
        updates[1].1,
        AccountUpdate::ChangePubKeyHash { old_nonce: 10, new_nonce: 11, .. }
    ));
    assert!(matches!(
        updates[2].1,
        AccountUpdate::UpdateBalance { old_nonce: 11, new_nonce: 12, balance_update: (0, 0, 1_000) }
    ));
}

#[test]
fn deposits_approval_block_is_max_plus_confirmations() {
    assert_eq!(estimate_deposits_approval_block(&vec![], 10), None);
    assert_eq!(estimate_deposits_approval_block(&vec![5, 9, 3], 10), Some(19));
    assert_eq!(estimate_deposits_approval_block(&vec![7], 0), Some(7));
}
