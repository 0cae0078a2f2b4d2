//! Exact values of the commitment formulas, the blob-gas derivation, the
//! anchor-transaction validation, the attribute validation, body
//! replacement, and the cancellation token.

use taiko_payload::anchor::{
    get_taiko_l2_address, validate_anchor_tx, ANCHOR_GAS_LIMIT, ANCHOR_SELECTOR_0,
    ANCHOR_SELECTOR_1, ANCHOR_SELECTOR_2, ANCHOR_SELECTOR_3, GOLDEN_TOUCH,
    TAIKO_L2_ADDRESS_SUFFIX,
};
use taiko_payload::assembler::{calculate_excess_blob_gas, modify_payload_block};
use taiko_payload::engine::{
    AttributesValidationError, EngineApiMessageVersion, TaikoEngineTypes,
};
use taiko_payload::exec_loop::CancelToken;
use taiko_payload::roots::{
    block_logs_bloom, calculate_receipts_root, calculate_transaction_root,
    calculate_withdrawals_root, mix, seal_header, EMPTY_WITHDRAWALS, MIX_PRIME,
};
use taiko_payload::types::{
    ChainRules, Header, Log, PayloadAttributes, Receipt, SealedBlock, Transaction, TxType,
    Withdrawal, EMPTY_RECEIPTS, EMPTY_TRANSACTIONS, TARGET_DATA_GAS_PER_BLOCK,
};

fn expected_mix(a: u64, b: u64) -> u64 {
    (((a as u128) * (MIX_PRIME as u128) + (b as u128)) % (1u128 << 64)) as u64
}

fn tx(hash: u64) -> Transaction {
    Transaction {
        hash,
        sender: 1,
        nonce: 0,
        gas_limit: 21000,
        max_fee_per_gas: 100,
        max_priority_fee_per_gas: 1,
        max_fee_per_blob_gas: 0,
        value: 0,
        to: Some(1),
        chain_id: Some(1),
        input: Vec::new(),
        tx_type: TxType::Eip1559,
        blob_gas: 0,
    }
}

fn header() -> Header {
    Header {
        parent_hash: 1,
        ommers_hash: 2,
        beneficiary: 3,
        state_root: 4,
        transactions_root: 5,
        receipts_root: 6,
        withdrawals_root: None,
        logs_bloom: 7,
        difficulty: 0,
        number: 8,
        gas_limit: 9,
        gas_used: 5,
        timestamp: 10,
        extra_data: vec![0x01],
        mix_hash: 11,
        nonce: 0,
        base_fee_per_gas: Some(12),
        blob_gas_used: None,
        excess_blob_gas: None,
        parent_beacon_block_root: None,
        requests_root: None,
    }
}

#[test]
fn mix_has_exact_values() {
    assert_eq!(mix(0, 5), 5);
    assert_eq!(mix(1, 0), MIX_PRIME);
    assert_eq!(mix(3, 4), expected_mix(3, 4));
    assert_eq!(mix(u64::MAX, u64::MAX), expected_mix(u64::MAX, u64::MAX));
}

#[test]
fn transaction_root_folds_hashes() {
    assert_eq!(calculate_transaction_root(&Vec::new()), EMPTY_TRANSACTIONS);
    let one = calculate_transaction_root(&vec![tx(7)]);
    assert_eq!(one, expected_mix(EMPTY_TRANSACTIONS, 7));
    let two = calculate_transaction_root(&vec![tx(7), tx(9)]);
    assert_eq!(two, expected_mix(one, 9));
}

#[test]
fn receipts_root_and_bloom_have_exact_values() {
    assert_eq!(calculate_receipts_root(&Vec::new()), EMPTY_RECEIPTS);
    let receipt = Receipt {
        tx_type: TxType::Eip1559,
        success: true,
        cumulative_gas_used: 100,
        logs: vec![Log { address: 1, data: 2 }],
    };
    // Digest: kind code 2, status 1, gas 100, then the one log.
    let digest = expected_mix(expected_mix(expected_mix(expected_mix(2, 1), 100), 1), 2);
    assert_eq!(calculate_receipts_root(&vec![receipt]), expected_mix(EMPTY_RECEIPTS, digest));

    let bloomy = Receipt {
        tx_type: TxType::Legacy,
        success: false,
        cumulative_gas_used: 1,
        logs: vec![Log { address: 1, data: 2 }, Log { address: 65, data: 3 }],
    };
    // Bits 1 and 2 from the first log; 65 % 64 folds onto bit 1; bit 3
    // from the second log's data.
    assert_eq!(block_logs_bloom(&vec![bloomy]), (1 << 1) | (1 << 2) | (1 << 3));
    assert_eq!(block_logs_bloom(&Vec::new()), 0);
}

#[test]
fn withdrawals_root_has_exact_values() {
    assert_eq!(calculate_withdrawals_root(&Vec::new()), EMPTY_WITHDRAWALS);
    let w = Withdrawal { index: 1, validator_index: 2, address: 3, amount: 4 };
    let expected = expected_mix(
        expected_mix(expected_mix(expected_mix(EMPTY_WITHDRAWALS, 1), 2), 3),
        4,
    );
    assert_eq!(calculate_withdrawals_root(&vec![w]), expected);
}

#[test]
fn sealing_is_deterministic_and_field_sensitive() {
    let h1 = header();
    let h2 = header();
    assert_eq!(seal_header(&h1), seal_header(&h2));
    let mut h3 = header();
    h3.gas_used = 6;
    assert_ne!(seal_header(&h1), seal_header(&h3));
    let mut h4 = header();
    h4.extra_data = vec![0x02];
    assert_ne!(seal_header(&h1), seal_header(&h4));
}

#[test]
fn excess_blob_gas_follows_the_target() {
    assert_eq!(calculate_excess_blob_gas(0, 0), 0);
    // Exactly on target: nothing in excess.
    assert_eq!(calculate_excess_blob_gas(TARGET_DATA_GAS_PER_BLOCK, 0), 0);
    // One blob above target.
    assert_eq!(
        calculate_excess_blob_gas(TARGET_DATA_GAS_PER_BLOCK, 131072),
        131072
    );
    assert_eq!(calculate_excess_blob_gas(393216, 131072), 131072);
    assert_eq!(calculate_excess_blob_gas(100, 200), 0);
}

#[test]
fn modify_payload_block_replaces_body_and_reseals() {
    let h = header();
    let hash = seal_header(&h);
    let block = SealedBlock { header: h, hash, body: vec![tx(1)], withdrawals: None, requests: None };
    let replaced = modify_payload_block(&block, vec![(tx(5), 10), (tx(6), 11)]);
    assert_eq!(replaced.body.len(), 2);
    assert_eq!(replaced.body[0].hash, 5);
    assert_eq!(replaced.body[1].hash, 6);
    // Gas used becomes the sum of the new gas limits.
    assert_eq!(replaced.header.gas_used, 42000);
    assert!(replaced.withdrawals.is_none());
    assert!(replaced.requests.is_none());
    assert_eq!(replaced.hash, seal_header(&replaced.header));
    assert_ne!(replaced.hash, hash);
}

fn anchor(chain_id: u64, base_fee: u64) -> Transaction {
    Transaction {
        hash: 1,
        sender: GOLDEN_TOUCH,
        nonce: 0,
        gas_limit: ANCHOR_GAS_LIMIT,
        max_fee_per_gas: base_fee,
        max_priority_fee_per_gas: 0,
        max_fee_per_blob_gas: 0,
        value: 0,
        to: Some(get_taiko_l2_address(chain_id)),
        chain_id: Some(chain_id),
        input: vec![
            ANCHOR_SELECTOR_0,
            ANCHOR_SELECTOR_1,
            ANCHOR_SELECTOR_2,
            ANCHOR_SELECTOR_3,
            0xff,
        ],
        tx_type: TxType::Eip1559,
        blob_gas: 0,
    }
}

#[test]
fn l2_address_carries_chain_id_and_suffix() {
    assert_eq!(get_taiko_l2_address(0), TAIKO_L2_ADDRESS_SUFFIX);
    assert_eq!(get_taiko_l2_address(1), (1 << 20) | TAIKO_L2_ADDRESS_SUFFIX);
    assert_ne!(get_taiko_l2_address(1), get_taiko_l2_address(2));
}

#[test]
fn valid_anchor_transaction_is_accepted() {
    let mut h = header();
    h.base_fee_per_gas = Some(12);
    assert!(validate_anchor_tx(&anchor(167010, 12), &h));
}

#[test]
fn anchor_validation_rejects_each_wrong_field() {
    let mut h = header();
    h.base_fee_per_gas = Some(12);

    let mut t = anchor(167010, 12);
    t.tx_type = TxType::Legacy;
    assert!(!validate_anchor_tx(&t, &h));

    let mut t = anchor(167010, 12);
    t.to = None;
    assert!(!validate_anchor_tx(&t, &h));

    let mut t = anchor(167010, 12);
    t.to = Some(get_taiko_l2_address(167011));
    assert!(!validate_anchor_tx(&t, &h));

    let mut t = anchor(167010, 12);
    t.input = vec![0x00, 0x01];
    assert!(!validate_anchor_tx(&t, &h));

    let mut t = anchor(167010, 12);
    t.input[2] = 0x00;
    assert!(!validate_anchor_tx(&t, &h));

    let mut t = anchor(167010, 12);
    t.value = 1;
    assert!(!validate_anchor_tx(&t, &h));

    let mut t = anchor(167010, 12);
    t.gas_limit = ANCHOR_GAS_LIMIT + 1;
    assert!(!validate_anchor_tx(&t, &h));

    let mut t = anchor(167010, 12);
    t.max_fee_per_gas = 13;
    assert!(!validate_anchor_tx(&t, &h));

    let mut t = anchor(167010, 12);
    t.sender = 1234;
    assert!(!validate_anchor_tx(&t, &h));
}

fn attrs(withdrawals: bool, beacon_root: bool, timestamp: u64) -> PayloadAttributes {
    PayloadAttributes {
        id: 0,
        timestamp,
        prev_randao: 0,
        suggested_fee_recipient: 0,
        withdrawals: if withdrawals { Some(Vec::new()) } else { None },
        parent_beacon_block_root: if beacon_root { Some(0) } else { None },
    }
}

#[test]
fn attribute_validation_covers_every_case() {
    let rules = ChainRules {
        chain_id: 1,
        shanghai_time: Some(100),
        cancun_time: Some(200),
        prague_time: None,
    };
    // V1 must not carry withdrawals.
    assert_eq!(
        TaikoEngineTypes::validate_version_specific_fields(&rules, EngineApiMessageVersion::V1, &attrs(true, false, 50)),
        Err(AttributesValidationError::WithdrawalsNotSupportedInV1)
    );
    // Post-Shanghai V2 needs withdrawals.
    assert_eq!(
        TaikoEngineTypes::validate_version_specific_fields(&rules, EngineApiMessageVersion::V2, &attrs(false, false, 150)),
        Err(AttributesValidationError::NoWithdrawalsPostShanghai)
    );
    // Pre-Shanghai V2 must not carry withdrawals.
    assert_eq!(
        TaikoEngineTypes::validate_version_specific_fields(&rules, EngineApiMessageVersion::V2, &attrs(true, false, 50)),
        Err(AttributesValidationError::HasWithdrawalsPreShanghai)
    );
    // V2 knows no beacon root.
    assert_eq!(
        TaikoEngineTypes::validate_version_specific_fields(&rules, EngineApiMessageVersion::V2, &attrs(true, true, 150)),
        Err(AttributesValidationError::ParentBeaconBlockRootNotSupportedBeforeV3)
    );
    // Post-Cancun V3 needs the beacon root.
    assert_eq!(
        TaikoEngineTypes::validate_version_specific_fields(&rules, EngineApiMessageVersion::V3, &attrs(true, false, 250)),
        Err(AttributesValidationError::NoParentBeaconBlockRootPostCancun)
    );
    // Pre-Cancun V3 must not carry one.
    assert_eq!(
        TaikoEngineTypes::validate_version_specific_fields(&rules, EngineApiMessageVersion::V3, &attrs(true, true, 150)),
        Err(AttributesValidationError::UnexpectedParentBeaconBlockRoot)
    );
    // Well-formed combinations pass.
    assert_eq!(
        TaikoEngineTypes::validate_version_specific_fields(&rules, EngineApiMessageVersion::V1, &attrs(false, false, 50)),
        Ok(())
    );
    assert_eq!(
        TaikoEngineTypes::validate_version_specific_fields(&rules, EngineApiMessageVersion::V2, &attrs(true, false, 150)),
        Ok(())
    );
    assert_eq!(
        TaikoEngineTypes::validate_version_specific_fields(&rules, EngineApiMessageVersion::V3, &attrs(true, true, 250)),
        Ok(())
    );
}

#[test]
fn cancel_token_counts_polls() {
    let mut never = CancelToken::never();
    assert!(!never.is_cancelled());
    assert!(!never.is_cancelled());
    let mut soon = CancelToken::after(2);
    assert!(!soon.is_cancelled());
    assert!(!soon.is_cancelled());
    assert!(soon.is_cancelled());
    assert!(soon.is_cancelled());
}

#[test]
fn payload_attributes_helper_fills_defaults() {
    let a = taiko_payload::builder::eth_payload_attributes(1234);
    assert_eq!(a.timestamp, 1234);
    assert_eq!(a.prev_randao, 0);
    assert_eq!(a.suggested_fee_recipient, 0);
    assert_eq!(a.withdrawals, Some(Vec::new()));
    assert_eq!(a.parent_beacon_block_root, Some(0));
}
