//! Whole-attempt scenarios through the orchestrator: budget-limited
//! selection, abort on no improvement, mid-loop cancellation, the blob
//! ceiling, and each fatal error.

use taiko_payload::builder::{
    default_taiko_payload_builder, BuildArguments, BuildOutcome, BuiltPayload, PayloadConfig,
    TaikoPayloadBuilder,
};
use taiko_payload::bundle::StateDiff;
use taiko_payload::cache::CachedReads;
use taiko_payload::evm::{PlannedOutcome, ScriptedEngine};
use taiko_payload::exec_loop::CancelToken;
use taiko_payload::listmap::ListMap;
use taiko_payload::pool::Pool;
use taiko_payload::provider::MemoryProvider;
use taiko_payload::types::{
    AccountInfo, BlobSidecar, BlockEnv, BuildError, ChainRules, Header, InvalidTransaction,
    PayloadAttributes, Request, SealedHeader, Transaction, TxType, Withdrawal, EMPTY_RECEIPTS,
    EMPTY_TRANSACTIONS, MAX_DATA_GAS_PER_BLOCK,
};

fn tx(hash: u64, sender: u64, nonce: u64, priority_fee: u64) -> Transaction {
    Transaction {
        hash,
        sender,
        nonce,
        gas_limit: 21000,
        max_fee_per_gas: 1000,
        max_priority_fee_per_gas: priority_fee,
        max_fee_per_blob_gas: 0,
        value: 0,
        to: Some(1),
        chain_id: Some(1),
        input: Vec::new(),
        tx_type: TxType::Eip1559,
        blob_gas: 0,
    }
}

fn blob_tx(hash: u64, sender: u64, priority_fee: u64, blob_gas: u64) -> Transaction {
    Transaction {
        hash,
        sender,
        nonce: 0,
        gas_limit: 21000,
        max_fee_per_gas: 1000,
        max_priority_fee_per_gas: priority_fee,
        max_fee_per_blob_gas: 100,
        value: 0,
        to: Some(1),
        chain_id: Some(1),
        input: Vec::new(),
        tx_type: TxType::Eip4844,
        blob_gas,
    }
}

fn parent() -> SealedHeader {
    SealedHeader {
        header: Header {
            parent_hash: 0,
            ommers_hash: 0,
            beneficiary: 0,
            state_root: 0,
            transactions_root: 0,
            receipts_root: 0,
            withdrawals_root: None,
            logs_bloom: 0,
            difficulty: 0,
            number: 41,
            gas_limit: 30000000,
            gas_used: 0,
            timestamp: 1000,
            extra_data: Vec::new(),
            mix_hash: 0,
            nonce: 0,
            base_fee_per_gas: Some(10),
            blob_gas_used: None,
            excess_blob_gas: None,
            parent_beacon_block_root: None,
            requests_root: None,
        },
        hash: 0x9a9,
    }
}

fn config(gas_limit: u64, rules: ChainRules) -> PayloadConfig {
    PayloadConfig {
        parent_block: parent(),
        attributes: PayloadAttributes {
            id: 7,
            timestamp: 2000,
            prev_randao: 0x44,
            suggested_fee_recipient: 0x55,
            withdrawals: None,
            parent_beacon_block_root: None,
        },
        chain_spec: rules,
        initialized_block_env: BlockEnv {
            number: 42,
            coinbase: 0x55,
            timestamp: 2000,
            gas_limit,
            basefee: 10,
            prev_randao: 0x44,
            blob_gasprice: Some(50),
        },
        extra_data: Vec::new(),
    }
}

fn no_forks() -> ChainRules {
    ChainRules { chain_id: 1, shanghai_time: None, cancun_time: None, prague_time: None }
}

fn plan_success(engine: &mut ScriptedEngine, hash: u64, gas_used: u64) {
    engine.plan(
        hash,
        PlannedOutcome::Success {
            gas_used,
            success: true,
            logs: Vec::new(),
            diff: StateDiff { changes: Vec::new() },
        },
    );
}

fn args(
    pool: Pool,
    gas_limit: u64,
    rules: ChainRules,
    cancel: CancelToken,
    best: Option<BuiltPayload>,
) -> BuildArguments<MemoryProvider> {
    BuildArguments {
        pool,
        client: MemoryProvider::new(),
        cached_reads: CachedReads::new(),
        config: config(gas_limit, rules),
        cancel,
        best_payload: best,
    }
}

#[test]
fn gas_limited_block_includes_what_fits() {
    // Pool: A nonce 0 and nonce 1, and B, each with a 21000 gas limit,
    // under a 35000 block gas limit. A's first transaction and B fit by
    // spent gas; A's nonce 1 no longer does and is excluded without a
    // fatal error.
    let a = 100u64;
    let b = 200u64;
    let pool = Pool::new(vec![tx(1, a, 0, 2), tx(2, a, 1, 1), tx(3, b, 0, 2)]);
    let mut engine = ScriptedEngine::new();
    plan_success(&mut engine, 1, 10000);
    plan_success(&mut engine, 3, 10000);
    let outcome = default_taiko_payload_builder(
        &mut engine,
        args(pool, 35000, no_forks(), CancelToken::never(), None),
    )
    .unwrap();
    match outcome {
        BuildOutcome::Better { payload, .. } => {
            let hashes: Vec<u64> = payload.block.body.iter().map(|t| t.hash).collect();
            assert_eq!(hashes, vec![1, 3]);
            assert_eq!(payload.block.header.gas_used, 20000);
            assert!(payload.block.header.gas_used <= payload.block.header.gas_limit);
            // Each included transaction paid tip 2 over 10000 gas.
            assert_eq!(payload.fees, 40000);
            assert_eq!(payload.block.header.number, 42);
            assert_eq!(payload.block.header.beneficiary, 0x55);
            assert_eq!(payload.block.header.base_fee_per_gas, Some(10));
            assert_eq!(payload.block.header.blob_gas_used, None);
            assert_eq!(payload.block.header.withdrawals_root, None);
            assert_eq!(payload.block.header.requests_root, None);
        }
        _ => panic!("expected a better payload"),
    }
}

#[test]
fn abort_on_no_improvement_returns_fees_and_cache() {
    // First build to learn the attempt's total fees.
    let a = 100u64;
    let pool = Pool::new(vec![tx(1, a, 0, 2)]);
    let mut engine = ScriptedEngine::new();
    plan_success(&mut engine, 1, 50);
    let first = default_taiko_payload_builder(
        &mut engine,
        args(pool, 35000, no_forks(), CancelToken::never(), None),
    )
    .unwrap();
    let best = match first {
        BuildOutcome::Better { payload, .. } => payload,
        _ => panic!("expected a better payload"),
    };
    assert_eq!(best.fees, 100);

    // Rebuild with the previous best at the same fee level: not strictly
    // better, so the attempt aborts before assembling a block, and the
    // cache passed in comes back.
    let pool = Pool::new(vec![tx(1, a, 0, 2)]);
    let mut engine = ScriptedEngine::new();
    plan_success(&mut engine, 1, 50);
    let mut seeded = CachedReads::new();
    seeded.insert_account(9, AccountInfo { balance: 1, nonce: 0, code_hash: 0 }, ListMap::new());
    let mut a2 = args(pool, 35000, no_forks(), CancelToken::never(), Some(best));
    a2.cached_reads = seeded;
    let outcome = default_taiko_payload_builder(&mut engine, a2).unwrap();
    match outcome {
        BuildOutcome::Aborted { fees, cached_reads } => {
            assert_eq!(fees, 100);
            // The same cache object came back; its seeded entry is intact.
            assert!(cached_reads.accounts.get(9).is_some());
        }
        _ => panic!("expected an aborted attempt"),
    }
}

#[test]
fn cancellation_mid_loop_yields_cancelled_only() {
    // Five queued transactions; the flag fires after one of them has
    // executed. The outcome is exactly `Cancelled`: no payload, no block.
    let pool = Pool::new(vec![
        tx(1, 100, 0, 5),
        tx(2, 101, 0, 4),
        tx(3, 102, 0, 3),
        tx(4, 103, 0, 2),
        tx(5, 104, 0, 1),
    ]);
    let mut engine = ScriptedEngine::new();
    let outcome = default_taiko_payload_builder(
        &mut engine,
        args(pool, 30000000, no_forks(), CancelToken::after(1), None),
    )
    .unwrap();
    assert!(matches!(outcome, BuildOutcome::Cancelled));
}

#[test]
fn blob_ceiling_reached_exactly_skips_remaining_blobs() {
    // The first blob transaction lands exactly on the ceiling; the second
    // blob transaction is skipped without evaluation, while the plain
    // transaction is still considered.
    let rules = ChainRules { chain_id: 1, shanghai_time: None, cancun_time: Some(0), prague_time: None };
    let mut pool = Pool::new(vec![
        blob_tx(1, 100, 9, MAX_DATA_GAS_PER_BLOCK),
        blob_tx(2, 101, 8, 100),
        tx(3, 102, 0, 7),
    ]);
    pool.add_sidecar(BlobSidecar { tx_hash: 1, data: vec![0xaa] });
    let mut engine = ScriptedEngine::new();
    plan_success(&mut engine, 1, 1000);
    plan_success(&mut engine, 3, 1000);
    let outcome = default_taiko_payload_builder(
        &mut engine,
        args(pool, 30000000, rules, CancelToken::never(), None),
    )
    .unwrap();
    match outcome {
        BuildOutcome::Better { payload, .. } => {
            let hashes: Vec<u64> = payload.block.body.iter().map(|t| t.hash).collect();
            assert_eq!(hashes, vec![1, 3]);
            assert_eq!(payload.block.header.blob_gas_used, Some(MAX_DATA_GAS_PER_BLOCK));
            // Parent had no blob fields, so the derivation starts at zero.
            assert_eq!(payload.block.header.excess_blob_gas, Some(0));
            assert_eq!(payload.sidecars.len(), 1);
            assert_eq!(payload.sidecars[0].tx_hash, 1);
            assert_eq!(payload.sidecars[0].data, vec![0xaa]);
        }
        _ => panic!("expected a better payload"),
    }
}

#[test]
fn blob_transaction_over_ceiling_is_invalidated_not_fatal() {
    // The second blob transaction would push blob gas over the ceiling:
    // it is invalidated and excluded; a later non-blob transaction is
    // still considered.
    let rules = ChainRules { chain_id: 1, shanghai_time: None, cancun_time: Some(0), prague_time: None };
    let mut pool = Pool::new(vec![
        blob_tx(1, 100, 9, 700000),
        blob_tx(2, 101, 8, 100000),
        tx(3, 102, 0, 7),
    ]);
    pool.add_sidecar(BlobSidecar { tx_hash: 1, data: vec![0x01] });
    let mut engine = ScriptedEngine::new();
    plan_success(&mut engine, 1, 1000);
    plan_success(&mut engine, 3, 1000);
    let outcome = default_taiko_payload_builder(
        &mut engine,
        args(pool, 30000000, rules, CancelToken::never(), None),
    )
    .unwrap();
    match outcome {
        BuildOutcome::Better { payload, .. } => {
            let hashes: Vec<u64> = payload.block.body.iter().map(|t| t.hash).collect();
            assert_eq!(hashes, vec![1, 3]);
            assert_eq!(payload.block.header.blob_gas_used, Some(700000));
        }
        _ => panic!("expected a better payload"),
    }
}

#[test]
fn stale_nonce_skips_one_transaction_only() {
    // A nonce-too-low failure skips just that transaction; the same
    // sender's later transaction is still produced.
    let a = 100u64;
    let pool = Pool::new(vec![tx(1, a, 0, 9), tx(2, a, 1, 8)]);
    let mut engine = ScriptedEngine::new();
    engine.plan(1, PlannedOutcome::Invalid(InvalidTransaction::NonceTooLow));
    plan_success(&mut engine, 2, 500);
    let outcome = default_taiko_payload_builder(
        &mut engine,
        args(pool, 30000000, no_forks(), CancelToken::never(), None),
    )
    .unwrap();
    match outcome {
        BuildOutcome::Better { payload, .. } => {
            let hashes: Vec<u64> = payload.block.body.iter().map(|t| t.hash).collect();
            assert_eq!(hashes, vec![2]);
        }
        _ => panic!("expected a better payload"),
    }
}

#[test]
fn other_validation_failure_drops_descendants() {
    let a = 100u64;
    let b = 200u64;
    let pool = Pool::new(vec![tx(1, a, 0, 9), tx(2, a, 1, 8), tx(3, b, 0, 7)]);
    let mut engine = ScriptedEngine::new();
    engine.plan(1, PlannedOutcome::Invalid(InvalidTransaction::Rejected));
    plan_success(&mut engine, 3, 500);
    let outcome = default_taiko_payload_builder(
        &mut engine,
        args(pool, 30000000, no_forks(), CancelToken::never(), None),
    )
    .unwrap();
    match outcome {
        BuildOutcome::Better { payload, .. } => {
            let hashes: Vec<u64> = payload.block.body.iter().map(|t| t.hash).collect();
            assert_eq!(hashes, vec![3]);
        }
        _ => panic!("expected a better payload"),
    }
}

#[test]
fn internal_engine_fault_is_fatal() {
    let pool = Pool::new(vec![tx(1, 100, 0, 9)]);
    let mut engine = ScriptedEngine::new();
    engine.plan(1, PlannedOutcome::Fatal(77));
    let r = default_taiko_payload_builder(
        &mut engine,
        args(pool, 30000000, no_forks(), CancelToken::never(), None),
    );
    assert_eq!(r.unwrap_err(), BuildError::EvmExecution(77));
}

#[test]
fn missing_sidecar_is_fatal() {
    let rules = ChainRules { chain_id: 1, shanghai_time: None, cancun_time: Some(0), prague_time: None };
    let pool = Pool::new(vec![blob_tx(1, 100, 9, 100)]);
    let mut engine = ScriptedEngine::new();
    plan_success(&mut engine, 1, 1000);
    let r = default_taiko_payload_builder(
        &mut engine,
        args(pool, 30000000, rules, CancelToken::never(), None),
    );
    assert_eq!(r.unwrap_err(), BuildError::MissingSidecar);
}

#[test]
fn provider_failure_during_withdrawals_is_fatal() {
    let rules = ChainRules { chain_id: 1, shanghai_time: Some(0), cancun_time: None, prague_time: None };
    let pool = Pool::new(vec![tx(1, 100, 0, 9)]);
    let mut engine = ScriptedEngine::new();
    plan_success(&mut engine, 1, 500);
    let mut a = args(pool, 30000000, rules, CancelToken::never(), None);
    a.config.attributes.withdrawals = Some(vec![Withdrawal {
        index: 0,
        validator_index: 1,
        address: 42,
        amount: 5,
    }]);
    let mut failing = MemoryProvider::new();
    failing.set_fail_after(Some(0));
    a.client = failing;
    let r = default_taiko_payload_builder(&mut engine, a);
    assert!(matches!(r.unwrap_err(), BuildError::Provider(_)));
}

#[test]
fn withdrawal_overflow_is_fatal() {
    let rules = ChainRules { chain_id: 1, shanghai_time: Some(0), cancun_time: None, prague_time: None };
    let pool = Pool::new(vec![tx(1, 100, 0, 9)]);
    let mut engine = ScriptedEngine::new();
    plan_success(&mut engine, 1, 500);
    let mut a = args(pool, 30000000, rules, CancelToken::never(), None);
    a.config.attributes.withdrawals = Some(vec![Withdrawal {
        index: 0,
        validator_index: 1,
        address: 42,
        amount: 5,
    }]);
    let mut rich = MemoryProvider::new();
    rich.put_account(42, AccountInfo { balance: u128::MAX, nonce: 0, code_hash: 0 });
    a.client = rich;
    let r = default_taiko_payload_builder(&mut engine, a);
    assert_eq!(r.unwrap_err(), BuildError::BalanceOverflow);
}

#[test]
fn withdrawals_are_credited_and_rooted() {
    let rules = ChainRules { chain_id: 1, shanghai_time: Some(0), cancun_time: None, prague_time: None };
    let pool = Pool::new(vec![tx(1, 100, 0, 9)]);
    let mut engine = ScriptedEngine::new();
    plan_success(&mut engine, 1, 500);
    let mut a = args(pool, 30000000, rules, CancelToken::never(), None);
    a.config.attributes.withdrawals = Some(vec![Withdrawal {
        index: 0,
        validator_index: 1,
        address: 42,
        amount: 5,
    }]);
    let outcome = default_taiko_payload_builder(&mut engine, a).unwrap();
    match outcome {
        BuildOutcome::Better { payload, .. } => {
            assert!(payload.block.header.withdrawals_root.is_some());
            let ws = payload.block.withdrawals.unwrap();
            assert_eq!(ws.len(), 1);
            assert_eq!(ws[0].address, 42);
        }
        _ => panic!("expected a better payload"),
    }
}

#[test]
fn requests_gathered_only_under_prague() {
    let rules = ChainRules { chain_id: 1, shanghai_time: Some(0), cancun_time: None, prague_time: Some(0) };
    let pool = Pool::new(vec![tx(1, 100, 0, 9)]);
    let mut engine = ScriptedEngine::new();
    plan_success(&mut engine, 1, 500);
    engine.set_post_requests(vec![Request { kind: 1, payload: 0x99 }]);
    let mut a = args(pool, 30000000, rules, CancelToken::never(), None);
    a.config.attributes.withdrawals = Some(Vec::new());
    let outcome = default_taiko_payload_builder(&mut engine, a).unwrap();
    match outcome {
        BuildOutcome::Better { payload, .. } => {
            assert!(payload.block.header.requests_root.is_some());
            let rs = payload.block.requests.unwrap();
            assert_eq!(rs.len(), 1);
            assert_eq!(rs[0].payload, 0x99);
        }
        _ => panic!("expected a better payload"),
    }
}

#[test]
fn empty_payload_has_empty_roots_and_zero_fees() {
    let builder = TaikoPayloadBuilder;
    let mut engine = ScriptedEngine::new();
    let payload = builder
        .build_empty_payload(&mut engine, MemoryProvider::new(), config(30000000, no_forks()))
        .unwrap();
    assert_eq!(payload.fees, 0);
    assert_eq!(payload.block.body.len(), 0);
    assert_eq!(payload.block.header.gas_used, 0);
    assert_eq!(payload.block.header.transactions_root, EMPTY_TRANSACTIONS);
    assert_eq!(payload.block.header.receipts_root, EMPTY_RECEIPTS);
    assert_eq!(payload.block.header.logs_bloom, 0);
    assert_eq!(payload.block.header.number, 42);
    assert_eq!(payload.block.header.parent_hash, parent().hash);
    assert_eq!(payload.block.header.blob_gas_used, None);
}

#[test]
fn try_build_forwards_to_the_default_builder() {
    let builder = TaikoPayloadBuilder;
    let pool = Pool::new(vec![tx(1, 100, 0, 2)]);
    let mut engine = ScriptedEngine::new();
    plan_success(&mut engine, 1, 100);
    let outcome = builder
        .try_build(&mut engine, args(pool, 30000000, no_forks(), CancelToken::never(), None))
        .unwrap();
    match outcome {
        BuildOutcome::Better { payload, .. } => {
            assert_eq!(payload.fees, 200);
            assert_eq!(payload.id, 7);
        }
        _ => panic!("expected a better payload"),
    }
}
