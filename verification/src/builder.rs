//! The payload-build orchestrator: one attempt from arguments to outcome.
//!
//! An attempt runs the pre-block hooks, drives the execution loop, and
//! then decides: a cancelled loop yields `Cancelled`; a completed loop
//! whose fees do not strictly beat the previously-best payload yields
//! `Aborted` with the (possibly grown) read cache handed back and no
//! block assembled; otherwise the attempt gathers requests, applies
//! withdrawals, computes the roots, seals the block and yields `Better`.

use vstd::prelude::*;

use crate::assembler::{
    calculate_excess_blob_gas, commit_withdrawals, spec_calc_excess_blob_gas, WithdrawalsOutcome,
};
use crate::bundle::BundleState;
use crate::cache::{cache_extends, lemma_cache_extends_trans, CachedReads, CachedReadsDbMut};
use crate::evm::ExecutionEngine;
use crate::exec_loop::{
    event_tx, events_marks, execute_transactions, hits_blob_ceiling, included_fees, included_gas,
    included_of, lemma_exec_outputs_wf_unfold, lemma_fold_equiv, lemma_loop_completed_unfold,
    lemma_out_txs_facts, lemma_trace_describes_unfold, run_ok, spec_blob_gas,
    trace_describes_output, yields_have_events, CancelToken, ExecLoopOutput, LoopEvent,
    LoopOutcome,
};
use crate::selector::{num_yielded, BestTransactions};
use crate::pool::Pool;
use crate::provider::StateProvider;
use crate::roots::{
    block_logs_bloom, calculate_receipts_root, calculate_requests_root, calculate_transaction_root,
    seal_header, spec_header_hash, spec_transactions_root, spec_withdrawals_root,
};
use crate::types::{
    BlobSidecar, BlockEnv, BuildError, ChainRules, EvmError, Header, PayloadAttributes,
    SealedBlock, SealedHeader, Transaction, Withdrawal, BEACON_NONCE, EMPTY_OMMER_ROOT_HASH,
    EMPTY_RECEIPTS, EMPTY_TRANSACTIONS,
};

verus! {

/// Static configuration of one build attempt.
pub struct PayloadConfig {
    /// The parent the candidate block builds on.
    pub parent_block: SealedHeader,
    /// Caller-supplied payload attributes.
    pub attributes: PayloadAttributes,
    /// The chain's timestamp-gated rules.
    pub chain_spec: ChainRules,
    /// The initialized block environment.
    pub initialized_block_env: BlockEnv,
    /// Extra data the header carries.
    pub extra_data: Vec<u8>,
}

/// Everything one build attempt consumes.
pub struct BuildArguments<P: StateProvider> {
    /// The pending-transaction pool snapshot.
    pub pool: Pool,
    /// The state provider keyed at the parent block.
    pub client: P,
    /// The read cache, moved in and handed back on every outcome short of
    /// cancellation.
    pub cached_reads: CachedReads,
    /// The attempt's configuration.
    pub config: PayloadConfig,
    /// The cooperative cancellation token.
    pub cancel: CancelToken,
    /// The best payload a previous attempt produced, if any.
    pub best_payload: Option<BuiltPayload>,
}

/// A finished candidate payload.
#[derive(Debug)]
pub struct BuiltPayload {
    /// The opaque payload identifier.
    pub id: u64,
    /// The sealed block.
    pub block: SealedBlock,
    /// Total miner fees collected.
    pub fees: u128,
    /// Sidecars of the included blob transactions.
    pub sidecars: Vec<BlobSidecar>,
}

impl BuiltPayload {
    /// Wrap a sealed block with its fees, with no sidecars attached yet.
    pub fn new(id: u64, block: SealedBlock, fees: u128) -> (r: Self)
        ensures
            r.id == id,
            r.block == block,
            r.fees == fees,
            r.sidecars@ == Seq::<BlobSidecar>::empty(),
    {
        BuiltPayload { id, block, fees, sidecars: Vec::new() }
    }

    /// Attach blob sidecars to the payload.
    pub fn extend_sidecars(&mut self, sidecars: Vec<BlobSidecar>)
        ensures
            final(self).id == old(self).id,
            final(self).block == old(self).block,
            final(self).fees == old(self).fees,
            final(self).sidecars@.len() == old(self).sidecars@.len() + sidecars@.len(),
            forall|i: int|
                0 <= i < old(self).sidecars@.len() ==> (#[trigger] final(self).sidecars@[i])
                    == old(self).sidecars@[i],
            forall|i: int|
                0 <= i < sidecars@.len() ==> (#[trigger] final(self).sidecars@[
                    old(self).sidecars@.len() + i]) == sidecars@[i],
    {
        let mut incoming = sidecars;
        let ghost given = incoming@;
        let n = incoming.len();
        let mut i: usize = 0;
        while i < n
            invariant
                n == given.len(),
                i <= n,
                incoming@.len() == n,
                forall|j: int| i <= j < n ==> (#[trigger] incoming@[j]) == given[j],
                self.id == old(self).id,
                self.block == old(self).block,
                self.fees == old(self).fees,
                self.sidecars@.len() == old(self).sidecars@.len() + i,
                forall|j: int|
                    0 <= j < old(self).sidecars@.len() ==> (#[trigger] self.sidecars@[j]) == old(
                        self,
                    ).sidecars@[j],
                forall|j: int|
                    0 <= j < i ==> (#[trigger] self.sidecars@[old(self).sidecars@.len() + j])
                        == given[j],
            decreases n - i,
        {
            let mut taken = BlobSidecar { tx_hash: 0, data: Vec::new() };
            vstd::pervasive::VecAdditionalExecFns::set_and_swap(&mut incoming, i, &mut taken);
            self.sidecars.push(taken);
            i = i + 1;
        }
    }
}

/// The outcome of one build attempt; terminal, no attempt resumes after
/// producing it.
#[derive(Debug)]
pub enum BuildOutcome {
    /// The attempt beat the previous best payload.
    Better { payload: BuiltPayload, cached_reads: CachedReads },
    /// The attempt's fees did not beat the previous best: the cache comes
    /// back without the cost of assembling a block.
    Aborted { fees: u128, cached_reads: CachedReads },
    /// Cancellation was observed mid-loop; nothing is produced.
    Cancelled,
}

/// Whether fees of `total_fees` beat the previously-best payload: always,
/// when there is none; else only strictly.
pub open spec fn spec_is_better_payload(best_payload: Option<BuiltPayload>, total_fees: u128) -> bool {
    match best_payload {
        Some(best) => total_fees > best.fees,
        None => true,
    }
}

/// Executable form of [`spec_is_better_payload`].
pub fn is_better_payload(best_payload: Option<&BuiltPayload>, total_fees: u128) -> (r: bool)
    ensures
        r == match best_payload {
            Some(best) => total_fees > best.fees,
            None => true,
        },
{
    match best_payload {
        Some(best) => total_fees > best.fees,
        None => true,
    }
}

/// The value of an optional word, zero when absent.
pub open spec fn opt_or_zero(o: Option<u64>) -> u64 {
    match o {
        Some(v) => v,
        None => 0u64,
    }
}

/// Hashes of the blob transactions of a list, in order.
pub open spec fn spec_blob_hashes(txs: Seq<Transaction>) -> Seq<u64>
    decreases txs.len(),
{
    if txs.len() == 0 {
        Seq::empty()
    } else {
        spec_blob_hashes(txs.drop_last()) + if txs.last().spec_is_blob() {
            seq![txs.last().hash]
        } else {
            Seq::<u64>::empty()
        }
    }
}

/// Collect the hashes of the blob transactions of `txs`.
fn blob_hashes(txs: &Vec<Transaction>) -> (r: Vec<u64>)
    ensures
        r@ == spec_blob_hashes(txs@),
{
    let mut out: Vec<u64> = Vec::new();
    let n = txs.len();
    let mut i: usize = 0;
    while i < n
        invariant
            i <= n,
            n == txs@.len(),
            out@ == spec_blob_hashes(txs@.take(i as int)),
        decreases n - i,
    {
        if txs[i].is_blob() {
            out.push(txs[i].hash);
        }
        proof {
            assert(txs@.take(i as int + 1).drop_last() =~= txs@.take(i as int));
            assert(out@ =~= spec_blob_hashes(txs@.take(i as int + 1)));
        }
        i = i + 1;
    }
    proof {
        assert(txs@.take(n as int) =~= txs@);
    }
    out
}

/// Map an engine fault to the attempt-fatal build error.
fn evm_fatal(e: EvmError) -> (r: BuildError)
    ensures
        r is EvmExecution,
{
    match e {
        EvmError::Internal(code) => BuildError::EvmExecution(code),
        EvmError::Transaction(_) => BuildError::EvmExecution(0),
    }
}

/// A lawful, exhausted selection run behind an outcome: some final
/// selector state over (model copies of) the pool's transactions and some
/// event trace such that the run was lawful, every recorded mark is the
/// trace's, the blob-skip flag is the trace's, nothing eligible remains,
/// and the run produced no more candidates than the cancellation
/// countdown allowed.
pub open spec fn spec_attempt_run<P: StateProvider>(
    args: BuildArguments<P>,
    sel1: BestTransactions,
    es: Seq<LoopEvent>,
) -> bool {
    &&& sel1.txs@.len() == args.pool.txs@.len()
    &&& forall|j: int|
        0 <= j < sel1.txs@.len() ==> (#[trigger] sel1.txs@[j]).model()
            == args.pool.txs@[j].model()
    &&& run_ok(
        sel1.txs@,
        Seq::empty(),
        args.config.initialized_block_env.basefee,
        args.config.initialized_block_env.gas_limit,
        args.config.initialized_block_env.blob_gasprice,
        false,
        es,
    )
    &&& sel1.banned@ == events_marks(es)
    &&& sel1.skip_blobs == hits_blob_ceiling(es)
    &&& forall|i: int| !sel1.eligible(i)
    &&& (args.cancel.remaining matches Some(n) ==> es.len() <= n)
}

/// The orchestrator's whole-outcome contract: what each outcome variant
/// guarantees about fees, the returned cache, and the assembled header.
pub open spec fn spec_build_outcome_ok<P: StateProvider>(
    args: BuildArguments<P>,
    r: Result<BuildOutcome, BuildError>,
) -> bool {
    &&& (r matches Ok(out) ==> (out matches BuildOutcome::Cancelled ==> args.cancel.remaining
            is Some))
    &&& (r matches Ok(out) ==> (out matches BuildOutcome::Aborted { fees, cached_reads } ==> {
            &&& args.best_payload is Some
            &&& fees <= args.best_payload.unwrap().fees
            &&& cached_reads.wf()
            &&& cache_extends(cached_reads.model(), args.cached_reads.model())
            &&& exists|sel1: BestTransactions, es: Seq<LoopEvent>|
                {
                    &&& #[trigger] spec_attempt_run(args, sel1, es)
                    &&& fees as int == included_fees(
                        es,
                        args.config.initialized_block_env.basefee,
                    )
                }
        }))
    &&& (r matches Ok(out) ==> (out matches BuildOutcome::Better { payload, cached_reads } ==> {
            &&& spec_is_better_payload(args.best_payload, payload.fees)
            &&& cached_reads.wf()
            &&& cache_extends(cached_reads.model(), args.cached_reads.model())
            &&& exists|sel1: BestTransactions, es: Seq<LoopEvent>|
                {
                    &&& #[trigger] spec_attempt_run(args, sel1, es)
                    &&& payload.block.body@.len() == included_of(es).len()
                    &&& (forall|i: int|
                        0 <= i < payload.block.body@.len() ==> event_tx(
                            #[trigger] included_of(es)[i],
                        ) == payload.block.body@[i].model())
                    &&& payload.fees as int == included_fees(
                        es,
                        args.config.initialized_block_env.basefee,
                    )
                    &&& payload.block.header.gas_used as int == included_gas(es)
                }
            &&& payload.id == args.config.attributes.id
            &&& payload.block.hash == spec_header_hash(payload.block.header)
            &&& payload.block.header.parent_hash == args.config.parent_block.hash
            &&& payload.block.header.ommers_hash == EMPTY_OMMER_ROOT_HASH
            &&& payload.block.header.beneficiary
                == args.config.initialized_block_env.coinbase
            &&& payload.block.header.number == args.config.parent_block.header.number + 1
            &&& payload.block.header.timestamp == args.config.attributes.timestamp
            &&& payload.block.header.mix_hash == args.config.attributes.prev_randao
            &&& payload.block.header.nonce == BEACON_NONCE
            &&& payload.block.header.difficulty == 0
            &&& payload.block.header.base_fee_per_gas == Some(
                args.config.initialized_block_env.basefee,
            )
            &&& payload.block.header.gas_limit
                == args.config.initialized_block_env.gas_limit
            &&& payload.block.header.gas_used <= payload.block.header.gas_limit
            &&& payload.block.header.extra_data@ == args.config.extra_data@
            &&& payload.block.header.parent_beacon_block_root
                == args.config.attributes.parent_beacon_block_root
            &&& payload.block.header.transactions_root == spec_transactions_root(
                payload.block.body@,
            )
            &&& forall|i: int|
                0 <= i < payload.block.body@.len() ==> exists|j: int|
                    0 <= j < args.pool.txs@.len() && (#[trigger] payload.block.body@[i]).model()
                        == args.pool.txs@[j].model()
            &&& (payload.block.header.withdrawals_root is Some
                <==> args.config.chain_spec.spec_is_shanghai_active_at_timestamp(
                args.config.attributes.timestamp,
            ))
            &&& (args.config.chain_spec.spec_is_shanghai_active_at_timestamp(
                args.config.attributes.timestamp,
            ) ==> {
                &&& (args.config.attributes.withdrawals matches Some(w)
                    ==> payload.block.withdrawals == Some(w))
                &&& (args.config.attributes.withdrawals is None
                    ==> (payload.block.withdrawals matches Some(e) && e@.len() == 0))
            })
            &&& (!args.config.chain_spec.spec_is_shanghai_active_at_timestamp(
                args.config.attributes.timestamp,
            ) ==> payload.block.withdrawals is None)
            &&& (payload.block.header.requests_root is Some
                <==> args.config.chain_spec.spec_is_prague_active_at_timestamp(
                args.config.attributes.timestamp,
            ))
            &&& (args.config.chain_spec.spec_is_cancun_active_at_timestamp(
                args.config.attributes.timestamp,
            ) ==> {
                &&& payload.block.header.blob_gas_used == Some(
                    spec_blob_gas(payload.block.body@) as u64,
                )
                &&& spec_blob_gas(payload.block.body@) <= crate::types::MAX_DATA_GAS_PER_BLOCK
                &&& payload.block.header.excess_blob_gas == Some(
                    (if args.config.chain_spec.spec_is_cancun_active_at_timestamp(
                        args.config.parent_block.header.timestamp,
                    ) {
                        spec_calc_excess_blob_gas(
                            opt_or_zero(args.config.parent_block.header.excess_blob_gas),
                            opt_or_zero(args.config.parent_block.header.blob_gas_used),
                        )
                    } else {
                        spec_calc_excess_blob_gas(0, 0)
                    }) as u64,
                )
                &&& payload.sidecars@.len() == spec_blob_hashes(payload.block.body@).len()
                &&& forall|i: int|
                    0 <= i < payload.sidecars@.len() ==> (#[trigger] payload.sidecars@[i]).tx_hash
                        == spec_blob_hashes(payload.block.body@)[i]
            })
            &&& (!args.config.chain_spec.spec_is_cancun_active_at_timestamp(
                args.config.attributes.timestamp,
            ) ==> {
                &&& payload.block.header.blob_gas_used is None
                &&& payload.block.header.excess_blob_gas is None
                &&& payload.sidecars@.len() == 0
            })
        }))
    &&& (r matches Err(e) ==> e is EvmExecution || e is Provider || e
            == BuildError::BalanceOverflow || e == BuildError::MissingSidecar)
}

/// Build one candidate payload from the best transactions of the pool.
///
/// The attempt is deterministic given its arguments and the capabilities'
/// answers. Whatever the outcome, the read cache only grows; gas and
/// blob-gas budgets hold in any assembled header; and the fee comparison
/// against the previously-best payload decides between `Aborted` and
/// `Better` exactly — see [`spec_build_outcome_ok`].
#[verifier::rlimit(100)]
pub fn default_taiko_payload_builder<P: StateProvider, E: ExecutionEngine<P>>(
    engine: &mut E,
    args: BuildArguments<P>,
) -> (r: Result<BuildOutcome, BuildError>)
    requires
        args.cached_reads.wf(),
        args.pool.wf(),
        args.config.parent_block.header.number < u64::MAX,
        opt_or_zero(args.config.parent_block.header.excess_blob_gas) + opt_or_zero(
            args.config.parent_block.header.blob_gas_used,
        ) <= u64::MAX,
    ensures
        spec_build_outcome_ok(args, r),
{
    let BuildArguments { pool, client, cached_reads, config, mut cancel, best_payload } = args;
    let PayloadConfig { parent_block, attributes, chain_spec, initialized_block_env, extra_data } =
        config;
    let ghost cache0 = cached_reads.model();
    let mut db = cached_reads.as_db_mut(client);
    let base_fee = initialized_block_env.basefee;
    let block_gas_limit = initialized_block_env.gas_limit;
    let mut best_txs = pool.best_transactions_with_attributes(
        base_fee,
        initialized_block_env.blob_gasprice,
    );
    let ghost sel0 = best_txs;
    let ghost cancel0 = cancel;
    let mut bundle = BundleState::new();

    // Pre-block system hooks: beacon-root bookkeeping and block-hash
    // history, in fixed order with fixed inputs.
    let pre_diff = match engine.pre_block_system_calls(
        &mut db,
        &initialized_block_env,
        attributes.parent_beacon_block_root,
        parent_block.hash,
    ) {
        Ok(d) => d,
        Err(e) => {
            return Err(evm_fatal(e));
        }
    };
    bundle.apply_diff(&pre_diff);
    let ghost cache1 = db.cached.model();

    // The transaction loop.
    let loop_outcome = match execute_transactions(
        engine,
        &mut best_txs,
        &mut db,
        &mut bundle,
        &mut cancel,
        block_gas_limit,
        base_fee,
    ) {
        Ok(o) => o,
        Err(e) => {
            return Err(e);
        }
    };
    proof {
        lemma_cache_extends_trans(db.cached.model(), cache1, cache0);
    }
    let out = match loop_outcome {
        LoopOutcome::Cancelled => {
            return Ok(BuildOutcome::Cancelled);
        }
        LoopOutcome::Completed(out) => out,
    };
    let ghost run_sel = best_txs;
    let ghost run_es: Seq<LoopEvent>;
    proof {
        run_es = crate::exec_loop::lemma_attempt_facts(
            sel0,
            run_sel,
            cancel0,
            cancel,
            out,
            base_fee,
            block_gas_limit,
        );
        lemma_trace_describes_unfold(run_es, out, base_fee);
        assert(run_sel.banned@ =~= events_marks(run_es));
    }

    // Fee comparison decides before any root work is spent.
    if !is_better_payload(best_payload.as_ref(), out.total_fees) {
        let (cache, _client) = db.into_parts();
        proof {
            assert(spec_attempt_run(args, run_sel, run_es));
        }
        return Ok(BuildOutcome::Aborted { fees: out.total_fees, cached_reads: cache });
    }

    let ghost cache_at_assembly = db.cached.model();
    match assemble_payload(
        engine,
        &pool,
        db,
        bundle,
        out,
        &parent_block,
        attributes,
        &chain_spec,
        &initialized_block_env,
        extra_data,
    ) {
        Ok((payload, cache)) => {
            proof {
                lemma_cache_extends_trans(cache.model(), cache_at_assembly, cache0);
                assert forall|i: int| 0 <= i < payload.block.body@.len() implies exists|j: int|
                    0 <= j < pool.txs@.len() && (#[trigger] payload.block.body@[i]).model()
                        == pool.txs@[j].model() by {
                    let j = choose|j: int|
                        0 <= j < sel0.txs@.len() && (#[trigger] payload.block.body@[i]).model()
                            == sel0.txs@[j].model();
                    assert(sel0.txs@[j].model() == pool.txs@[j].model());
                }
                assert(spec_attempt_run(args, run_sel, run_es));
                assert forall|i: int| 0 <= i < payload.block.body@.len() implies event_tx(
                    #[trigger] included_of(run_es)[i],
                ) == payload.block.body@[i].model() by {
                    assert(payload.block.body@[i] == out.executed_txs@[i]);
                }
            }
            Ok(BuildOutcome::Better { payload, cached_reads: cache })
        }
        Err(e) => Err(e),
    }
}

/// Assemble the block of one worth-finalizing attempt: post-block
/// requests, withdrawals, roots, header, seal, sidecars.
#[verifier::rlimit(100)]
fn assemble_payload<P: StateProvider, E: ExecutionEngine<P>>(
    engine: &mut E,
    pool: &Pool,
    db_in: CachedReadsDbMut<P>,
    bundle_in: BundleState,
    out: ExecLoopOutput,
    parent_block: &SealedHeader,
    attributes: PayloadAttributes,
    chain_spec: &ChainRules,
    initialized_block_env: &BlockEnv,
    extra_data: Vec<u8>,
) -> (r: Result<(BuiltPayload, CachedReads), BuildError>)
    requires
        db_in.cached.wf(),
        bundle_in.wf(),
        pool.wf(),
        parent_block.header.number < u64::MAX,
        opt_or_zero(parent_block.header.excess_blob_gas) + opt_or_zero(
            parent_block.header.blob_gas_used,
        ) <= u64::MAX,
        out.cumulative_gas_used <= initialized_block_env.gas_limit,
        spec_blob_gas(out.executed_txs@) == out.blob_gas_used as int,
        out.blob_gas_used <= crate::types::MAX_DATA_GAS_PER_BLOCK,
    ensures
        (r matches Ok(p) ==> {
            &&& p.1.wf()
            &&& cache_extends(p.1.model(), db_in.cached.model())
            &&& p.0.fees == out.total_fees
            &&& p.0.id == attributes.id
            &&& p.0.block.body@ == out.executed_txs@
            &&& p.0.block.hash == spec_header_hash(p.0.block.header)
            &&& p.0.block.header.parent_hash == parent_block.hash
            &&& p.0.block.header.ommers_hash == EMPTY_OMMER_ROOT_HASH
            &&& p.0.block.header.beneficiary == initialized_block_env.coinbase
            &&& p.0.block.header.number == parent_block.header.number + 1
            &&& p.0.block.header.timestamp == attributes.timestamp
            &&& p.0.block.header.mix_hash == attributes.prev_randao
            &&& p.0.block.header.nonce == BEACON_NONCE
            &&& p.0.block.header.difficulty == 0
            &&& p.0.block.header.base_fee_per_gas == Some(initialized_block_env.basefee)
            &&& p.0.block.header.gas_limit == initialized_block_env.gas_limit
            &&& p.0.block.header.gas_used == out.cumulative_gas_used
            &&& p.0.block.header.extra_data@ == extra_data@
            &&& p.0.block.header.parent_beacon_block_root == attributes.parent_beacon_block_root
            &&& p.0.block.header.transactions_root == spec_transactions_root(p.0.block.body@)
            &&& (p.0.block.header.withdrawals_root is Some
                <==> chain_spec.spec_is_shanghai_active_at_timestamp(attributes.timestamp))
            &&& (chain_spec.spec_is_shanghai_active_at_timestamp(attributes.timestamp) ==> {
                &&& (attributes.withdrawals matches Some(w) ==> p.0.block.withdrawals == Some(w))
                &&& (attributes.withdrawals is None ==> (p.0.block.withdrawals matches Some(e)
                    && e@.len() == 0))
            })
            &&& (!chain_spec.spec_is_shanghai_active_at_timestamp(attributes.timestamp)
                ==> p.0.block.withdrawals is None)
            &&& (p.0.block.header.requests_root is Some
                <==> chain_spec.spec_is_prague_active_at_timestamp(attributes.timestamp))
            &&& (chain_spec.spec_is_cancun_active_at_timestamp(attributes.timestamp) ==> {
                &&& p.0.block.header.blob_gas_used == Some(out.blob_gas_used)
                &&& p.0.block.header.excess_blob_gas == Some(
                    (if chain_spec.spec_is_cancun_active_at_timestamp(
                        parent_block.header.timestamp,
                    ) {
                        spec_calc_excess_blob_gas(
                            opt_or_zero(parent_block.header.excess_blob_gas),
                            opt_or_zero(parent_block.header.blob_gas_used),
                        )
                    } else {
                        spec_calc_excess_blob_gas(0, 0)
                    }) as u64,
                )
                &&& p.0.sidecars@.len() == spec_blob_hashes(out.executed_txs@).len()
                &&& forall|i: int|
                    0 <= i < p.0.sidecars@.len() ==> (#[trigger] p.0.sidecars@[i]).tx_hash
                        == spec_blob_hashes(out.executed_txs@)[i]
            })
            &&& (!chain_spec.spec_is_cancun_active_at_timestamp(attributes.timestamp) ==> {
                &&& p.0.block.header.blob_gas_used is None
                &&& p.0.block.header.excess_blob_gas is None
                &&& p.0.sidecars@.len() == 0
            })
        }),
        (r matches Err(e) ==> e is EvmExecution || e is Provider || e
            == BuildError::BalanceOverflow || e == BuildError::MissingSidecar),
{
    // Requests, withdrawals and the state root over the merged bundle.
    let finalized = match finalize_state(
        engine,
        db_in,
        bundle_in,
        withdrawals_of(attributes.withdrawals),
        chain_spec,
        initialized_block_env,
        attributes.timestamp,
    ) {
        Ok(f) => f,
        Err(e) => {
            return Err(e);
        }
    };
    let FinalizedState { cache, state_root, withdrawals_root, withdrawals, requests, requests_root } =
        finalized;

    // Roots over the executed list and its receipts.
    let receipts_root = calculate_receipts_root(&out.receipts);
    let logs_bloom = block_logs_bloom(&out.receipts);
    let transactions_root = calculate_transaction_root(&out.executed_txs);

    // Blob fields and sidecars exist only when blobs are enabled.
    let blob_parts = match blob_section(
        pool,
        &out.executed_txs,
        out.blob_gas_used,
        parent_block,
        chain_spec,
        attributes.timestamp,
    ) {
        Ok(p) => p,
        Err(e) => {
            return Err(e);
        }
    };
    let blob_sidecars = blob_parts.0;
    let excess_blob_gas = blob_parts.1;
    let blob_gas_used = blob_parts.2;

    let header = Header {
        parent_hash: parent_block.hash,
        ommers_hash: EMPTY_OMMER_ROOT_HASH,
        beneficiary: initialized_block_env.coinbase,
        state_root,
        transactions_root,
        receipts_root,
        withdrawals_root,
        logs_bloom,
        difficulty: 0,
        number: parent_block.header.number + 1,
        gas_limit: initialized_block_env.gas_limit,
        gas_used: out.cumulative_gas_used,
        timestamp: attributes.timestamp,
        extra_data,
        mix_hash: attributes.prev_randao,
        nonce: BEACON_NONCE,
        base_fee_per_gas: Some(initialized_block_env.basefee),
        blob_gas_used,
        excess_blob_gas,
        parent_beacon_block_root: attributes.parent_beacon_block_root,
        requests_root,
    };
    let hash = seal_header(&header);
    let block = SealedBlock { header, hash, body: out.executed_txs, withdrawals, requests };
    let mut payload = BuiltPayload::new(attributes.id, block, out.total_fees);
    let ghost sc = blob_sidecars@;
    payload.extend_sidecars(blob_sidecars);
    proof {
        assert forall|i: int| 0 <= i < payload.sidecars@.len() implies (
        #[trigger] payload.sidecars@[i]) == sc[i] by {
            assert(payload.sidecars@[0 + i] == sc[i]);
        }
    }
    Ok((payload, cache))
}

/// The blob-related parts of a header: the sidecars of the included blob
/// transactions, the derived excess blob gas, and the blob gas used —
/// all absent when blobs are not enabled at `timestamp`.
fn blob_section(
    pool: &Pool,
    executed_txs: &Vec<Transaction>,
    total_blob_gas: u64,
    parent_block: &SealedHeader,
    chain_spec: &ChainRules,
    timestamp: u64,
) -> (r: Result<(Vec<BlobSidecar>, Option<u64>, Option<u64>), BuildError>)
    requires
        pool.wf(),
        opt_or_zero(parent_block.header.excess_blob_gas) + opt_or_zero(
            parent_block.header.blob_gas_used,
        ) <= u64::MAX,
    ensures
        (r matches Ok(p) ==> chain_spec.spec_is_cancun_active_at_timestamp(timestamp) ==> {
            &&& p.0@.len() == spec_blob_hashes(executed_txs@).len()
            &&& forall|i: int|
                0 <= i < p.0@.len() ==> (#[trigger] p.0@[i]).tx_hash == spec_blob_hashes(
                    executed_txs@,
                )[i]
            &&& p.1 == Some(
                (if chain_spec.spec_is_cancun_active_at_timestamp(parent_block.header.timestamp) {
                    spec_calc_excess_blob_gas(
                        opt_or_zero(parent_block.header.excess_blob_gas),
                        opt_or_zero(parent_block.header.blob_gas_used),
                    )
                } else {
                    spec_calc_excess_blob_gas(0, 0)
                }) as u64,
            )
            &&& p.2 == Some(total_blob_gas)
        }),
        (r matches Ok(p) ==> !chain_spec.spec_is_cancun_active_at_timestamp(timestamp) ==> {
            &&& p.0@.len() == 0
            &&& p.1 is None
            &&& p.2 is None
        }),
        (r matches Err(e) ==> e == BuildError::MissingSidecar),
{
    if !chain_spec.is_cancun_active_at_timestamp(timestamp) {
        return Ok((Vec::new(), None, None));
    }
    let hashes = blob_hashes(executed_txs);
    let blob_sidecars = match pool.get_all_blobs_exact(&hashes) {
        Ok(v) => v,
        Err(e) => {
            return Err(e);
        }
    };
    let excess_blob_gas: u64 = if chain_spec.is_cancun_active_at_timestamp(
        parent_block.header.timestamp,
    ) {
        let parent_excess = match parent_block.header.excess_blob_gas {
            Some(v) => v,
            None => 0,
        };
        let parent_used = match parent_block.header.blob_gas_used {
            Some(v) => v,
            None => 0,
        };
        calculate_excess_blob_gas(parent_excess, parent_used)
    } else {
        calculate_excess_blob_gas(0, 0)
    };
    Ok((blob_sidecars, Some(excess_blob_gas), Some(total_blob_gas)))
}

/// Turn an optional withdrawal list into the list itself, empty when
/// absent.
fn withdrawals_of(o: Option<Vec<Withdrawal>>) -> (r: Vec<Withdrawal>)
    ensures
        o matches Some(w) ==> r == w,
        o is None ==> r@ == Seq::<Withdrawal>::empty(),
{
    match o {
        Some(w) => w,
        None => Vec::new(),
    }
}

/// What the state-finalisation phase hands to header assembly.
struct FinalizedState {
    cache: CachedReads,
    state_root: u64,
    withdrawals_root: Option<u64>,
    withdrawals: Option<Vec<Withdrawal>>,
    requests: Option<Vec<crate::types::Request>>,
    requests_root: Option<u64>,
}

/// Gather post-block requests under the active rules, apply the
/// withdrawals, and compute the state root of the merged bundle.
#[verifier::rlimit(100)]
fn finalize_state<P: StateProvider, E: ExecutionEngine<P>>(
    engine: &mut E,
    db_in: CachedReadsDbMut<P>,
    bundle_in: BundleState,
    withdrawal_list: Vec<Withdrawal>,
    chain_spec: &ChainRules,
    initialized_block_env: &BlockEnv,
    timestamp: u64,
) -> (r: Result<FinalizedState, BuildError>)
    requires
        db_in.cached.wf(),
        bundle_in.wf(),
    ensures
        (r matches Ok(f) ==> {
            &&& f.cache.wf()
            &&& cache_extends(f.cache.model(), db_in.cached.model())
            &&& (f.withdrawals_root is Some <==> chain_spec.spec_is_shanghai_active_at_timestamp(
                timestamp,
            ))
            &&& (chain_spec.spec_is_shanghai_active_at_timestamp(timestamp) ==> {
                &&& f.withdrawals_root == Some(spec_withdrawals_root(withdrawal_list@))
                &&& f.withdrawals == Some(withdrawal_list)
            })
            &&& (!chain_spec.spec_is_shanghai_active_at_timestamp(timestamp)
                ==> f.withdrawals is None)
            &&& (f.requests_root is Some <==> chain_spec.spec_is_prague_active_at_timestamp(
                timestamp,
            ))
            &&& (f.requests is Some <==> chain_spec.spec_is_prague_active_at_timestamp(timestamp))
            &&& exists|b2: BundleState, post: Seq<crate::bundle::AccountChange>|
                #![trigger (db_in.db.state().root_of)(b2.snap()), crate::bundle::spec_apply_diff(bundle_in.model(), post)]
                {
                    &&& f.state_root == (db_in.db.state().root_of)(b2.snap())
                    &&& (chain_spec.spec_is_shanghai_active_at_timestamp(timestamp)
                        ==> exists|c_out: crate::cache::CachedReadsModel, c_mid: crate::cache::CachedReadsModel|
                        crate::assembler::spec_credit_withdrawals(
                            crate::bundle::spec_apply_diff(bundle_in.model(), post),
                            c_mid,
                            db_in.db.state(),
                            withdrawal_list@,
                        ) == Some((b2.model(), c_out)))
                    &&& (!chain_spec.spec_is_shanghai_active_at_timestamp(timestamp)
                        ==> b2.model() == crate::bundle::spec_apply_diff(bundle_in.model(), post))
                    &&& (!chain_spec.spec_is_prague_active_at_timestamp(timestamp) ==> post
                        == Seq::<crate::bundle::AccountChange>::empty())
                }
        }),
        (r matches Err(e) ==> e is EvmExecution || e is Provider || e
            == BuildError::BalanceOverflow),
{
    let mut db = db_in;
    let mut bundle = bundle_in;
    let ghost cache0 = db.cached.model();
    let ghost mut post_changes: Seq<crate::bundle::AccountChange> = Seq::empty();
    // Post-block requests, gathered only under the active rules.
    let (requests, requests_root) = if chain_spec.is_prague_active_at_timestamp(timestamp) {
        let (post_diff, reqs) = match engine.post_block_system_calls(
            &mut db,
            initialized_block_env,
        ) {
            Ok(p) => p,
            Err(e) => {
                return Err(evm_fatal(e));
            }
        };
        bundle.apply_diff(&post_diff);
        proof {
            post_changes = post_diff.changes@;
        }
        let root = calculate_requests_root(&reqs);
        (Some(reqs), Some(root))
    } else {
        (None, None)
    };
    proof {
        assert(bundle.model() == crate::bundle::spec_apply_diff(bundle_in.model(), post_changes));
    }

    // Withdrawals are applied after the post-block hooks gather their
    // state-affecting requests.
    let ghost cache3 = db.cached.model();
    let WithdrawalsOutcome { withdrawals_root, withdrawals } = match commit_withdrawals(
        &mut db,
        &mut bundle,
        chain_spec,
        timestamp,
        withdrawal_list,
    ) {
        Ok(o) => o,
        Err(e) => {
            proof {
                lemma_cache_extends_trans(db.cached.model(), cache3, cache0);
            }
            return Err(e);
        }
    };
    proof {
        lemma_cache_extends_trans(db.cached.model(), cache3, cache0);
    }

    // The state root comes from the provider's root capability over the
    // merged bundle.
    let (cache, mut client_back) = db.into_parts();
    let state_root = match client_back.state_root(&bundle) {
        Ok(h) => h,
        Err(e) => {
            return Err(BuildError::Provider(e));
        }
    };
    proof {
        // The root is the provider's capability over the merged bundle.
        assert(state_root == (db_in.db.state().root_of)(bundle.snap()));
    }
    Ok(FinalizedState { cache, state_root, withdrawals_root, withdrawals, requests, requests_root })
}


/// The Taiko payload builder.
#[derive(Clone, Copy, Debug, PartialEq, Eq, Structural, Default)]
pub struct TaikoPayloadBuilder;

impl TaikoPayloadBuilder {
    /// Try to build one candidate payload; see
    /// [`default_taiko_payload_builder`].
    pub fn try_build<P: StateProvider, E: ExecutionEngine<P>>(
        &self,
        engine: &mut E,
        args: BuildArguments<P>,
    ) -> (r: Result<BuildOutcome, BuildError>)
        requires
            args.cached_reads.wf(),
            args.pool.wf(),
            args.config.parent_block.header.number < u64::MAX,
            opt_or_zero(args.config.parent_block.header.excess_blob_gas) + opt_or_zero(
                args.config.parent_block.header.blob_gas_used,
            ) <= u64::MAX,
        ensures
            spec_build_outcome_ok(args, r),
    {
        default_taiko_payload_builder(engine, args)
    }

    /// Build a payload with no transactions at all: hooks and withdrawals
    /// apply, the body stays empty, the fees are zero.
    #[verifier::rlimit(100)]
    pub fn build_empty_payload<P: StateProvider, E: ExecutionEngine<P>>(
        &self,
        engine: &mut E,
        client: P,
        config: PayloadConfig,
    ) -> (r: Result<BuiltPayload, BuildError>)
        requires
            config.parent_block.header.number < u64::MAX,
            opt_or_zero(config.parent_block.header.excess_blob_gas) + opt_or_zero(
                config.parent_block.header.blob_gas_used,
            ) <= u64::MAX,
        ensures
            (r matches Ok(payload) ==> {
                &&& payload.fees == 0
                &&& payload.id == config.attributes.id
                &&& payload.block.body@.len() == 0
                &&& payload.sidecars@.len() == 0
                &&& payload.block.hash == spec_header_hash(payload.block.header)
                &&& payload.block.header.parent_hash == config.parent_block.hash
                &&& payload.block.header.ommers_hash == EMPTY_OMMER_ROOT_HASH
                &&& payload.block.header.beneficiary == config.initialized_block_env.coinbase
                &&& payload.block.header.number == config.parent_block.header.number + 1
                &&& payload.block.header.timestamp == config.attributes.timestamp
                &&& payload.block.header.mix_hash == config.attributes.prev_randao
                &&& payload.block.header.nonce == BEACON_NONCE
                &&& payload.block.header.difficulty == 0
                &&& payload.block.header.base_fee_per_gas == Some(
                    config.initialized_block_env.basefee,
                )
                &&& payload.block.header.gas_limit == config.initialized_block_env.gas_limit
                &&& payload.block.header.gas_used == 0
                &&& payload.block.header.extra_data@ == config.extra_data@
                &&& payload.block.header.parent_beacon_block_root
                    == config.attributes.parent_beacon_block_root
                &&& payload.block.header.transactions_root == EMPTY_TRANSACTIONS
                &&& payload.block.header.receipts_root == EMPTY_RECEIPTS
                &&& exists|b2: BundleState| payload.block.header.state_root == (#[trigger] (
                client.state().root_of)(b2.snap()))
                &&& payload.block.header.logs_bloom == 0
                &&& payload.block.header.requests_root is None
                &&& (payload.block.header.withdrawals_root is Some
                    <==> config.chain_spec.spec_is_shanghai_active_at_timestamp(
                    config.attributes.timestamp,
                ))
                &&& (config.chain_spec.spec_is_shanghai_active_at_timestamp(
                    config.attributes.timestamp,
                ) ==> {
                    &&& (config.attributes.withdrawals matches Some(w) ==> {
                        &&& payload.block.header.withdrawals_root == Some(
                            spec_withdrawals_root(w@),
                        )
                        &&& payload.block.withdrawals == Some(w)
                    })
                    &&& (config.attributes.withdrawals is None
                        ==> payload.block.header.withdrawals_root == Some(
                        spec_withdrawals_root(Seq::<Withdrawal>::empty()),
                    ))
                })
                &&& (!config.chain_spec.spec_is_shanghai_active_at_timestamp(
                    config.attributes.timestamp,
                ) ==> payload.block.withdrawals is None)
                &&& (config.chain_spec.spec_is_cancun_active_at_timestamp(
                    config.attributes.timestamp,
                ) ==> {
                    &&& payload.block.header.blob_gas_used == Some(0u64)
                    &&& payload.block.header.excess_blob_gas == Some(
                        (if config.chain_spec.spec_is_cancun_active_at_timestamp(
                            config.parent_block.header.timestamp,
                        ) {
                            spec_calc_excess_blob_gas(
                                opt_or_zero(config.parent_block.header.excess_blob_gas),
                                opt_or_zero(config.parent_block.header.blob_gas_used),
                            )
                        } else {
                            spec_calc_excess_blob_gas(0, 0)
                        }) as u64,
                    )
                })
                &&& (!config.chain_spec.spec_is_cancun_active_at_timestamp(
                    config.attributes.timestamp,
                ) ==> payload.block.header.blob_gas_used is None
                    && payload.block.header.excess_blob_gas is None)
            }),
            (r matches Err(e) ==> e is EvmExecution || e is Provider || e
                == BuildError::BalanceOverflow),
    {
        let PayloadConfig {
            parent_block,
            attributes,
            chain_spec,
            initialized_block_env,
            extra_data,
        } = config;
        let cached_reads = CachedReads::new();
        let mut db = cached_reads.as_db_mut(client);
        let mut bundle = BundleState::new();

        // The pre-block system hooks run even for an empty payload.
        let pre_diff = match engine.pre_block_system_calls(
            &mut db,
            &initialized_block_env,
            attributes.parent_beacon_block_root,
            parent_block.hash,
        ) {
            Ok(d) => d,
            Err(e) => {
                return Err(evm_fatal(e));
            }
        };
        bundle.apply_diff(&pre_diff);

        let withdrawal_list = withdrawals_of(attributes.withdrawals);
        let WithdrawalsOutcome { withdrawals_root, withdrawals } = match commit_withdrawals(
            &mut db,
            &mut bundle,
            &chain_spec,
            attributes.timestamp,
            withdrawal_list,
        ) {
            Ok(o) => o,
            Err(e) => {
                return Err(e);
            }
        };

        let (_cache, mut client_back) = db.into_parts();
        let state_root = match client_back.state_root(&bundle) {
            Ok(h) => h,
            Err(e) => {
                return Err(BuildError::Provider(e));
            }
        };

        let mut excess_blob_gas: Option<u64> = None;
        let mut blob_gas_used: Option<u64> = None;
        if chain_spec.is_cancun_active_at_timestamp(attributes.timestamp) {
            excess_blob_gas = if chain_spec.is_cancun_active_at_timestamp(
                parent_block.header.timestamp,
            ) {
                let parent_excess = match parent_block.header.excess_blob_gas {
                    Some(v) => v,
                    None => 0,
                };
                let parent_used = match parent_block.header.blob_gas_used {
                    Some(v) => v,
                    None => 0,
                };
                Some(calculate_excess_blob_gas(parent_excess, parent_used))
            } else {
                Some(calculate_excess_blob_gas(0, 0))
            };
            blob_gas_used = Some(0);
        }

        let header = Header {
            parent_hash: parent_block.hash,
            ommers_hash: EMPTY_OMMER_ROOT_HASH,
            beneficiary: initialized_block_env.coinbase,
            state_root,
            transactions_root: EMPTY_TRANSACTIONS,
            receipts_root: EMPTY_RECEIPTS,
            withdrawals_root,
            logs_bloom: 0,
            difficulty: 0,
            number: parent_block.header.number + 1,
            gas_limit: initialized_block_env.gas_limit,
            gas_used: 0,
            timestamp: attributes.timestamp,
            extra_data,
            mix_hash: attributes.prev_randao,
            nonce: BEACON_NONCE,
            base_fee_per_gas: Some(initialized_block_env.basefee),
            blob_gas_used,
            excess_blob_gas,
            parent_beacon_block_root: attributes.parent_beacon_block_root,
            requests_root: None,
        };
        let hash = seal_header(&header);
        let block = SealedBlock { header, hash, body: Vec::new(), withdrawals, requests: None };
        Ok(BuiltPayload::new(attributes.id, block, 0))
    }
}

/// Payload attributes for a plain block at `timestamp`: zeroed randomness
/// and recipient, an empty withdrawal list, and a zero parent beacon
/// root.
pub fn eth_payload_attributes(timestamp: u64) -> (r: PayloadAttributes)
    ensures
        r.id == 0,
        r.timestamp == timestamp,
        r.prev_randao == 0,
        r.suggested_fee_recipient == 0,
        r.withdrawals matches Some(w) && w@ == Seq::<Withdrawal>::empty(),
        r.parent_beacon_block_root == Some(0u64),
{
    PayloadAttributes {
        id: 0,
        timestamp,
        prev_randao: 0,
        suggested_fee_recipient: 0,
        withdrawals: Some(Vec::new()),
        parent_beacon_block_root: Some(0),
    }
}

} // verus!
