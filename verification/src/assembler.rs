//! Post-processing of a completed execution loop: withdrawal credits,
//! blob-gas header derivation, and body replacement with resealing.

use vstd::prelude::*;

use crate::bundle::{spec_set_info, BundleAccountModel, BundleState};
use crate::cache::{cache_extends, cache_with_account, lemma_cache_extends_trans, CachedReadsDbMut, CachedReadsModel};
use crate::provider::{StateModel, StateProvider};
use crate::roots::{seal_header, spec_header_hash, spec_withdrawals_root, calculate_withdrawals_root};
use crate::types::{
    AccountInfo, BuildError, ChainRules, SealedBlock, Transaction, Withdrawal,
    TARGET_DATA_GAS_PER_BLOCK, WEI_PER_GWEI,
};

verus! {

/// The excess blob gas a block derives from its parent's blob fields.
pub open spec fn spec_calc_excess_blob_gas(parent_excess: u64, parent_used: u64) -> int {
    if parent_excess + parent_used < TARGET_DATA_GAS_PER_BLOCK {
        0int
    } else {
        parent_excess + parent_used - TARGET_DATA_GAS_PER_BLOCK
    }
}

/// Derive the excess blob gas from the parent header's blob fields.
pub fn calculate_excess_blob_gas(parent_excess: u64, parent_used: u64) -> (r: u64)
    requires
        parent_excess + parent_used <= u64::MAX,
    ensures
        r as int == spec_calc_excess_blob_gas(parent_excess, parent_used),
{
    let sum: u64 = parent_excess + parent_used;
    if sum < TARGET_DATA_GAS_PER_BLOCK {
        0
    } else {
        sum - TARGET_DATA_GAS_PER_BLOCK
    }
}

/// A withdrawal amount in wei.
pub open spec fn spec_withdrawal_wei(amount: u64) -> int {
    amount as int * WEI_PER_GWEI as int
}

/// Credit one withdrawal: the base balance comes from the bundle when it
/// holds the account, else through the read cache; a read-through miss
/// fills the cache. `None` means the credit would overflow the balance.
pub open spec fn spec_credit_step(
    b: Map<u128, BundleAccountModel>,
    c: CachedReadsModel,
    p: StateModel,
    w: Withdrawal,
) -> Option<(Map<u128, BundleAccountModel>, CachedReadsModel)> {
    let a128 = w.address as u128;
    let in_bundle = b.contains_key(a128);
    let c2 = if in_bundle || c.accounts.contains_key(a128) {
        c
    } else {
        cache_with_account(c, a128, p.accounts[w.address], Map::<u128, u64>::empty())
    };
    let base = if in_bundle {
        b[a128].info
    } else {
        let looked_up = if c.accounts.contains_key(a128) {
            c.accounts[a128].info
        } else {
            p.accounts[w.address]
        };
        match looked_up {
            Some(i) => i,
            None => AccountInfo::spec_empty(),
        }
    };
    let nb = base.balance + spec_withdrawal_wei(w.amount);
    if nb > u128::MAX {
        None
    } else {
        Some(
            (
                spec_set_info(
                    b,
                    a128,
                    AccountInfo { balance: nb as u128, nonce: base.nonce, code_hash: base.code_hash },
                ),
                c2,
            ),
        )
    }
}

/// Credit a withdrawal list in order; `None` as soon as any credit
/// overflows.
pub open spec fn spec_credit_withdrawals(
    b: Map<u128, BundleAccountModel>,
    c: CachedReadsModel,
    p: StateModel,
    ws: Seq<Withdrawal>,
) -> Option<(Map<u128, BundleAccountModel>, CachedReadsModel)>
    decreases ws.len(),
{
    if ws.len() == 0 {
        Some((b, c))
    } else {
        match spec_credit_withdrawals(b, c, p, ws.drop_last()) {
            None => None,
            Some(pair) => spec_credit_step(pair.0, pair.1, p, ws.last()),
        }
    }
}

/// Once a prefix overflows, the whole list does.
pub proof fn lemma_credit_prefix_none(
    b: Map<u128, BundleAccountModel>,
    c: CachedReadsModel,
    p: StateModel,
    ws: Seq<Withdrawal>,
    j: int,
)
    requires
        0 <= j <= ws.len(),
        spec_credit_withdrawals(b, c, p, ws.take(j)) is None,
    ensures
        spec_credit_withdrawals(b, c, p, ws) is None,
    decreases ws.len() - j,
{
    if j < ws.len() {
        assert(ws.take(j + 1).drop_last() =~= ws.take(j));
        lemma_credit_prefix_none(b, c, p, ws, j + 1);
    } else {
        assert(ws.take(j) =~= ws);
    }
}

/// What withdrawal application hands to the header: the root and the list
/// the block carries, both absent before withdrawals are enabled.
pub struct WithdrawalsOutcome {
    pub withdrawals_root: Option<u64>,
    pub withdrawals: Option<Vec<Withdrawal>>,
}

/// Apply the withdrawal list as balance credits, exactly once each, and
/// compute the withdrawals root.
///
/// Before withdrawals are enabled at `timestamp` nothing happens and the
/// outcome is empty. A credit that would overflow a balance aborts the
/// attempt.
#[verifier::rlimit(60)]
pub fn commit_withdrawals<P: StateProvider>(
    db: &mut CachedReadsDbMut<P>,
    bundle: &mut BundleState,
    chain_rules: &ChainRules,
    timestamp: u64,
    withdrawals: Vec<Withdrawal>,
) -> (r: Result<WithdrawalsOutcome, BuildError>)
    requires
        old(db).cached.wf(),
        old(bundle).wf(),
    ensures
        final(db).cached.wf(),
        final(bundle).wf(),
        final(db).db.state() == old(db).db.state(),
        cache_extends(final(db).cached.model(), old(db).cached.model()),
        !chain_rules.spec_is_shanghai_active_at_timestamp(timestamp) ==> {
            &&& r matches Ok(out) && out.withdrawals_root is None && out.withdrawals is None
            &&& final(bundle).model() == old(bundle).model()
            &&& final(db).cached.model() == old(db).cached.model()
            &&& final(db).db.reads() == old(db).db.reads()
        },
        chain_rules.spec_is_shanghai_active_at_timestamp(timestamp) ==> {
            &&& (r matches Ok(out) ==> {
                &&& out.withdrawals_root == Some(spec_withdrawals_root(withdrawals@))
                &&& out.withdrawals == Some(withdrawals)
                &&& spec_credit_withdrawals(
                    old(bundle).model(),
                    old(db).cached.model(),
                    old(db).db.state(),
                    withdrawals@,
                ) == Some((final(bundle).model(), final(db).cached.model()))
            })
            &&& (r == Err::<WithdrawalsOutcome, BuildError>(BuildError::BalanceOverflow)
                ==> spec_credit_withdrawals(
                old(bundle).model(),
                old(db).cached.model(),
                old(db).db.state(),
                withdrawals@,
            ) is None)
            &&& (r matches Err(e) ==> e == BuildError::BalanceOverflow || e is Provider)
            &&& ((forall|i: int|
                0 <= i < withdrawals@.len() ==> old(bundle).model().contains_key(
                    (#[trigger] withdrawals@[i]).address as u128,
                )) ==> {
                &&& !(r matches Err(e) && e is Provider)
                &&& final(db).cached.model() == old(db).cached.model()
                &&& final(db).db.reads() == old(db).db.reads()
            })
        },
{
    if !chain_rules.is_shanghai_active_at_timestamp(timestamp) {
        return Ok(WithdrawalsOutcome { withdrawals_root: None, withdrawals: None });
    }
    let root = calculate_withdrawals_root(&withdrawals);
    let n = withdrawals.len();
    let mut i: usize = 0;
    while i < n
        invariant
            n == withdrawals@.len(),
            i <= n,
            chain_rules.spec_is_shanghai_active_at_timestamp(timestamp),
            db.cached.wf(),
            bundle.wf(),
            db.db.state() == old(db).db.state(),
            cache_extends(db.cached.model(), old(db).cached.model()),
            spec_credit_withdrawals(
                old(bundle).model(),
                old(db).cached.model(),
                old(db).db.state(),
                withdrawals@.take(i as int),
            ) == Some((bundle.model(), db.cached.model())),
            forall|k: u128|
                old(bundle).model().contains_key(k) ==> #[trigger] bundle.model().contains_key(k),
            (forall|i: int|
                0 <= i < withdrawals@.len() ==> old(bundle).model().contains_key(
                    (#[trigger] withdrawals@[i]).address as u128,
                )) ==> db.cached.model() == old(db).cached.model() && db.db.reads() == old(
                db,
            ).db.reads(),
        decreases n - i,
    {
        let w = withdrawals[i];
        let ghost pre_bundle = bundle.model();
        let ghost pre_cache = db.cached.model();
        let base: AccountInfo = match bundle.get_info(w.address) {
            Some(info) => info,
            None => {
                let fetched = match db.basic(w.address) {
                    Ok(v) => v,
                    Err(e) => {
                        return Err(BuildError::Provider(e));
                    }
                };
                proof {
                    lemma_cache_extends_trans(
                        db.cached.model(),
                        pre_cache,
                        old(db).cached.model(),
                    );
                }
                match fetched {
                    Some(info) => info,
                    None => AccountInfo::empty(),
                }
            }
        };
        proof {
            assert((w.amount as int) * (WEI_PER_GWEI as int) <= u128::MAX as int)
                by (nonlinear_arith)
                requires
                    w.amount as int <= u64::MAX as int,
                    WEI_PER_GWEI == 1000000000u128,
            ;
        }
        let wei: u128 = (w.amount as u128) * WEI_PER_GWEI;
        if wei > u128::MAX - base.balance {
            proof {
                assert(withdrawals@.take(i as int + 1).drop_last() =~= withdrawals@.take(i as int));
                assert(spec_credit_withdrawals(
                    old(bundle).model(),
                    old(db).cached.model(),
                    old(db).db.state(),
                    withdrawals@.take(i as int + 1),
                ) is None);
                lemma_credit_prefix_none(
                    old(bundle).model(),
                    old(db).cached.model(),
                    old(db).db.state(),
                    withdrawals@,
                    i as int + 1,
                );
            }
            return Err(BuildError::BalanceOverflow);
        }
        let nb: u128 = base.balance + wei;
        bundle.set_info(
            w.address,
            AccountInfo { balance: nb, nonce: base.nonce, code_hash: base.code_hash },
        );
        proof {
            assert(withdrawals@.take(i as int + 1).drop_last() =~= withdrawals@.take(i as int));
            assert(withdrawals@.take(i as int + 1).last() == w);
            assert(spec_credit_step(pre_bundle, pre_cache, old(db).db.state(), w) == Some(
                (bundle.model(), db.cached.model()),
            ));
        }
        i = i + 1;
    }
    proof {
        assert(withdrawals@.take(n as int) =~= withdrawals@);
    }
    Ok(WithdrawalsOutcome { withdrawals_root: Some(root), withdrawals: Some(withdrawals) })
}

/// Sum of the gas limits of a transaction list.
pub open spec fn spec_sum_gas_limits(txs: Seq<Transaction>) -> int
    decreases txs.len(),
{
    if txs.len() == 0 {
        0
    } else {
        spec_sum_gas_limits(txs.drop_last()) + txs.last().gas_limit as int
    }
}

/// Replace a sealed block's transaction list: the header's gas used
/// becomes the sum of the new gas limits, the side lists are dropped, and
/// the block is resealed.
pub fn modify_payload_block(block: &SealedBlock, new_transactions: Vec<(Transaction, u64)>) -> (r:
    SealedBlock)
    requires
        spec_sum_gas_limits(new_transactions@.map_values(|p: (Transaction, u64)| p.0))
            <= u64::MAX,
    ensures
        r.body@.len() == new_transactions@.len(),
        forall|i: int|
            0 <= i < new_transactions@.len() ==> (#[trigger] r.body@[i]).model()
                == new_transactions@[i].0.model(),
        r.header.gas_used as int == spec_sum_gas_limits(
            new_transactions@.map_values(|p: (Transaction, u64)| p.0),
        ),
        r.withdrawals is None,
        r.requests is None,
        r.header.parent_hash == block.header.parent_hash,
        r.header.ommers_hash == block.header.ommers_hash,
        r.header.beneficiary == block.header.beneficiary,
        r.header.state_root == block.header.state_root,
        r.header.transactions_root == block.header.transactions_root,
        r.header.receipts_root == block.header.receipts_root,
        r.header.withdrawals_root == block.header.withdrawals_root,
        r.header.logs_bloom == block.header.logs_bloom,
        r.header.difficulty == block.header.difficulty,
        r.header.number == block.header.number,
        r.header.gas_limit == block.header.gas_limit,
        r.header.timestamp == block.header.timestamp,
        r.header.extra_data@ == block.header.extra_data@,
        r.header.mix_hash == block.header.mix_hash,
        r.header.nonce == block.header.nonce,
        r.header.base_fee_per_gas == block.header.base_fee_per_gas,
        r.header.blob_gas_used == block.header.blob_gas_used,
        r.header.excess_blob_gas == block.header.excess_blob_gas,
        r.header.parent_beacon_block_root == block.header.parent_beacon_block_root,
        r.header.requests_root == block.header.requests_root,
        r.hash == spec_header_hash(r.header),
{
    let ghost picked = new_transactions@.map_values(|p: (Transaction, u64)| p.0);
    let mut txns: Vec<Transaction> = Vec::new();
    let mut gas_total: u64 = 0;
    let n = new_transactions.len();
    let mut i: usize = 0;
    while i < n
        invariant
            n == new_transactions@.len(),
            i <= n,
            picked == new_transactions@.map_values(|p: (Transaction, u64)| p.0),
            picked.len() == n,
            forall|j: int| 0 <= j < n ==> (#[trigger] picked[j]) == new_transactions@[j].0,
            txns@.len() == i,
            forall|j: int|
                0 <= j < i ==> (#[trigger] txns@[j]).model() == new_transactions@[j].0.model(),
            gas_total as int == spec_sum_gas_limits(picked.take(i as int)),
            spec_sum_gas_limits(picked) <= u64::MAX,
        decreases n - i,
    {
        let tx = new_transactions[i].0.clone();
        proof {
            assert(picked.take(i as int + 1).drop_last() =~= picked.take(i as int));
            assert(picked.take(i as int + 1).last() == picked[i as int]);
            lemma_sum_gas_prefix(picked, i as int + 1);
        }
        gas_total = gas_total + tx.gas_limit;
        txns.push(tx);
        i = i + 1;
    }
    proof {
        assert(picked.take(n as int) =~= picked);
    }
    let mut header = block.header.clone();
    header.gas_used = gas_total;
    let hash = seal_header(&header);
    SealedBlock { header, hash, body: txns, withdrawals: None, requests: None }
}

/// A prefix sum of gas limits is at most the whole sum.
pub proof fn lemma_sum_gas_prefix(txs: Seq<Transaction>, j: int)
    requires
        0 <= j <= txs.len(),
    ensures
        spec_sum_gas_limits(txs.take(j)) <= spec_sum_gas_limits(txs),
    decreases txs.len() - j,
{
    if j < txs.len() {
        assert(txs.take(j + 1).drop_last() =~= txs.take(j));
        assert(spec_sum_gas_limits(txs.take(j)) <= spec_sum_gas_limits(txs.take(j + 1)));
        lemma_sum_gas_prefix(txs, j + 1);
    } else {
        assert(txs.take(j) =~= txs);
    }
}

} // verus!
