//! The execution loop: drive the selector, execute each candidate under
//! the gas and blob-gas budgets, commit successful diffs into the bundle,
//! and accumulate receipts and fees.
//!
//! Error severities follow the attempt's three-way taxonomy: a stale
//! nonce skips one transaction, any other validation failure invalidates
//! the transaction and its dependents, and an internal engine fault
//! aborts the whole attempt. Cancellation, polled once per candidate,
//! always wins.
//!
//! The loop's contract describes the whole run through a ghost event
//! trace ([`LoopEvent`]): one event per candidate the selector produced,
//! recording whether it was included, skipped for a stale nonce, or
//! marked invalid, and why. [`run_ok`] constrains every event against
//! the budgets, the invalidation marks and the blob-skip rule at its
//! point in the run, and the outputs are exactly the fold of the trace.

use vstd::prelude::*;

use crate::bundle::BundleState;
use crate::cache::{cache_extends, lemma_cache_extends_trans, CachedReadsDbMut};
use crate::evm::ExecutionEngine;
use crate::provider::StateProvider;
use crate::selector::{
    lemma_num_yielded_bound, lemma_num_yielded_update, num_yielded, BestTransactions,
};
use crate::types::{
    BuildError, EvmError, InvalidTransaction, Log, Receipt, Transaction, TransactionModel,
    MAX_DATA_GAS_PER_BLOCK,
};

verus! {

/// A cooperative cancellation token: fires after a programmed number of
/// polls, or never. All timing arrives through this value, keeping every
/// attempt deterministic.
pub struct CancelToken {
    /// How many more polls return "keep going"; `None` never cancels.
    pub remaining: Option<u64>,
}

impl CancelToken {
    /// A token that never cancels.
    pub fn never() -> (r: Self)
        ensures
            r.remaining is None,
    {
        CancelToken { remaining: None }
    }

    /// A token that cancels on the `n`-th poll from now, counting from
    /// zero.
    pub fn after(n: u64) -> (r: Self)
        ensures
            r.remaining == Some(n),
    {
        CancelToken { remaining: Some(n) }
    }

    /// Poll the token: reports cancellation once the countdown is spent,
    /// and counts this poll.
    pub fn is_cancelled(&mut self) -> (r: bool)
        ensures
            r == (old(self).remaining == Some(0u64)),
            final(self).remaining == match old(self).remaining {
                Some(n) => if n > 0 {
                    Some((n - 1) as u64)
                } else {
                    Some(0u64)
                },
                None => None::<u64>,
            },
    {
        match self.remaining {
            Some(n) => {
                if n > 0 {
                    self.remaining = Some(n - 1);
                    false
                } else {
                    true
                }
            }
            None => false,
        }
    }
}

/// Blob gas carried by a transaction list: the sum over its blob
/// transactions.
pub open spec fn spec_blob_gas(txs: Seq<Transaction>) -> int
    decreases txs.len(),
{
    if txs.len() == 0 {
        0
    } else {
        spec_blob_gas(txs.drop_last()) + if txs.last().spec_is_blob() {
            txs.last().blob_gas as int
        } else {
            0int
        }
    }
}

/// Gas the `i`-th receipt's transaction spent: the step its cumulative
/// total makes over its predecessor.
pub open spec fn spec_gas_of(receipts: Seq<Receipt>, i: int) -> int {
    receipts[i].cumulative_gas_used - if i == 0 {
        0int
    } else {
        receipts[i - 1].cumulative_gas_used as int
    }
}

/// Total miner fees of an executed list: each transaction contributes its
/// effective tip per gas times the gas it spent.
pub open spec fn spec_total_fees(txs: Seq<Transaction>, receipts: Seq<Receipt>, base_fee: u64) -> int
    decreases txs.len(),
{
    if txs.len() == 0 {
        0
    } else {
        spec_total_fees(txs.drop_last(), receipts.drop_last(), base_fee) + (
        txs.last().spec_effective_tip(base_fee).unwrap() as int) * spec_gas_of(
            receipts,
            txs.len() - 1,
        )
    }
}

/// Whether a transaction shape carries blob data.
pub open spec fn model_is_blob(t: TransactionModel) -> bool {
    t.tx_type is Eip4844
}

/// Effective tip of a transaction shape over `base_fee`; `None` when it
/// cannot pay the base fee.
pub open spec fn model_tip(t: TransactionModel, base_fee: u64) -> Option<u64> {
    if t.max_fee_per_gas < base_fee {
        None
    } else if t.max_priority_fee_per_gas <= t.max_fee_per_gas - base_fee {
        Some(t.max_priority_fee_per_gas)
    } else {
        Some((t.max_fee_per_gas - base_fee) as u64)
    }
}

/// One observed step of the loop: what happened to one candidate the
/// selector produced, in production order.
pub enum LoopEvent {
    /// Executed successfully and included with these results.
    Included { tx: TransactionModel, gas_used: u64, success: bool, logs: Seq<Log> },
    /// The engine reported a stale nonce: skipped, and no invalidation
    /// mark is recorded — the sender's later transactions stay in play.
    SkippedStaleNonce { tx: TransactionModel },
    /// The candidate cannot fit the remaining gas budget: marked invalid.
    MarkedOverGasBudget { tx: TransactionModel },
    /// The candidate's blob gas would pass the ceiling: marked invalid.
    MarkedOverBlobBudget { tx: TransactionModel },
    /// The engine rejected the candidate for any other validation
    /// reason: marked invalid.
    MarkedRejected { tx: TransactionModel },
}

/// The candidate an event is about.
pub open spec fn event_tx(e: LoopEvent) -> TransactionModel {
    match e {
        LoopEvent::Included { tx, .. } => tx,
        LoopEvent::SkippedStaleNonce { tx } => tx,
        LoopEvent::MarkedOverGasBudget { tx } => tx,
        LoopEvent::MarkedOverBlobBudget { tx } => tx,
        LoopEvent::MarkedRejected { tx } => tx,
    }
}

/// Gas an event's inclusion spent; zero for non-inclusions.
pub open spec fn event_gas(e: LoopEvent) -> u64 {
    match e {
        LoopEvent::Included { gas_used, .. } => gas_used,
        _ => 0u64,
    }
}

/// Status of an event's inclusion.
pub open spec fn event_success(e: LoopEvent) -> bool {
    match e {
        LoopEvent::Included { success, .. } => success,
        _ => false,
    }
}

/// Logs of an event's inclusion.
pub open spec fn event_logs(e: LoopEvent) -> Seq<Log> {
    match e {
        LoopEvent::Included { logs, .. } => logs,
        _ => Seq::empty(),
    }
}

/// The invalidation marks a trace records: one `(sender, nonce)` pair per
/// marking event, in order; inclusions and stale-nonce skips record none.
#[verifier::opaque]
pub open spec fn events_marks(es: Seq<LoopEvent>) -> Seq<(u64, u64)>
    decreases es.len(),
{
    if es.len() == 0 {
        Seq::empty()
    } else {
        events_marks(es.drop_last()) + match es.last() {
            LoopEvent::MarkedOverGasBudget { tx } => seq![(tx.sender, tx.nonce)],
            LoopEvent::MarkedOverBlobBudget { tx } => seq![(tx.sender, tx.nonce)],
            LoopEvent::MarkedRejected { tx } => seq![(tx.sender, tx.nonce)],
            _ => Seq::<(u64, u64)>::empty(),
        }
    }
}

/// The inclusion events of a trace, in order.
#[verifier::opaque]
pub open spec fn included_of(es: Seq<LoopEvent>) -> Seq<LoopEvent>
    decreases es.len(),
{
    if es.len() == 0 {
        Seq::empty()
    } else if es.last() is Included {
        included_of(es.drop_last()).push(es.last())
    } else {
        included_of(es.drop_last())
    }
}

/// Gas included by a trace.
#[verifier::opaque]
pub open spec fn included_gas(es: Seq<LoopEvent>) -> int
    decreases es.len(),
{
    if es.len() == 0 {
        0
    } else {
        included_gas(es.drop_last()) + event_gas(es.last()) as int
    }
}

/// Blob gas included by a trace.
#[verifier::opaque]
pub open spec fn included_blob(es: Seq<LoopEvent>) -> int
    decreases es.len(),
{
    if es.len() == 0 {
        0
    } else {
        included_blob(es.drop_last()) + if es.last() is Included && model_is_blob(
            event_tx(es.last()),
        ) {
            event_tx(es.last()).blob_gas as int
        } else {
            0int
        }
    }
}

/// Fees collected by a trace: effective tip times gas for each inclusion.
#[verifier::opaque]
pub open spec fn included_fees(es: Seq<LoopEvent>, base_fee: u64) -> int
    decreases es.len(),
{
    if es.len() == 0 {
        0
    } else {
        included_fees(es.drop_last(), base_fee) + if es.last() is Included {
            (model_tip(event_tx(es.last()), base_fee).unwrap() as int) * (event_gas(
                es.last(),
            ) as int)
        } else {
            0int
        }
    }
}

/// Whether `t` is banned by the given marks: some mark names its sender
/// with a nonce at or below `t`'s.
pub open spec fn banned_by(marks: Seq<(u64, u64)>, t: TransactionModel) -> bool {
    exists|i: int|
        0 <= i < marks.len() && (#[trigger] marks[i]).0 == t.sender && t.nonce >= marks[i].1
}

/// Whether some inclusion of the trace brought the blob total exactly to
/// the ceiling.
#[verifier::opaque]
pub open spec fn hits_blob_ceiling(es: Seq<LoopEvent>) -> bool
    decreases es.len(),
{
    if es.len() == 0 {
        false
    } else {
        hits_blob_ceiling(es.drop_last()) || (es.last() is Included && included_blob(es)
            == MAX_DATA_GAS_PER_BLOCK as int)
    }
}

/// A lawful run of the loop over the snapshot `txs`: every event's
/// candidate comes from the snapshot, can pay the prices, is not banned
/// by the marks recorded so far, respects the blob-skip rule, and its
/// disposition matches the budgets at its point in the run. What the
/// engine decided — a stale nonce, a rejection, or a success with some
/// gas, status and logs — is recorded but not constrained: those answers
/// are the engine capability's to give.
#[verifier::opaque]
pub open spec fn run_ok(
    txs: Seq<Transaction>,
    marks0: Seq<(u64, u64)>,
    base_fee: u64,
    block_gas_limit: u64,
    blob_fee: Option<u64>,
    skip0: bool,
    es: Seq<LoopEvent>,
) -> bool
    decreases es.len(),
{
    if es.len() == 0 {
        true
    } else {
        let prefix = es.drop_last();
        let e = es.last();
        let t = event_tx(e);
        let cum = included_gas(prefix);
        let blob = included_blob(prefix);
        let marks = marks0 + events_marks(prefix);
        &&& run_ok(txs, marks0, base_fee, block_gas_limit, blob_fee, skip0, prefix)
        &&& exists|j: int| 0 <= j < txs.len() && t == (#[trigger] txs[j]).model()
        &&& !banned_by(marks, t)
        &&& model_tip(t, base_fee) is Some
        &&& (model_is_blob(t) ==> match blob_fee {
            Some(bf) => t.max_fee_per_blob_gas >= bf,
            None => true,
        })
        &&& ((skip0 || hits_blob_ceiling(prefix)) ==> !model_is_blob(t))
        &&& match e {
            LoopEvent::Included { tx, gas_used, .. } => {
                &&& gas_used <= tx.gas_limit
                &&& cum + tx.gas_limit <= block_gas_limit
                &&& (model_is_blob(tx) ==> blob + tx.blob_gas <= MAX_DATA_GAS_PER_BLOCK)
            },
            LoopEvent::MarkedOverGasBudget { tx } => cum + tx.gas_limit > block_gas_limit,
            LoopEvent::MarkedOverBlobBudget { tx } => model_is_blob(tx) && blob + tx.blob_gas
                > MAX_DATA_GAS_PER_BLOCK,
            LoopEvent::SkippedStaleNonce { .. } => true,
            LoopEvent::MarkedRejected { .. } => true,
        }
    }
}

/// What a completed loop hands to the assembler.
pub struct ExecLoopOutput {
    /// Gas spent by all included transactions together.
    pub cumulative_gas_used: u64,
    /// Blob gas spent by all included blob transactions together.
    pub blob_gas_used: u64,
    /// The included transactions, in inclusion order.
    pub executed_txs: Vec<Transaction>,
    /// One receipt per included transaction.
    pub receipts: Vec<Receipt>,
    /// Total miner fees collected.
    pub total_fees: u128,
}

/// How the loop ended short of a fatal error.
pub enum LoopOutcome {
    /// The selector was exhausted; the attempt may go on to assembly.
    Completed(ExecLoopOutput),
    /// Cancellation was observed; all work is discarded.
    Cancelled,
}

/// A completed loop's outputs are the fold of a lawful trace: the
/// included list, its receipts' gas steps, statuses and logs, the gas,
/// blob-gas and fee totals, the recorded marks, the raised blob-skip
/// flag, and the number of candidates produced all come from `es`.
#[verifier::opaque]
pub open spec fn trace_describes_output(
    es: Seq<LoopEvent>,
    out: ExecLoopOutput,
    base_fee: u64,
) -> bool {
    &&& included_of(es).len() == out.executed_txs@.len()
    &&& forall|i: int|
        0 <= i < out.executed_txs@.len() ==> {
            &&& event_tx(#[trigger] included_of(es)[i]) == out.executed_txs@[i].model()
            &&& event_gas(included_of(es)[i]) as int == spec_gas_of(out.receipts@, i)
            &&& event_success(included_of(es)[i]) == out.receipts@[i].success
            &&& event_logs(included_of(es)[i]) == out.receipts@[i].logs@
        }
    &&& out.cumulative_gas_used as int == included_gas(es)
    &&& out.blob_gas_used as int == included_blob(es)
    &&& out.total_fees as int == included_fees(es, base_fee)
}

/// Well-formed loop outputs: receipts and transactions in step, the gas
/// totals within their budgets, cumulative gas equal to the last
/// receipt's total, receipt totals monotone and bounded, receipt kinds
/// matching their transactions, and the fee total bounded by the gas
/// spent.
#[verifier::opaque]
pub open spec fn exec_outputs_wf(out: ExecLoopOutput, block_gas_limit: u64) -> bool {
    &&& out.executed_txs@.len() == out.receipts@.len()
    &&& out.cumulative_gas_used <= block_gas_limit
    &&& out.blob_gas_used <= MAX_DATA_GAS_PER_BLOCK
    &&& out.cumulative_gas_used as int == if out.receipts@.len() == 0 {
        0int
    } else {
        out.receipts@.last().cumulative_gas_used as int
    }
    &&& out.total_fees as int <= (u64::MAX as int) * (out.cumulative_gas_used as int)
    &&& forall|i: int|
        0 <= i < out.receipts@.len() ==> (#[trigger] out.receipts@[i]).cumulative_gas_used
            <= block_gas_limit
    &&& forall|i: int|
        1 <= i < out.receipts@.len() ==> (#[trigger] out.receipts@[i]).cumulative_gas_used
            >= out.receipts@[i - 1].cumulative_gas_used
    &&& forall|i: int|
        0 <= i < out.receipts@.len() ==> (#[trigger] out.receipts@[i]).tx_type
            == out.executed_txs@[i].tx_type
}

/// Open [`exec_outputs_wf`] for a consumer of the loop's contract.
pub proof fn lemma_exec_outputs_wf_unfold(out: ExecLoopOutput, block_gas_limit: u64)
    requires
        exec_outputs_wf(out, block_gas_limit),
    ensures
        out.executed_txs@.len() == out.receipts@.len(),
        out.cumulative_gas_used <= block_gas_limit,
        out.blob_gas_used <= MAX_DATA_GAS_PER_BLOCK,
        out.cumulative_gas_used as int == if out.receipts@.len() == 0 {
            0int
        } else {
            out.receipts@.last().cumulative_gas_used as int
        },
        out.total_fees as int <= (u64::MAX as int) * (out.cumulative_gas_used as int),
        forall|i: int|
            0 <= i < out.receipts@.len() ==> (#[trigger] out.receipts@[i]).cumulative_gas_used
                <= block_gas_limit,
        forall|i: int|
            1 <= i < out.receipts@.len() ==> (#[trigger] out.receipts@[i]).cumulative_gas_used
                >= out.receipts@[i - 1].cumulative_gas_used,
        forall|i: int|
            0 <= i < out.receipts@.len() ==> (#[trigger] out.receipts@[i]).tx_type
                == out.executed_txs@[i].tx_type,
{
    reveal(exec_outputs_wf);
}

/// Establish [`exec_outputs_wf`] from its parts.
proof fn lemma_exec_outputs_wf_intro(out: ExecLoopOutput, block_gas_limit: u64)
    requires
        out.executed_txs@.len() == out.receipts@.len(),
        out.cumulative_gas_used <= block_gas_limit,
        out.blob_gas_used <= MAX_DATA_GAS_PER_BLOCK,
        out.cumulative_gas_used as int == if out.receipts@.len() == 0 {
            0int
        } else {
            out.receipts@.last().cumulative_gas_used as int
        },
        out.total_fees as int <= (u64::MAX as int) * (out.cumulative_gas_used as int),
        forall|i: int|
            0 <= i < out.receipts@.len() ==> (#[trigger] out.receipts@[i]).cumulative_gas_used
                <= block_gas_limit,
        forall|i: int|
            1 <= i < out.receipts@.len() ==> (#[trigger] out.receipts@[i]).cumulative_gas_used
                >= out.receipts@[i - 1].cumulative_gas_used,
        forall|i: int|
            0 <= i < out.receipts@.len() ==> (#[trigger] out.receipts@[i]).tx_type
                == out.executed_txs@[i].tx_type,
    ensures
        exec_outputs_wf(out, block_gas_limit),
{
    reveal(exec_outputs_wf);
}

/// Every position of the snapshot that this run freshly produced is
/// described by some event of the trace.
#[verifier::opaque]
pub open spec fn yields_have_events(
    txs: Seq<Transaction>,
    yielded0: Seq<bool>,
    yielded: Seq<bool>,
    es: Seq<LoopEvent>,
) -> bool {
    forall|i: int|
        0 <= i < txs.len() && yielded[i] && !yielded0[i] ==> exists|k: int|
            0 <= k < es.len() && event_tx(#[trigger] es[k]) == txs[i].model()
}

/// Open [`trace_describes_output`] for a consumer of the loop's contract.
pub proof fn lemma_trace_describes_unfold(es: Seq<LoopEvent>, out: ExecLoopOutput, base_fee: u64)
    requires
        trace_describes_output(es, out, base_fee),
    ensures
        included_of(es).len() == out.executed_txs@.len(),
        forall|i: int|
            0 <= i < out.executed_txs@.len() ==> {
                &&& event_tx(#[trigger] included_of(es)[i]) == out.executed_txs@[i].model()
                &&& event_gas(included_of(es)[i]) as int == spec_gas_of(out.receipts@, i)
                &&& event_success(included_of(es)[i]) == out.receipts@[i].success
                &&& event_logs(included_of(es)[i]) == out.receipts@[i].logs@
            },
        out.cumulative_gas_used as int == included_gas(es),
        out.blob_gas_used as int == included_blob(es),
        out.total_fees as int == included_fees(es, base_fee),
{
    reveal(trace_describes_output);
}

/// Open [`yields_have_events`] for a consumer of the loop's contract.
pub proof fn lemma_yields_have_events_unfold(
    txs: Seq<Transaction>,
    yielded0: Seq<bool>,
    yielded: Seq<bool>,
    es: Seq<LoopEvent>,
)
    requires
        yields_have_events(txs, yielded0, yielded, es),
    ensures
        forall|i: int|
            0 <= i < txs.len() && yielded[i] && !yielded0[i] ==> exists|k: int|
                0 <= k < es.len() && event_tx(#[trigger] es[k]) == txs[i].model(),
{
    reveal(yields_have_events);
}

/// One step of output bookkeeping: an inclusion pushes the transaction,
/// its receipt, and its contributions; any other event leaves the
/// outputs alone.
proof fn lemma_output_step(
    es: Seq<LoopEvent>,
    e: LoopEvent,
    out0: ExecLoopOutput,
    out1: ExecLoopOutput,
    base_fee: u64,
)
    requires
        trace_describes_output(es, out0, base_fee),
        out0.receipts@.len() == out0.executed_txs@.len(),
        out0.cumulative_gas_used as int == if out0.receipts@.len() == 0 {
            0int
        } else {
            out0.receipts@.last().cumulative_gas_used as int
        },
        e is Included ==> {
            &&& out1.executed_txs@.len() == out0.executed_txs@.len() + 1
            &&& out1.executed_txs@.drop_last() == out0.executed_txs@
            &&& out1.executed_txs@.last().model() == event_tx(e)
            &&& out1.receipts@.len() == out0.receipts@.len() + 1
            &&& out1.receipts@.drop_last() == out0.receipts@
            &&& out1.receipts@.last().success == event_success(e)
            &&& out1.receipts@.last().logs@ == event_logs(e)
            &&& out1.receipts@.last().cumulative_gas_used as int == out0.cumulative_gas_used
                + event_gas(e)
            &&& out1.cumulative_gas_used as int == out0.cumulative_gas_used + event_gas(e)
            &&& out1.blob_gas_used as int == out0.blob_gas_used + if model_is_blob(event_tx(e)) {
                event_tx(e).blob_gas as int
            } else {
                0int
            }
            &&& out1.total_fees as int == out0.total_fees + (model_tip(
                event_tx(e),
                base_fee,
            ).unwrap() as int) * (event_gas(e) as int)
        },
        !(e is Included) ==> out1 == out0,
    ensures
        trace_describes_output(es.push(e), out1, base_fee),
    decreases 0int,
{
    reveal(trace_describes_output);
    reveal(included_of);
    reveal(included_gas);
    reveal(included_blob);
    reveal(included_fees);
    assert(es.push(e).drop_last() =~= es);
    assert(es.push(e).last() == e);
    if e is Included {
        assert(included_of(es.push(e)) =~= included_of(es).push(e));
        assert forall|i: int| 0 <= i < out1.executed_txs@.len() implies {
            &&& event_tx(#[trigger] included_of(es.push(e))[i]) == out1.executed_txs@[i].model()
            &&& event_gas(included_of(es.push(e))[i]) as int == spec_gas_of(out1.receipts@, i)
            &&& event_success(included_of(es.push(e))[i]) == out1.receipts@[i].success
            &&& event_logs(included_of(es.push(e))[i]) == out1.receipts@[i].logs@
        } by {
            if i < out1.executed_txs@.len() - 1 {
                assert(included_of(es.push(e))[i] == included_of(es)[i]);
                assert(out1.executed_txs@[i] == out0.executed_txs@[i]);
                assert(out1.receipts@[i] == out0.receipts@[i]);
                if i > 0 {
                    assert(out1.receipts@[i - 1] == out0.receipts@[i - 1]);
                }
            }
        }
    } else {
        assert(included_of(es.push(e)) =~= included_of(es));
        assert forall|i: int| 0 <= i < out1.executed_txs@.len() implies {
            &&& event_tx(#[trigger] included_of(es.push(e))[i]) == out1.executed_txs@[i].model()
            &&& event_gas(included_of(es.push(e))[i]) as int == spec_gas_of(out1.receipts@, i)
            &&& event_success(included_of(es.push(e))[i]) == out1.receipts@[i].success
            &&& event_logs(included_of(es.push(e))[i]) == out1.receipts@[i].logs@
        } by {
            assert(included_of(es.push(e))[i] == included_of(es)[i]);
        }
    }
}

/// One step of yield bookkeeping: producing position `i0` and recording
/// an event about its transaction keeps every produced position covered.
proof fn lemma_yields_step(
    txs: Seq<Transaction>,
    yielded0: Seq<bool>,
    y_pre: Seq<bool>,
    y_post: Seq<bool>,
    es: Seq<LoopEvent>,
    e: LoopEvent,
    i0: int,
)
    requires
        yields_have_events(txs, yielded0, y_pre, es),
        0 <= i0 < txs.len(),
        y_pre.len() == txs.len(),
        y_post == y_pre.update(i0, true),
        event_tx(e) == txs[i0].model(),
    ensures
        yields_have_events(txs, yielded0, y_post, es.push(e)),
{
    reveal(yields_have_events);
    assert forall|i: int| 0 <= i < txs.len() && y_post[i] && !yielded0[i] implies exists|k: int|
        0 <= k < es.push(e).len() && event_tx(#[trigger] es.push(e)[k]) == txs[i].model() by {
        if i == i0 {
            assert(event_tx(es.push(e)[es.len() as int]) == txs[i].model());
        } else {
            assert(y_pre[i]);
            let k = choose|k: int|
                0 <= k < es.len() && event_tx(#[trigger] es[k]) == txs[i].model();
            assert(event_tx(es.push(e)[k]) == txs[i].model());
        }
    }
}

/// Everything a completed loop promises, over the selector and token
/// states before and after: well-formed outputs within the budgets, the
/// fee and blob totals as sums over the included list, every included
/// transaction priced and drawn from the snapshot, the selection
/// exhausted, and a lawful trace whose fold is the output, whose marks
/// and blob-skip flag are the selector's, and whose length counts the
/// produced candidates against the cancellation countdown.
#[verifier::opaque]
pub open spec fn loop_completed_ok(
    sel0: BestTransactions,
    sel1: BestTransactions,
    cancel0: CancelToken,
    cancel1: CancelToken,
    out: ExecLoopOutput,
    base_fee: u64,
    block_gas_limit: u64,
) -> bool {
    &&& exec_outputs_wf(out, block_gas_limit)
    &&& forall|i: int| !sel1.eligible(i)
    &&& exists|es: Seq<LoopEvent>|
        {
            &&& #[trigger] run_ok(
                sel0.txs@,
                sel0.banned@,
                base_fee,
                block_gas_limit,
                sel0.blob_fee,
                sel0.skip_blobs,
                es,
            )
            &&& trace_describes_output(es, out, base_fee)
            &&& sel1.banned@ == sel0.banned@ + events_marks(es)
            &&& sel1.skip_blobs == (sel0.skip_blobs || hits_blob_ceiling(es))
            &&& num_yielded(sel1.yielded@) == num_yielded(sel0.yielded@) + es.len()
            &&& (cancel0.remaining matches Some(n) ==> es.len() <= n && cancel1.remaining
                == Some((n - es.len()) as u64))
            &&& yields_have_events(sel0.txs@, sel0.yielded@, sel1.yielded@, es)
        }
}

/// Open [`loop_completed_ok`] for a consumer of the loop's contract.
pub proof fn lemma_loop_completed_unfold(
    sel0: BestTransactions,
    sel1: BestTransactions,
    cancel0: CancelToken,
    cancel1: CancelToken,
    out: ExecLoopOutput,
    base_fee: u64,
    block_gas_limit: u64,
)
    requires
        loop_completed_ok(sel0, sel1, cancel0, cancel1, out, base_fee, block_gas_limit),
    ensures
        exec_outputs_wf(out, block_gas_limit),
        forall|i: int| !sel1.eligible(i),
        exists|es: Seq<LoopEvent>|
            {
                &&& #[trigger] run_ok(
                    sel0.txs@,
                    sel0.banned@,
                    base_fee,
                    block_gas_limit,
                    sel0.blob_fee,
                    sel0.skip_blobs,
                    es,
                )
                &&& trace_describes_output(es, out, base_fee)
                &&& sel1.banned@ == sel0.banned@ + events_marks(es)
                &&& sel1.skip_blobs == (sel0.skip_blobs || hits_blob_ceiling(es))
                &&& num_yielded(sel1.yielded@) == num_yielded(sel0.yielded@) + es.len()
                &&& (cancel0.remaining matches Some(n) ==> es.len() <= n && cancel1.remaining
                    == Some((n - es.len()) as u64))
                &&& yields_have_events(sel0.txs@, sel0.yielded@, sel1.yielded@, es)
            },
{
    reveal(loop_completed_ok);
}

/// Pick the trace behind a completed run and open every fact a consumer
/// needs: the lawful trace, its fold equalities over the outputs, the
/// marks, skip flag, candidate count and cancellation accounting, and the
/// per-transaction pricing and provenance.
#[verifier::rlimit(100)]
pub proof fn lemma_attempt_facts(
    sel0: BestTransactions,
    sel1: BestTransactions,
    cancel0: CancelToken,
    cancel1: CancelToken,
    out: ExecLoopOutput,
    base_fee: u64,
    block_gas_limit: u64,
) -> (es: Seq<LoopEvent>)
    requires
        loop_completed_ok(sel0, sel1, cancel0, cancel1, out, base_fee, block_gas_limit),
    ensures
        run_ok(sel0.txs@, sel0.banned@, base_fee, block_gas_limit, sel0.blob_fee, sel0.skip_blobs, es),
        trace_describes_output(es, out, base_fee),
        sel1.banned@ == sel0.banned@ + events_marks(es),
        sel1.skip_blobs == (sel0.skip_blobs || hits_blob_ceiling(es)),
        num_yielded(sel1.yielded@) == num_yielded(sel0.yielded@) + es.len(),
        cancel0.remaining matches Some(n) ==> es.len() <= n && cancel1.remaining == Some(
            (n - es.len()) as u64,
        ),
        yields_have_events(sel0.txs@, sel0.yielded@, sel1.yielded@, es),
        forall|i: int| !sel1.eligible(i),
        out.blob_gas_used as int == spec_blob_gas(out.executed_txs@),
        out.total_fees as int == spec_total_fees(out.executed_txs@, out.receipts@, base_fee),
        out.executed_txs@.len() == out.receipts@.len(),
        out.cumulative_gas_used <= block_gas_limit,
        out.blob_gas_used <= MAX_DATA_GAS_PER_BLOCK,
        forall|i: int|
            0 <= i < out.executed_txs@.len() ==> (#[trigger] out.executed_txs@[i]).spec_effective_tip(
                base_fee,
            ) is Some,
        forall|i: int|
            0 <= i < out.executed_txs@.len() ==> exists|j: int|
                0 <= j < sel0.txs@.len() && (#[trigger] out.executed_txs@[i]).model()
                    == sel0.txs@[j].model(),
{
    lemma_loop_completed_unfold(sel0, sel1, cancel0, cancel1, out, base_fee, block_gas_limit);
    let es = choose|es: Seq<LoopEvent>|
        {
            &&& #[trigger] run_ok(
                sel0.txs@,
                sel0.banned@,
                base_fee,
                block_gas_limit,
                sel0.blob_fee,
                sel0.skip_blobs,
                es,
            )
            &&& trace_describes_output(es, out, base_fee)
            &&& sel1.banned@ == sel0.banned@ + events_marks(es)
            &&& sel1.skip_blobs == (sel0.skip_blobs || hits_blob_ceiling(es))
            &&& num_yielded(sel1.yielded@) == num_yielded(sel0.yielded@) + es.len()
            &&& (cancel0.remaining matches Some(n) ==> es.len() <= n && cancel1.remaining
                == Some((n - es.len()) as u64))
            &&& yields_have_events(sel0.txs@, sel0.yielded@, sel1.yielded@, es)
        };
    lemma_trace_describes_unfold(es, out, base_fee);
    lemma_exec_outputs_wf_unfold(out, block_gas_limit);
    lemma_fold_equiv(es, out.executed_txs@, out.receipts@, base_fee);
    lemma_out_txs_facts(
        sel0.txs@,
        sel0.banned@,
        base_fee,
        block_gas_limit,
        sel0.blob_fee,
        sel0.skip_blobs,
        es,
        out,
    );
    es
}

/// Establish [`loop_completed_ok`] from the loop's closing state.
proof fn lemma_loop_completed_intro(
    sel0: BestTransactions,
    sel1: BestTransactions,
    cancel0: CancelToken,
    cancel1: CancelToken,
    out: ExecLoopOutput,
    base_fee: u64,
    block_gas_limit: u64,
    es: Seq<LoopEvent>,
)
    requires
        run_ok(sel0.txs@, sel0.banned@, base_fee, block_gas_limit, sel0.blob_fee, sel0.skip_blobs, es),
        trace_describes_output(es, out, base_fee),
        exec_outputs_wf(out, block_gas_limit),
        sel1.banned@ == sel0.banned@ + events_marks(es),
        sel1.skip_blobs == (sel0.skip_blobs || hits_blob_ceiling(es)),
        num_yielded(sel1.yielded@) == num_yielded(sel0.yielded@) + es.len(),
        cancel0.remaining matches Some(n) ==> es.len() <= n && cancel1.remaining == Some(
            (n - es.len()) as u64,
        ),
        yields_have_events(sel0.txs@, sel0.yielded@, sel1.yielded@, es),
        forall|i: int| !sel1.eligible(i),
    ensures
        loop_completed_ok(sel0, sel1, cancel0, cancel1, out, base_fee, block_gas_limit),
{
    reveal(loop_completed_ok);
}

/// Every included transaction is priced and drawn from the snapshot.
pub proof fn lemma_out_txs_facts(
    txs: Seq<Transaction>,
    marks0: Seq<(u64, u64)>,
    base_fee: u64,
    block_gas_limit: u64,
    blob_fee: Option<u64>,
    skip0: bool,
    es: Seq<LoopEvent>,
    out: ExecLoopOutput,
)
    requires
        run_ok(txs, marks0, base_fee, block_gas_limit, blob_fee, skip0, es),
        trace_describes_output(es, out, base_fee),
    ensures
        forall|i: int|
            0 <= i < out.executed_txs@.len() ==> (#[trigger] out.executed_txs@[i]).spec_effective_tip(
                base_fee,
            ) is Some,
        forall|i: int|
            0 <= i < out.executed_txs@.len() ==> exists|j: int|
                0 <= j < txs.len() && (#[trigger] out.executed_txs@[i]).model()
                    == txs[j].model(),
{
    lemma_trace_describes_unfold(es, out, base_fee);
    lemma_trace_membership(txs, marks0, base_fee, block_gas_limit, blob_fee, skip0, es);
    lemma_included_membership(es);
    assert forall|i: int| 0 <= i < out.executed_txs@.len() implies {
        &&& exists|j: int|
            0 <= j < txs.len() && (#[trigger] out.executed_txs@[i]).model() == txs[j].model()
        &&& out.executed_txs@[i].spec_effective_tip(base_fee) is Some
    } by {
        let k = choose|k: int| 0 <= k < es.len() && #[trigger] included_of(es)[i] == es[k];
        assert(event_tx(es[k]) == out.executed_txs@[i].model());
        assert(model_tip(out.executed_txs@[i].model(), base_fee) == out.executed_txs@[
            i].spec_effective_tip(base_fee));
    }
}

/// Run the loop over one fresh selection.
///
/// On completion there is a lawful trace ([`run_ok`]) whose fold is the
/// output ([`trace_describes_output`]); the selection is exhausted; the
/// marks and the blob-skip flag are exactly the trace's; the budgets
/// hold; and the cancellation countdown bounds how many candidates were
/// produced. A cancelled loop produced exactly one candidate more than
/// the countdown allowed.
#[verifier::rlimit(100)]
#[verifier::spinoff_prover]
pub fn execute_transactions<P: StateProvider, E: ExecutionEngine<P>>(
    engine: &mut E,
    best_txs: &mut BestTransactions,
    db: &mut CachedReadsDbMut<P>,
    bundle: &mut BundleState,
    cancel: &mut CancelToken,
    block_gas_limit: u64,
    base_fee: u64,
) -> (r: Result<LoopOutcome, BuildError>)
    requires
        old(best_txs).wf(),
        old(best_txs).base_fee == base_fee,
        old(db).cached.wf(),
        old(bundle).wf(),
    ensures
        final(best_txs).wf(),
        final(db).cached.wf(),
        final(bundle).wf(),
        final(db).db.state() == old(db).db.state(),
        cache_extends(final(db).cached.model(), old(db).cached.model()),
        final(best_txs).txs == old(best_txs).txs,
        forall|t: Transaction|
            old(best_txs).spec_banned(t) ==> final(best_txs).spec_banned(t),
        (r matches Ok(out) ==> (out matches LoopOutcome::Completed(out)
            ==> loop_completed_ok(
            *old(best_txs),
            *final(best_txs),
            *old(cancel),
            *final(cancel),
            out,
            base_fee,
            block_gas_limit,
        ))),
        (r matches Ok(out) ==> (out is Cancelled ==> {
            &&& old(cancel).remaining matches Some(n) && num_yielded(final(best_txs).yielded@)
                - num_yielded(old(best_txs).yielded@) == n + 1
            &&& final(cancel).remaining == Some(0u64)
        })),
        old(cancel).remaining is None ==> !(r == Ok::<LoopOutcome, BuildError>(
            LoopOutcome::Cancelled,
        )),
        (r matches Err(e) ==> e is EvmExecution),
{
    let mut cumulative_gas_used: u64 = 0;
    let mut blob_gas_used: u64 = 0;
    let mut executed_txs: Vec<Transaction> = Vec::new();
    let mut receipts: Vec<Receipt> = Vec::new();
    let mut total_fees: u128 = 0;
    let ghost mut es: Seq<LoopEvent> = Seq::empty();
    proof {
        reveal(run_ok);
        reveal(events_marks);
        reveal(included_of);
        reveal(included_gas);
        reveal(included_blob);
        reveal(included_fees);
        reveal(hits_blob_ceiling);
        reveal(trace_describes_output);
        reveal(yields_have_events);
        reveal(exec_outputs_wf);
        assert(old(best_txs).banned@ =~= old(best_txs).banned@ + events_marks(es));
    }
    loop
        invariant
            best_txs.wf(),
            best_txs.base_fee == base_fee,
            old(best_txs).base_fee == base_fee,
            best_txs.blob_fee == old(best_txs).blob_fee,
            db.cached.wf(),
            bundle.wf(),
            db.db.state() == old(db).db.state(),
            cache_extends(db.cached.model(), old(db).cached.model()),
            exec_outputs_wf(
                (ExecLoopOutput {
                    cumulative_gas_used,
                    blob_gas_used,
                    executed_txs,
                    receipts,
                    total_fees,
                }),
                block_gas_limit,
            ),
            best_txs.txs == old(best_txs).txs,
            old(cancel).remaining is None ==> cancel.remaining is None,
            // Trace bookkeeping.
            run_ok(
                old(best_txs).txs@,
                old(best_txs).banned@,
                base_fee,
                block_gas_limit,
                old(best_txs).blob_fee,
                old(best_txs).skip_blobs,
                es,
            ),
            best_txs.banned@ == old(best_txs).banned@ + events_marks(es),
            best_txs.skip_blobs == (old(best_txs).skip_blobs || hits_blob_ceiling(es)),
            blob_gas_used == MAX_DATA_GAS_PER_BLOCK ==> best_txs.skip_blobs,
            trace_describes_output(
                es,
                (ExecLoopOutput {
                    cumulative_gas_used,
                    blob_gas_used,
                    executed_txs,
                    receipts,
                    total_fees,
                }),
                base_fee,
            ),
            num_yielded(best_txs.yielded@) == num_yielded(old(best_txs).yielded@) + es.len(),
            old(cancel).remaining matches Some(n) ==> es.len() <= n && cancel.remaining == Some(
                (n - es.len()) as u64,
            ),
            yields_have_events(
                old(best_txs).txs@,
                old(best_txs).yielded@,
                best_txs.yielded@,
                es,
            ),
        ensures
            forall|i: int| !best_txs.eligible(i),
        decreases best_txs.txs@.len() - num_yielded(best_txs.yielded@),
    {
        proof {
            lemma_num_yielded_bound(best_txs.yielded@);
        }
        let ghost pre_sel = *best_txs;
        let ghost pre_es = es;
        let ghost pre_out = ExecLoopOutput {
            cumulative_gas_used,
            blob_gas_used,
            executed_txs,
            receipts,
            total_fees,
        };
        let next_tx = best_txs.next();
        match next_tx {
            None => {
                break ;
            }
            Some(tx) => {
                let ghost txm = tx.model();
                proof {
                    let i = choose|i: int|
                        {
                            &&& #[trigger] pre_sel.eligible(i)
                            &&& tx.model() == pre_sel.txs@[i].model()
                            &&& best_txs.yielded@ == pre_sel.yielded@.update(i, true)
                            &&& forall|j: int| pre_sel.eligible(j) ==> pre_sel.prefers(i, j)
                        };
                    lemma_num_yielded_update(pre_sel.yielded@, i);
                    lemma_num_yielded_bound(best_txs.yielded@);
                    assert(num_yielded(best_txs.yielded@) == num_yielded(pre_sel.yielded@) + 1);
                    // The candidate is eligible now, so it is in the
                    // snapshot, unbanned, priced, and blob-admissible.
                    lemma_candidate_ok(*old(best_txs), pre_sel, pre_es, tx, i);
                    // Remember which position was produced, and open the
                    // output bookkeeping of the trace so far.
                    assert(exists|i0: int|
                        0 <= i0 < old(best_txs).txs@.len() && best_txs.yielded@
                            == pre_sel.yielded@.update(i0, true) && txm == #[trigger] old(
                            best_txs,
                        ).txs@[i0].model());
                }
                // Cancellation always wins: polled before any budget work.
                if cancel.is_cancelled() {
                    proof {
                        lemma_marks_monotone(old(best_txs).banned@, events_marks(es), *best_txs);
                    }
                    return Ok(LoopOutcome::Cancelled);
                }
                let ghost pre_cache = db.cached.model();
                let step = dispatch_candidate(
                    engine,
                    best_txs,
                    db,
                    bundle,
                    tx,
                    &mut cumulative_gas_used,
                    &mut blob_gas_used,
                    &mut executed_txs,
                    &mut receipts,
                    &mut total_fees,
                    block_gas_limit,
                    base_fee,
                    Ghost(es),
                    Ghost(*old(best_txs)),
                );
                proof {
                    lemma_cache_extends_trans(
                        db.cached.model(),
                        pre_cache,
                        old(db).cached.model(),
                    );
                }
                match step {
                    Err(code) => {
                        proof {
                            lemma_marks_monotone(
                                old(best_txs).banned@,
                                events_marks(es),
                                *best_txs,
                            );
                        }
                        return Err(BuildError::EvmExecution(code));
                    }
                    Ok(g) => {
                        proof {
                            es = g@;
                        }
                    }
                }
                proof {
                    // The produced position is covered by the event this
                    // iteration recorded.
                    let i0 = choose|i0: int|
                        0 <= i0 < old(best_txs).txs@.len() && best_txs.yielded@
                            == pre_sel.yielded@.update(i0, true) && txm == #[trigger] old(
                            best_txs,
                        ).txs@[i0].model();
                    assert(event_tx(es.last()) == txm);
                    lemma_yields_step(
                        old(best_txs).txs@,
                        old(best_txs).yielded@,
                        pre_sel.yielded@,
                        best_txs.yielded@,
                        pre_es,
                        es.last(),
                        i0,
                    );
                    assert(es == pre_es.push(es.last()));
                }
            }
        }
    }
    proof {
        // The loop's closing state is exactly the completed-run contract.
        lemma_loop_completed_intro(
            *old(best_txs),
            *best_txs,
            *old(cancel),
            *cancel,
            (ExecLoopOutput {
                cumulative_gas_used,
                blob_gas_used,
                executed_txs,
                receipts,
                total_fees,
            }),
            base_fee,
            block_gas_limit,
            es,
        );
        assert forall|t: Transaction| old(best_txs).spec_banned(t) implies best_txs.spec_banned(
            t,
        ) by {
            let i = choose|i: int|
                0 <= i < old(best_txs).banned@.len() && (#[trigger] old(best_txs).banned@[i]).0
                    == t.sender && t.nonce >= old(best_txs).banned@[i].1;
            assert(best_txs.banned@[i] == old(best_txs).banned@[i]);
        }
    }
    Ok(
        LoopOutcome::Completed(
            ExecLoopOutput { cumulative_gas_used, blob_gas_used, executed_txs, receipts, total_fees },
        ),
    )
}

/// Dispatch one produced candidate: check the budgets, run the engine,
/// and either include it, skip it, mark it invalid, or report a fatal
/// engine code. On anything but a fatal code the trace grows by exactly
/// the event describing what happened.
#[verifier::rlimit(100)]
fn dispatch_candidate<P: StateProvider, E: ExecutionEngine<P>>(
    engine: &mut E,
    best_txs: &mut BestTransactions,
    db: &mut CachedReadsDbMut<P>,
    bundle: &mut BundleState,
    tx: Transaction,
    cumulative_gas_used: &mut u64,
    blob_gas_used: &mut u64,
    executed_txs: &mut Vec<Transaction>,
    receipts: &mut Vec<Receipt>,
    total_fees: &mut u128,
    block_gas_limit: u64,
    base_fee: u64,
    es0: Ghost<Seq<LoopEvent>>,
    sel0: Ghost<BestTransactions>,
) -> (r: Result<Ghost<Seq<LoopEvent>>, u64>)
    requires
        old(best_txs).wf(),
        old(best_txs).txs == sel0@.txs,
        old(best_txs).base_fee == base_fee,
        sel0@.base_fee == base_fee,
        old(best_txs).blob_fee == sel0@.blob_fee,
        old(best_txs).banned@ == sel0@.banned@ + events_marks(es0@),
        old(best_txs).skip_blobs == (sel0@.skip_blobs || hits_blob_ceiling(es0@)),
        run_ok(
            sel0@.txs@,
            sel0@.banned@,
            base_fee,
            block_gas_limit,
            sel0@.blob_fee,
            sel0@.skip_blobs,
            es0@,
        ),
        trace_describes_output(
            es0@,
            (ExecLoopOutput {
                cumulative_gas_used: *old(cumulative_gas_used),
                blob_gas_used: *old(blob_gas_used),
                executed_txs: *old(executed_txs),
                receipts: *old(receipts),
                total_fees: *old(total_fees),
            }),
            base_fee,
        ),
        old(db).cached.wf(),
        old(bundle).wf(),
        exec_outputs_wf(
            (ExecLoopOutput {
                cumulative_gas_used: *old(cumulative_gas_used),
                blob_gas_used: *old(blob_gas_used),
                executed_txs: *old(executed_txs),
                receipts: *old(receipts),
                total_fees: *old(total_fees),
            }),
            block_gas_limit,
        ),
        *old(blob_gas_used) == MAX_DATA_GAS_PER_BLOCK ==> old(best_txs).skip_blobs,
        exists|j: int|
            0 <= j < sel0@.txs@.len() && tx.model() == (#[trigger] sel0@.txs@[j]).model(),
        !banned_by(sel0@.banned@ + events_marks(es0@), tx.model()),
        model_tip(tx.model(), base_fee) is Some,
        model_is_blob(tx.model()) ==> match sel0@.blob_fee {
            Some(bf) => tx.model().max_fee_per_blob_gas >= bf,
            None => true,
        },
        (sel0@.skip_blobs || hits_blob_ceiling(es0@)) ==> !model_is_blob(tx.model()),
    ensures
        final(best_txs).wf(),
        final(best_txs).txs == old(best_txs).txs,
        final(best_txs).base_fee == old(best_txs).base_fee,
        final(best_txs).blob_fee == old(best_txs).blob_fee,
        final(best_txs).yielded == old(best_txs).yielded,
        final(db).cached.wf(),
        final(db).db.state() == old(db).db.state(),
        cache_extends(final(db).cached.model(), old(db).cached.model()),
        final(bundle).wf(),
        (r matches Err(_) ==> {
            &&& *final(best_txs) == *old(best_txs)
            &&& *final(cumulative_gas_used) == *old(cumulative_gas_used)
            &&& *final(blob_gas_used) == *old(blob_gas_used)
            &&& final(executed_txs)@ == old(executed_txs)@
            &&& final(receipts)@ == old(receipts)@
            &&& *final(total_fees) == *old(total_fees)
        }),
        (r matches Ok(es1) ==> {
            &&& es1@.drop_last() == es0@
            &&& es1@.len() == es0@.len() + 1
            &&& event_tx(es1@.last()) == tx.model()
            &&& run_ok(
                sel0@.txs@,
                sel0@.banned@,
                base_fee,
                block_gas_limit,
                sel0@.blob_fee,
                sel0@.skip_blobs,
                es1@,
            )
            &&& final(best_txs).banned@ == sel0@.banned@ + events_marks(es1@)
            &&& final(best_txs).skip_blobs == (sel0@.skip_blobs || hits_blob_ceiling(es1@))
            &&& trace_describes_output(
                es1@,
                (ExecLoopOutput {
                    cumulative_gas_used: *final(cumulative_gas_used),
                    blob_gas_used: *final(blob_gas_used),
                    executed_txs: *final(executed_txs),
                    receipts: *final(receipts),
                    total_fees: *final(total_fees),
                }),
                base_fee,
            )
            &&& exec_outputs_wf(
                (ExecLoopOutput {
                    cumulative_gas_used: *final(cumulative_gas_used),
                    blob_gas_used: *final(blob_gas_used),
                    executed_txs: *final(executed_txs),
                    receipts: *final(receipts),
                    total_fees: *final(total_fees),
                }),
                block_gas_limit,
            )
            &&& (*final(blob_gas_used) == MAX_DATA_GAS_PER_BLOCK ==> final(best_txs).skip_blobs)
        }),
{
    let ghost pre_es = es0@;
    let ghost txm = tx.model();
    let ghost pre_out = ExecLoopOutput {
        cumulative_gas_used: *cumulative_gas_used,
        blob_gas_used: *blob_gas_used,
        executed_txs: *executed_txs,
        receipts: *receipts,
        total_fees: *total_fees,
    };
    proof {
        lemma_trace_describes_unfold(pre_es, pre_out, base_fee);
        lemma_exec_outputs_wf_unfold(pre_out, block_gas_limit);
        assert(model_tip(txm, base_fee) == tx.spec_effective_tip(base_fee));
        assert(model_is_blob(txm) == tx.spec_is_blob());
    }
    if tx.gas_limit > block_gas_limit - *cumulative_gas_used {
        // The transaction cannot fit the remaining gas budget: drop it
        // and its dependents, keep selecting.
        best_txs.mark_invalid(&tx);
        let ghost es1 = pre_es.push(LoopEvent::MarkedOverGasBudget { tx: txm });
        proof {
            lemma_run_step(
                sel0@.txs@,
                sel0@.banned@,
                base_fee,
                block_gas_limit,
                sel0@.blob_fee,
                sel0@.skip_blobs,
                pre_es,
                es1.last(),
            );
            assert(best_txs.banned@ =~= sel0@.banned@ + events_marks(es1));
            lemma_output_step(pre_es, es1.last(), pre_out, pre_out, base_fee);
            assert(es1.drop_last() =~= pre_es);
        }
        Ok(Ghost(es1))
    } else if tx.is_blob() && tx.blob_gas > MAX_DATA_GAS_PER_BLOCK - *blob_gas_used {
        // The blob budget cannot take it either.
        best_txs.mark_invalid(&tx);
        let ghost es1 = pre_es.push(LoopEvent::MarkedOverBlobBudget { tx: txm });
        proof {
            lemma_run_step(
                sel0@.txs@,
                sel0@.banned@,
                base_fee,
                block_gas_limit,
                sel0@.blob_fee,
                sel0@.skip_blobs,
                pre_es,
                es1.last(),
            );
            assert(best_txs.banned@ =~= sel0@.banned@ + events_marks(es1));
            lemma_output_step(pre_es, es1.last(), pre_out, pre_out, base_fee);
            assert(es1.drop_last() =~= pre_es);
        }
        Ok(Ghost(es1))
    } else {
        execute_and_include(
            engine,
            best_txs,
            db,
            bundle,
            tx,
            cumulative_gas_used,
            blob_gas_used,
            executed_txs,
            receipts,
            total_fees,
            block_gas_limit,
            base_fee,
            es0,
            sel0,
        )
    }
}

/// Execute one budget-fitting candidate against the engine and record
/// what came of it: an inclusion, a stale-nonce skip, a rejection mark,
/// or a fatal engine code.
#[verifier::rlimit(100)]
fn execute_and_include<P: StateProvider, E: ExecutionEngine<P>>(
    engine: &mut E,
    best_txs: &mut BestTransactions,
    db: &mut CachedReadsDbMut<P>,
    bundle: &mut BundleState,
    tx: Transaction,
    cumulative_gas_used: &mut u64,
    blob_gas_used: &mut u64,
    executed_txs: &mut Vec<Transaction>,
    receipts: &mut Vec<Receipt>,
    total_fees: &mut u128,
    block_gas_limit: u64,
    base_fee: u64,
    es0: Ghost<Seq<LoopEvent>>,
    sel0: Ghost<BestTransactions>,
) -> (r: Result<Ghost<Seq<LoopEvent>>, u64>)
    requires
        old(best_txs).wf(),
        old(best_txs).txs == sel0@.txs,
        old(best_txs).base_fee == base_fee,
        sel0@.base_fee == base_fee,
        old(best_txs).blob_fee == sel0@.blob_fee,
        old(best_txs).banned@ == sel0@.banned@ + events_marks(es0@),
        old(best_txs).skip_blobs == (sel0@.skip_blobs || hits_blob_ceiling(es0@)),
        run_ok(
            sel0@.txs@,
            sel0@.banned@,
            base_fee,
            block_gas_limit,
            sel0@.blob_fee,
            sel0@.skip_blobs,
            es0@,
        ),
        trace_describes_output(
            es0@,
            (ExecLoopOutput {
                cumulative_gas_used: *old(cumulative_gas_used),
                blob_gas_used: *old(blob_gas_used),
                executed_txs: *old(executed_txs),
                receipts: *old(receipts),
                total_fees: *old(total_fees),
            }),
            base_fee,
        ),
        old(db).cached.wf(),
        old(bundle).wf(),
        exec_outputs_wf(
            (ExecLoopOutput {
                cumulative_gas_used: *old(cumulative_gas_used),
                blob_gas_used: *old(blob_gas_used),
                executed_txs: *old(executed_txs),
                receipts: *old(receipts),
                total_fees: *old(total_fees),
            }),
            block_gas_limit,
        ),
        *old(blob_gas_used) == MAX_DATA_GAS_PER_BLOCK ==> old(best_txs).skip_blobs,
        exists|j: int|
            0 <= j < sel0@.txs@.len() && tx.model() == (#[trigger] sel0@.txs@[j]).model(),
        !banned_by(sel0@.banned@ + events_marks(es0@), tx.model()),
        model_tip(tx.model(), base_fee) is Some,
        model_is_blob(tx.model()) ==> match sel0@.blob_fee {
            Some(bf) => tx.model().max_fee_per_blob_gas >= bf,
            None => true,
        },
        (sel0@.skip_blobs || hits_blob_ceiling(es0@)) ==> !model_is_blob(tx.model()),
        *old(cumulative_gas_used) + tx.gas_limit <= block_gas_limit,
        tx.spec_is_blob() ==> *old(blob_gas_used) + tx.blob_gas <= MAX_DATA_GAS_PER_BLOCK,
    ensures
        final(best_txs).wf(),
        final(best_txs).txs == old(best_txs).txs,
        final(best_txs).base_fee == old(best_txs).base_fee,
        final(best_txs).blob_fee == old(best_txs).blob_fee,
        final(best_txs).yielded == old(best_txs).yielded,
        final(db).cached.wf(),
        final(db).db.state() == old(db).db.state(),
        cache_extends(final(db).cached.model(), old(db).cached.model()),
        final(bundle).wf(),
        (r matches Err(_) ==> {
            &&& *final(best_txs) == *old(best_txs)
            &&& *final(cumulative_gas_used) == *old(cumulative_gas_used)
            &&& *final(blob_gas_used) == *old(blob_gas_used)
            &&& final(executed_txs)@ == old(executed_txs)@
            &&& final(receipts)@ == old(receipts)@
            &&& *final(total_fees) == *old(total_fees)
        }),
        (r matches Ok(es1) ==> {
            &&& es1@.drop_last() == es0@
            &&& es1@.len() == es0@.len() + 1
            &&& event_tx(es1@.last()) == tx.model()
            &&& run_ok(
                sel0@.txs@,
                sel0@.banned@,
                base_fee,
                block_gas_limit,
                sel0@.blob_fee,
                sel0@.skip_blobs,
                es1@,
            )
            &&& final(best_txs).banned@ == sel0@.banned@ + events_marks(es1@)
            &&& final(best_txs).skip_blobs == (sel0@.skip_blobs || hits_blob_ceiling(es1@))
            &&& trace_describes_output(
                es1@,
                (ExecLoopOutput {
                    cumulative_gas_used: *final(cumulative_gas_used),
                    blob_gas_used: *final(blob_gas_used),
                    executed_txs: *final(executed_txs),
                    receipts: *final(receipts),
                    total_fees: *final(total_fees),
                }),
                base_fee,
            )
            &&& exec_outputs_wf(
                (ExecLoopOutput {
                    cumulative_gas_used: *final(cumulative_gas_used),
                    blob_gas_used: *final(blob_gas_used),
                    executed_txs: *final(executed_txs),
                    receipts: *final(receipts),
                    total_fees: *final(total_fees),
                }),
                block_gas_limit,
            )
            &&& (*final(blob_gas_used) == MAX_DATA_GAS_PER_BLOCK ==> final(best_txs).skip_blobs)
        }),
{
    let ghost pre_es = es0@;
    let ghost txm = tx.model();
    let ghost pre_out = ExecLoopOutput {
        cumulative_gas_used: *cumulative_gas_used,
        blob_gas_used: *blob_gas_used,
        executed_txs: *executed_txs,
        receipts: *receipts,
        total_fees: *total_fees,
    };
    proof {
        lemma_trace_describes_unfold(pre_es, pre_out, base_fee);
        lemma_exec_outputs_wf_unfold(pre_out, block_gas_limit);
        assert(model_tip(txm, base_fee) == tx.spec_effective_tip(base_fee));
        assert(model_is_blob(txm) == tx.spec_is_blob());
    }
        let outcome = engine.transact(db, &tx);
        let ghost e: LoopEvent;
        match &outcome {
            Err(EvmError::Transaction(InvalidTransaction::NonceTooLow)) => {
                // Stale nonce: recoverable, keep the sender's later
                // transactions in play and record no mark.
                proof {
                    e = LoopEvent::SkippedStaleNonce { tx: txm };
                }
            }
            Err(EvmError::Transaction(_)) => {
                // Any other validation failure invalidates the
                // transaction and its dependents.
                best_txs.mark_invalid(&tx);
                proof {
                    e = LoopEvent::MarkedRejected { tx: txm };
                }
            }
            Err(EvmError::Internal(code)) => {
                // Engine fault: fatal for the whole attempt.
                return Err(*code);
            }
            Ok(_) => {
                proof {
                    e = LoopEvent::SkippedStaleNonce { tx: txm };
                }
            }
        }
        let included = match outcome {
            Ok(res) => {
                let ghost inc_gas = res.gas_used;
                let ghost inc_success = res.success;
                let ghost inc_logs = res.logs@;
                let reached_ceiling = include_candidate(
                    bundle,
                    tx,
                    res,
                    cumulative_gas_used,
                    blob_gas_used,
                    executed_txs,
                    receipts,
                    total_fees,
                    block_gas_limit,
                    base_fee,
                );
                if reached_ceiling {
                    // The ceiling is reached exactly: no further blob
                    // transaction can fit.
                    best_txs.skip_blobs();
                }
                proof {
                    e = LoopEvent::Included {
                        tx: txm,
                        gas_used: inc_gas,
                        success: inc_success,
                        logs: inc_logs,
                    };
                }
                true
            }
            Err(_) => false,
        };
        let ghost es1 = pre_es.push(e);
        proof {
            lemma_run_step(
                sel0@.txs@,
                sel0@.banned@,
                base_fee,
                block_gas_limit,
                sel0@.blob_fee,
                sel0@.skip_blobs,
                pre_es,
                e,
            );
            assert(best_txs.banned@ =~= sel0@.banned@ + events_marks(es1));
            if included {
                lemma_output_step(
                    pre_es,
                    e,
                    pre_out,
                    (ExecLoopOutput {
                        cumulative_gas_used: *cumulative_gas_used,
                        blob_gas_used: *blob_gas_used,
                        executed_txs: *executed_txs,
                        receipts: *receipts,
                        total_fees: *total_fees,
                    }),
                    base_fee,
                );
            } else {
                lemma_output_step(pre_es, e, pre_out, pre_out, base_fee);
            }
            assert(es1.drop_last() =~= pre_es);
        }
        Ok(Ghost(es1))
}

/// Commit one successful execution: apply its diff, add its gas, blob
/// gas, fee, receipt and transaction, and report whether the blob total
/// landed exactly on the ceiling.
#[verifier::rlimit(100)]
fn include_candidate(
    bundle: &mut BundleState,
    tx: Transaction,
    res: crate::evm::ExecResult,
    cumulative_gas_used: &mut u64,
    blob_gas_used: &mut u64,
    executed_txs: &mut Vec<Transaction>,
    receipts: &mut Vec<Receipt>,
    total_fees: &mut u128,
    block_gas_limit: u64,
    base_fee: u64,
) -> (reached_ceiling: bool)
    requires
        old(bundle).wf(),
        res.gas_used <= tx.gas_limit,
        *old(cumulative_gas_used) + tx.gas_limit <= block_gas_limit,
        tx.spec_is_blob() ==> *old(blob_gas_used) + tx.blob_gas <= MAX_DATA_GAS_PER_BLOCK,
        tx.spec_effective_tip(base_fee) is Some,
        exec_outputs_wf(
            (ExecLoopOutput {
                cumulative_gas_used: *old(cumulative_gas_used),
                blob_gas_used: *old(blob_gas_used),
                executed_txs: *old(executed_txs),
                receipts: *old(receipts),
                total_fees: *old(total_fees),
            }),
            block_gas_limit,
        ),
    ensures
        final(bundle).wf(),
        final(executed_txs)@.len() == old(executed_txs)@.len() + 1,
        final(executed_txs)@.drop_last() == old(executed_txs)@,
        final(executed_txs)@.last().model() == tx.model(),
        final(receipts)@.len() == old(receipts)@.len() + 1,
        final(receipts)@.drop_last() == old(receipts)@,
        final(receipts)@.last().tx_type == tx.tx_type,
        final(receipts)@.last().success == res.success,
        final(receipts)@.last().logs@ == res.logs@,
        *final(cumulative_gas_used) == *old(cumulative_gas_used) + res.gas_used,
        *final(blob_gas_used) == *old(blob_gas_used) + if tx.spec_is_blob() {
            tx.blob_gas
        } else {
            0u64
        },
        *final(total_fees) as int == *old(total_fees) as int + (tx.spec_effective_tip(
            base_fee,
        ).unwrap() as int) * (res.gas_used as int),
        reached_ceiling == (*final(blob_gas_used) == MAX_DATA_GAS_PER_BLOCK && tx.spec_is_blob()),
        spec_gas_of(final(receipts)@, final(receipts)@.len() - 1) == res.gas_used as int,
        *final(cumulative_gas_used) as int == final(receipts)@.last().cumulative_gas_used as int,
        exec_outputs_wf(
            (ExecLoopOutput {
                cumulative_gas_used: *final(cumulative_gas_used),
                blob_gas_used: *final(blob_gas_used),
                executed_txs: *final(executed_txs),
                receipts: *final(receipts),
                total_fees: *final(total_fees),
            }),
            block_gas_limit,
        ),
{
    proof {
        lemma_exec_outputs_wf_unfold(
            (ExecLoopOutput {
                cumulative_gas_used: *cumulative_gas_used,
                blob_gas_used: *blob_gas_used,
                executed_txs: *executed_txs,
                receipts: *receipts,
                total_fees: *total_fees,
            }),
            block_gas_limit,
        );
    }
    bundle.apply_diff(&res.diff);
    let mut reached_ceiling = false;
    if tx.is_blob() {
        *blob_gas_used = *blob_gas_used + tx.blob_gas;
        if *blob_gas_used == MAX_DATA_GAS_PER_BLOCK {
            reached_ceiling = true;
        }
    }
    let gas_used = res.gas_used;
    let ghost pre_cum = *cumulative_gas_used;
    *cumulative_gas_used = *cumulative_gas_used + gas_used;
    let tip = match tx.effective_tip_per_gas(base_fee) {
        Some(t) => t,
        None => {
            proof {
                assert(false);
            }
            0
        }
    };
    proof {
        assert((*total_fees as int) + (tip as int) * (gas_used as int) <= (u64::MAX as int) * ((
        pre_cum as int) + (gas_used as int))) by (nonlinear_arith)
            requires
                *total_fees as int <= (u64::MAX as int) * (pre_cum as int),
                tip as int <= u64::MAX as int,
                0 <= gas_used as int,
                0 <= pre_cum as int,
        ;
        assert((u64::MAX as int) * ((pre_cum as int) + (gas_used as int)) <= (u64::MAX as int) * (
        u64::MAX as int)) by (nonlinear_arith)
            requires
                (pre_cum as int) + (gas_used as int) <= u64::MAX as int,
        ;
        assert((u64::MAX as int) * (u64::MAX as int) < u128::MAX as int);
    }
    let fee_part: u128 = (tip as u128) * (gas_used as u128);
    *total_fees = *total_fees + fee_part;
    let ghost pre_receipts = receipts@;
    let ghost pre_executed = executed_txs@;
    receipts.push(
        Receipt {
            tx_type: tx.tx_type,
            success: res.success,
            cumulative_gas_used: *cumulative_gas_used,
            logs: res.logs,
        },
    );
    executed_txs.push(tx);
    proof {
        assert(receipts@.drop_last() =~= pre_receipts);
        assert(executed_txs@.drop_last() =~= pre_executed);
        lemma_exec_outputs_wf_intro(
            (ExecLoopOutput {
                cumulative_gas_used: *cumulative_gas_used,
                blob_gas_used: *blob_gas_used,
                executed_txs: *executed_txs,
                receipts: *receipts,
                total_fees: *total_fees,
            }),
            block_gas_limit,
        );
    }
    reached_ceiling
}

/// Pushing one lawful event extends a lawful trace and moves every fold
/// by exactly that event's contribution.
proof fn lemma_run_step(
    txs: Seq<Transaction>,
    marks0: Seq<(u64, u64)>,
    base_fee: u64,
    block_gas_limit: u64,
    blob_fee: Option<u64>,
    skip0: bool,
    es: Seq<LoopEvent>,
    e: LoopEvent,
)
    requires
        run_ok(txs, marks0, base_fee, block_gas_limit, blob_fee, skip0, es),
        exists|j: int| 0 <= j < txs.len() && event_tx(e) == (#[trigger] txs[j]).model(),
        !banned_by(marks0 + events_marks(es), event_tx(e)),
        model_tip(event_tx(e), base_fee) is Some,
        model_is_blob(event_tx(e)) ==> match blob_fee {
            Some(bf) => event_tx(e).max_fee_per_blob_gas >= bf,
            None => true,
        },
        (skip0 || hits_blob_ceiling(es)) ==> !model_is_blob(event_tx(e)),
        match e {
            LoopEvent::Included { tx, gas_used, .. } => {
                &&& gas_used <= tx.gas_limit
                &&& included_gas(es) + tx.gas_limit <= block_gas_limit
                &&& (model_is_blob(tx) ==> included_blob(es) + tx.blob_gas
                    <= MAX_DATA_GAS_PER_BLOCK)
            },
            LoopEvent::MarkedOverGasBudget { tx } => included_gas(es) + tx.gas_limit
                > block_gas_limit,
            LoopEvent::MarkedOverBlobBudget { tx } => model_is_blob(tx) && included_blob(es)
                + tx.blob_gas > MAX_DATA_GAS_PER_BLOCK,
            LoopEvent::SkippedStaleNonce { .. } => true,
            LoopEvent::MarkedRejected { .. } => true,
        },
    ensures
        run_ok(txs, marks0, base_fee, block_gas_limit, blob_fee, skip0, es.push(e)),
        events_marks(es.push(e)) == events_marks(es) + match e {
            LoopEvent::MarkedOverGasBudget { tx } => seq![(tx.sender, tx.nonce)],
            LoopEvent::MarkedOverBlobBudget { tx } => seq![(tx.sender, tx.nonce)],
            LoopEvent::MarkedRejected { tx } => seq![(tx.sender, tx.nonce)],
            _ => Seq::<(u64, u64)>::empty(),
        },
        included_of(es.push(e)) == if e is Included {
            included_of(es).push(e)
        } else {
            included_of(es)
        },
        included_gas(es.push(e)) == included_gas(es) + event_gas(e) as int,
        included_blob(es.push(e)) == included_blob(es) + if e is Included && model_is_blob(
            event_tx(e),
        ) {
            event_tx(e).blob_gas as int
        } else {
            0int
        },
        included_fees(es.push(e), base_fee) == included_fees(es, base_fee) + if e is Included {
            (model_tip(event_tx(e), base_fee).unwrap() as int) * (event_gas(e) as int)
        } else {
            0int
        },
        hits_blob_ceiling(es.push(e)) == (hits_blob_ceiling(es) || (e is Included
            && included_blob(es.push(e)) == MAX_DATA_GAS_PER_BLOCK as int)),
{
    reveal(run_ok);
    reveal(events_marks);
    reveal(included_of);
    reveal(included_gas);
    reveal(included_blob);
    reveal(included_fees);
    reveal(hits_blob_ceiling);
    assert(es.push(e).drop_last() =~= es);
    assert(es.push(e).last() == e);
}

/// A candidate the selector produced satisfies every per-event side
/// condition of [`run_ok`], given that the selector's state is the
/// initial state plus the trace's marks and skip flag.
proof fn lemma_candidate_ok(
    sel0: BestTransactions,
    sel_pre: BestTransactions,
    es: Seq<LoopEvent>,
    t: Transaction,
    i: int,
)
    requires
        sel_pre.txs == sel0.txs,
        sel_pre.base_fee == sel0.base_fee,
        sel_pre.blob_fee == sel0.blob_fee,
        sel_pre.banned@ == sel0.banned@ + events_marks(es),
        sel_pre.skip_blobs == (sel0.skip_blobs || hits_blob_ceiling(es)),
        sel_pre.eligible(i),
        t.model() == sel_pre.txs@[i].model(),
    ensures
        exists|j: int| 0 <= j < sel0.txs@.len() && t.model() == (#[trigger] sel0.txs@[j]).model(),
        !banned_by(sel0.banned@ + events_marks(es), t.model()),
        model_tip(t.model(), sel0.base_fee) is Some,
        model_is_blob(t.model()) ==> match sel0.blob_fee {
            Some(bf) => t.model().max_fee_per_blob_gas >= bf,
            None => true,
        },
        (sel0.skip_blobs || hits_blob_ceiling(es)) ==> !model_is_blob(t.model()),
{
    let c = sel_pre.txs@[i];
    assert(t.model() == c.model());
    assert(!sel_pre.spec_banned(c));
    lemma_banned_bridge(sel_pre, c);
    assert(model_tip(c.model(), sel_pre.base_fee) == c.spec_effective_tip(sel_pre.base_fee));
    assert(model_is_blob(c.model()) == c.spec_is_blob());
}

/// Every event of a lawful trace is about a snapshot transaction that can
/// pay the base fee.
proof fn lemma_trace_membership(
    txs: Seq<Transaction>,
    marks0: Seq<(u64, u64)>,
    base_fee: u64,
    block_gas_limit: u64,
    blob_fee: Option<u64>,
    skip0: bool,
    es: Seq<LoopEvent>,
)
    requires
        run_ok(txs, marks0, base_fee, block_gas_limit, blob_fee, skip0, es),
    ensures
        forall|k: int|
            0 <= k < es.len() ==> (exists|j: int|
                0 <= j < txs.len() && event_tx(#[trigger] es[k]) == (#[trigger] txs[j]).model())
                && model_tip(event_tx(es[k]), base_fee) is Some,
    decreases es.len(),
{
    reveal(run_ok);
    if es.len() > 0 {
        lemma_trace_membership(
            txs,
            marks0,
            base_fee,
            block_gas_limit,
            blob_fee,
            skip0,
            es.drop_last(),
        );
        assert forall|k: int| 0 <= k < es.len() implies (exists|j: int|
            0 <= j < txs.len() && event_tx(#[trigger] es[k]) == (#[trigger] txs[j]).model())
            && model_tip(event_tx(es[k]), base_fee) is Some by {
            if k < es.len() - 1 {
                assert(es.drop_last()[k] == es[k]);
            }
        }
    }
}

/// Every inclusion of a trace is one of its events.
proof fn lemma_included_membership(es: Seq<LoopEvent>)
    ensures
        forall|i: int|
            0 <= i < included_of(es).len() ==> exists|k: int|
                0 <= k < es.len() && #[trigger] included_of(es)[i] == es[k],
    decreases es.len(),
{
    reveal(included_of);
    if es.len() > 0 {
        lemma_included_membership(es.drop_last());
        assert forall|i: int| 0 <= i < included_of(es).len() implies exists|k: int|
            0 <= k < es.len() && #[trigger] included_of(es)[i] == es[k] by {
            if es.last() is Included && i == included_of(es).len() - 1 {
                assert(included_of(es)[i] == es[es.len() - 1]);
            } else {
                assert(included_of(es)[i] == included_of(es.drop_last())[i]);
                let k = choose|k: int|
                    0 <= k < es.drop_last().len() && included_of(es.drop_last())[i] == #[trigger] es.drop_last()[k];
                assert(es[k] == es.drop_last()[k]);
            }
        }
    }
}

/// The trace folds agree with the list folds: the blob-gas and fee sums
/// over the included list equal the sums over the trace.
pub proof fn lemma_fold_equiv(
    es: Seq<LoopEvent>,
    executed: Seq<Transaction>,
    receipts: Seq<Receipt>,
    base_fee: u64,
)
    requires
        included_of(es).len() == executed.len(),
        executed.len() == receipts.len(),
        forall|i: int|
            0 <= i < executed.len() ==> {
                &&& event_tx(#[trigger] included_of(es)[i]) == executed[i].model()
                &&& event_gas(included_of(es)[i]) as int == spec_gas_of(receipts, i)
            },
    ensures
        spec_blob_gas(executed) == included_blob(es),
        spec_total_fees(executed, receipts, base_fee) == included_fees(es, base_fee),
    decreases es.len(),
{
    reveal(included_of);
    reveal(included_blob);
    reveal(included_fees);
    if es.len() == 0 {
    } else if es.last() is Included {
        let e = es.last();
        let prefix = es.drop_last();
        assert(included_of(es) =~= included_of(prefix).push(e));
        assert(executed.len() >= 1);
        assert(executed.drop_last().len() == receipts.drop_last().len());
        assert forall|i: int| 0 <= i < executed.drop_last().len() implies {
            &&& event_tx(#[trigger] included_of(prefix)[i]) == executed.drop_last()[i].model()
            &&& event_gas(included_of(prefix)[i]) as int == spec_gas_of(receipts.drop_last(), i)
        } by {
            assert(included_of(prefix)[i] == included_of(es)[i]);
            assert(executed.drop_last()[i] == executed[i]);
            assert(receipts.drop_last()[i] == receipts[i]);
            if i > 0 {
                assert(receipts.drop_last()[i - 1] == receipts[i - 1]);
            }
        }
        lemma_fold_equiv(prefix, executed.drop_last(), receipts.drop_last(), base_fee);
        assert(included_of(es)[executed.len() - 1] == e);
        assert(executed.last().model() == event_tx(e));
        assert(executed.last().spec_is_blob() == model_is_blob(event_tx(e)));
        assert(executed.last().spec_effective_tip(base_fee) == model_tip(event_tx(e), base_fee));
        assert(spec_gas_of(receipts, executed.len() - 1) == event_gas(e) as int);
    } else {
        let prefix = es.drop_last();
        assert(included_of(es) =~= included_of(prefix));
        assert forall|i: int| 0 <= i < executed.len() implies {
            &&& event_tx(#[trigger] included_of(prefix)[i]) == executed[i].model()
            &&& event_gas(included_of(prefix)[i]) as int == spec_gas_of(receipts, i)
        } by {
            assert(included_of(prefix)[i] == included_of(es)[i]);
        }
        lemma_fold_equiv(prefix, executed, receipts, base_fee);
    }
}

/// Marks only accumulate: whatever a selector state with the initial
/// marks plus a trace's marks bans, it bans for any extension.
proof fn lemma_marks_monotone(marks0: Seq<(u64, u64)>, extra: Seq<(u64, u64)>, sel: BestTransactions)
    requires
        sel.banned@ == marks0 + extra,
    ensures
        forall|t: Transaction|
            banned_by(marks0, t.model()) ==> #[trigger] sel.spec_banned(t),
{
    assert forall|t: Transaction| banned_by(marks0, t.model()) implies #[trigger] sel.spec_banned(
        t,
    ) by {
        let i = choose|i: int|
            0 <= i < marks0.len() && (#[trigger] marks0[i]).0 == t.model().sender
                && t.model().nonce >= marks0[i].1;
        assert(sel.banned@[i] == marks0[i]);
    }
}

/// The selector's ban predicate and the trace's agree on a transaction's
/// shape.
proof fn lemma_banned_bridge(sel: BestTransactions, t: Transaction)
    ensures
        banned_by(sel.banned@, t.model()) == sel.spec_banned(t),
{
    if banned_by(sel.banned@, t.model()) {
        let i = choose|i: int|
            0 <= i < sel.banned@.len() && (#[trigger] sel.banned@[i]).0 == t.model().sender
                && t.model().nonce >= sel.banned@[i].1;
        assert(sel.banned@[i].0 == t.sender && t.nonce >= sel.banned@[i].1);
    }
    if sel.spec_banned(t) {
        let i = choose|i: int|
            0 <= i < sel.banned@.len() && (#[trigger] sel.banned@[i]).0 == t.sender && t.nonce
                >= sel.banned@[i].1;
        assert(sel.banned@[i].0 == t.model().sender && t.model().nonce >= sel.banned@[i].1);
    }
}

} // verus!
