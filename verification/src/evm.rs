//! The execution-engine capability: deterministic transaction execution
//! against the cached database adapter, plus the pre- and post-block
//! system hooks.
//!
//! The trait states what the rest of the crate may rely on whatever an
//! engine answers: the provider world behind the adapter never changes,
//! the cache only grows, and a successful execution never spends more gas
//! than the transaction's limit. [`ScriptedEngine`] is the in-crate
//! implementation, replaying programmed outcomes per transaction hash.

use vstd::prelude::*;

use crate::bundle::StateDiff;
use crate::cache::{cache_extends, CachedReadsDbMut};
use crate::listmap::ListMap;
use crate::provider::StateProvider;
use crate::types::{BlockEnv, EvmError, InvalidTransaction, Log, Request, Transaction};

verus! {

/// What one successful execution produced.
pub struct ExecResult {
    /// Gas the transaction actually spent; never above its limit.
    pub gas_used: u64,
    /// Whether the transaction itself succeeded (a reverted transaction
    /// is still included, with a failure receipt).
    pub success: bool,
    /// The logs the execution emitted.
    pub logs: Vec<Log>,
    /// The state diff to commit on inclusion.
    pub diff: StateDiff,
}

/// A deterministic execution engine over a cached state adapter.
pub trait ExecutionEngine<P: StateProvider>: Sized {
    /// Execute `tx` against the adapter's current state.
    fn transact(&mut self, db: &mut CachedReadsDbMut<P>, tx: &Transaction) -> (r: Result<
        ExecResult,
        EvmError,
    >)
        requires
            old(db).cached.wf(),
        ensures
            final(db).cached.wf(),
            final(db).db.state() == old(db).db.state(),
            cache_extends(final(db).cached.model(), old(db).cached.model()),
            (r matches Ok(res) ==> res.gas_used <= tx.gas_limit),
    ;

    /// The pre-block system hooks, run once before the transaction loop:
    /// deterministic bookkeeping calls derived from the block environment,
    /// the parent beacon root, and the parent hash.
    fn pre_block_system_calls(
        &mut self,
        db: &mut CachedReadsDbMut<P>,
        env: &BlockEnv,
        parent_beacon_block_root: Option<u64>,
        parent_hash: u64,
    ) -> (r: Result<StateDiff, EvmError>)
        requires
            old(db).cached.wf(),
        ensures
            final(db).cached.wf(),
            final(db).db.state() == old(db).db.state(),
            cache_extends(final(db).cached.model(), old(db).cached.model()),
    ;

    /// The post-block hook, run once after the transaction loop when the
    /// active rules ask for it: gathers protocol-level requests along with
    /// the state changes of the gathering call.
    fn post_block_system_calls(&mut self, db: &mut CachedReadsDbMut<P>, env: &BlockEnv) -> (r:
        Result<(StateDiff, Vec<Request>), EvmError>)
        requires
            old(db).cached.wf(),
        ensures
            final(db).cached.wf(),
            final(db).db.state() == old(db).db.state(),
            cache_extends(final(db).cached.model(), old(db).cached.model()),
    ;
}

/// A programmed outcome for one transaction hash.
pub enum PlannedOutcome {
    /// Execute successfully with these results.
    Success { gas_used: u64, success: bool, logs: Vec<Log>, diff: StateDiff },
    /// Fail validation.
    Invalid(InvalidTransaction),
    /// Fail fatally with this engine code.
    Fatal(u64),
}

/// An engine that replays programmed outcomes: the outcome of a
/// transaction is looked up by its hash, and a transaction without a
/// programmed outcome succeeds spending its whole gas limit.
pub struct ScriptedEngine {
    script: ListMap<PlannedOutcome>,
    pre_diff: StateDiff,
    post_requests: Vec<Request>,
}

impl ScriptedEngine {
    #[verifier::type_invariant]
    spec fn inv(self) -> bool {
        self.script.wf()
    }

    /// An engine with no programmed outcomes or hook effects.
    pub fn new() -> (r: Self) {
        ScriptedEngine {
            script: ListMap::new(),
            pre_diff: StateDiff { changes: Vec::new() },
            post_requests: Vec::new(),
        }
    }

    /// Programme the outcome of the transaction with hash `tx_hash`.
    pub fn plan(&mut self, tx_hash: u64, outcome: PlannedOutcome) {
        proof {
            use_type_invariant(&*self);
        }
        let mut m: ListMap<PlannedOutcome> = ListMap::new();
        core::mem::swap(&mut m, &mut self.script);
        m.insert(tx_hash as u128, outcome);
        core::mem::swap(&mut m, &mut self.script);
    }

    /// Set the requests the post-block hook reports.
    pub fn set_post_requests(&mut self, requests: Vec<Request>) {
        proof {
            use_type_invariant(&*self);
        }
        self.post_requests = requests;
    }
}

/// Copy a state diff field by field.
fn copy_diff(d: &StateDiff) -> (r: StateDiff) {
    let mut changes: Vec<crate::bundle::AccountChange> = Vec::new();
    let n = d.changes.len();
    let mut i: usize = 0;
    while i < n
        invariant
            i <= n,
            n == d.changes@.len(),
        decreases n - i,
    {
        let c = &d.changes[i];
        let mut writes: Vec<(u64, u64)> = Vec::new();
        let m = c.storage_writes.len();
        let mut j: usize = 0;
        while j < m
            invariant
                j <= m,
                m == c.storage_writes@.len(),
            decreases m - j,
        {
            writes.push(c.storage_writes[j]);
            j = j + 1;
        }
        changes.push(
            crate::bundle::AccountChange { address: c.address, info: c.info, storage_writes: writes },
        );
        i = i + 1;
    }
    StateDiff { changes }
}

/// Copy a log list.
fn copy_logs(logs: &Vec<Log>) -> (r: Vec<Log>)
    ensures
        r@ == logs@,
{
    let mut out: Vec<Log> = Vec::new();
    let n = logs.len();
    let mut i: usize = 0;
    while i < n
        invariant
            i <= n,
            n == logs@.len(),
            out@ == logs@.take(i as int),
        decreases n - i,
    {
        out.push(logs[i]);
        proof {
            assert(logs@.take(i as int + 1).drop_last() =~= logs@.take(i as int));
            assert(out@ =~= logs@.take(i as int + 1));
        }
        i = i + 1;
    }
    proof {
        assert(logs@.take(n as int) =~= logs@);
    }
    out
}

impl<P: StateProvider> ExecutionEngine<P> for ScriptedEngine {
    fn transact(&mut self, db: &mut CachedReadsDbMut<P>, tx: &Transaction) -> (r: Result<
        ExecResult,
        EvmError,
    >) {
        proof {
            use_type_invariant(&*self);
        }
        match self.script.get(tx.hash as u128) {
            Some(planned) => match planned {
                PlannedOutcome::Success { gas_used, success, logs, diff } => {
                    let capped: u64 = if *gas_used <= tx.gas_limit {
                        *gas_used
                    } else {
                        tx.gas_limit
                    };
                    Ok(
                        ExecResult {
                            gas_used: capped,
                            success: *success,
                            logs: copy_logs(logs),
                            diff: copy_diff(diff),
                        },
                    )
                }
                PlannedOutcome::Invalid(e) => Err(EvmError::Transaction(*e)),
                PlannedOutcome::Fatal(code) => Err(EvmError::Internal(*code)),
            },
            None => Ok(
                ExecResult {
                    gas_used: tx.gas_limit,
                    success: true,
                    logs: Vec::new(),
                    diff: StateDiff { changes: Vec::new() },
                },
            ),
        }
    }

    fn pre_block_system_calls(
        &mut self,
        db: &mut CachedReadsDbMut<P>,
        env: &BlockEnv,
        parent_beacon_block_root: Option<u64>,
        parent_hash: u64,
    ) -> (r: Result<StateDiff, EvmError>) {
        proof {
            use_type_invariant(&*self);
        }
        Ok(copy_diff(&self.pre_diff))
    }

    fn post_block_system_calls(&mut self, db: &mut CachedReadsDbMut<P>, env: &BlockEnv) -> (r:
        Result<(StateDiff, Vec<Request>), EvmError>) {
        proof {
            use_type_invariant(&*self);
        }
        let mut requests: Vec<Request> = Vec::new();
        let n = self.post_requests.len();
        let mut i: usize = 0;
        while i < n
            invariant
                i <= n,
                n == self.post_requests@.len(),
                requests@ == self.post_requests@.take(i as int),
            decreases n - i,
        {
            requests.push(self.post_requests[i]);
            proof {
                assert(self.post_requests@.take(i as int + 1).drop_last()
                    =~= self.post_requests@.take(i as int));
                assert(requests@ =~= self.post_requests@.take(i as int + 1));
            }
            i = i + 1;
        }
        proof {
            assert(self.post_requests@.take(n as int) =~= self.post_requests@);
        }
        Ok((StateDiff { changes: Vec::new() }, requests))
    }
}

} // verus!
