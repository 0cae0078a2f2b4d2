//! The transaction selector: a finite, non-restartable, pull-based view
//! over a pool snapshot, ranked by effective tip with ties broken by
//! arrival order.
//!
//! Two signals feed back from the consumer: [`BestTransactions::mark_invalid`]
//! removes a transaction and all of its same-sender higher-nonce dependents
//! from future iteration, and [`BestTransactions::skip_blobs`] omits all
//! not-yet-produced blob transactions.

use vstd::prelude::*;

use crate::types::Transaction;

verus! {

/// How many positions of a yielded-mark sequence are set.
pub open spec fn num_yielded(s: Seq<bool>) -> int
    decreases s.len(),
{
    if s.len() == 0 {
        0
    } else {
        num_yielded(s.drop_last()) + if s.last() {
            1int
        } else {
            0int
        }
    }
}

/// The yielded count never exceeds the snapshot size.
pub proof fn lemma_num_yielded_bound(s: Seq<bool>)
    ensures
        0 <= num_yielded(s) <= s.len(),
    decreases s.len(),
{
    if s.len() > 0 {
        lemma_num_yielded_bound(s.drop_last());
    }
}

/// Setting an unset mark raises the count by one.
pub proof fn lemma_num_yielded_update(s: Seq<bool>, i: int)
    requires
        0 <= i < s.len(),
        !s[i],
    ensures
        num_yielded(s.update(i, true)) == num_yielded(s) + 1,
    decreases s.len(),
{
    let t = s.update(i, true);
    if i == s.len() - 1 {
        assert(t.drop_last() =~= s.drop_last());
    } else {
        assert(t.drop_last() =~= s.drop_last().update(i, true));
        lemma_num_yielded_update(s.drop_last(), i);
        assert(t.last() == s.last());
    }
}

/// A priority-ordered pull over one pool snapshot.
pub struct BestTransactions {
    /// The snapshot, in arrival order.
    pub txs: Vec<Transaction>,
    /// Base fee the ranking is computed against.
    pub base_fee: u64,
    /// Blob-gas price blob transactions must be willing to pay, if blobs
    /// are enabled.
    pub blob_fee: Option<u64>,
    /// Which snapshot positions have already been produced.
    pub yielded: Vec<bool>,
    /// Invalidation marks: a `(sender, nonce)` pair bans that sender's
    /// transactions at that nonce and above.
    pub banned: Vec<(u64, u64)>,
    /// Whether all remaining blob transactions are to be omitted.
    pub skip_blobs: bool,
}

impl BestTransactions {
    /// Well-formed: one yielded mark per snapshot position.
    pub open spec fn wf(&self) -> bool {
        self.yielded@.len() == self.txs@.len()
    }

    /// Whether `t` is banned by an invalidation mark: some mark names its
    /// sender with a nonce at or below `t`'s.
    pub open spec fn spec_banned(&self, t: Transaction) -> bool {
        exists|i: int|
            0 <= i < self.banned@.len() && (#[trigger] self.banned@[i]).0 == t.sender && t.nonce
                >= self.banned@[i].1
    }

    /// Whether `t` can pay this selection's prices: the base fee, and the
    /// blob-gas price if it carries blobs.
    pub open spec fn fee_ok(&self, t: Transaction) -> bool {
        &&& t.spec_effective_tip(self.base_fee) is Some
        &&& (t.spec_is_blob() ==> match self.blob_fee {
            Some(bf) => t.max_fee_per_blob_gas >= bf,
            None => true,
        })
    }

    /// Whether the snapshot position `i` can still be produced.
    pub open spec fn eligible(&self, i: int) -> bool {
        &&& 0 <= i < self.txs@.len()
        &&& !self.yielded@[i]
        &&& !self.spec_banned(self.txs@[i])
        &&& self.fee_ok(self.txs@[i])
        &&& (self.skip_blobs ==> !self.txs@[i].spec_is_blob())
    }

    /// The effective tip of position `i`.
    pub open spec fn tip_of(&self, i: int) -> u64 {
        self.txs@[i].spec_effective_tip(self.base_fee).unwrap()
    }

    /// Position `i` ranks at least as high as position `j`: a strictly
    /// higher tip, or the same tip and arrival no later.
    pub open spec fn prefers(&self, i: int, j: int) -> bool {
        self.tip_of(i) > self.tip_of(j) || (self.tip_of(i) == self.tip_of(j) && i <= j)
    }

    /// A fresh selection over `txs`, ranked against `base_fee` and
    /// `blob_fee`.
    pub fn new(txs: Vec<Transaction>, base_fee: u64, blob_fee: Option<u64>) -> (r: Self)
        ensures
            r.wf(),
            r.txs == txs,
            r.base_fee == base_fee,
            r.blob_fee == blob_fee,
            forall|i: int| 0 <= i < r.yielded@.len() ==> !(#[trigger] r.yielded@[i]),
            r.banned@ == Seq::<(u64, u64)>::empty(),
            !r.skip_blobs,
    {
        let n = txs.len();
        let mut yielded: Vec<bool> = Vec::new();
        let mut i: usize = 0;
        while i < n
            invariant
                i <= n,
                yielded@.len() == i,
                forall|j: int| 0 <= j < i ==> !(#[trigger] yielded@[j]),
            decreases n - i,
        {
            yielded.push(false);
            i = i + 1;
        }
        BestTransactions { txs, base_fee, blob_fee, yielded, banned: Vec::new(), skip_blobs: false }
    }

    /// Whether `t` is banned, executably.
    pub fn is_banned(&self, t: &Transaction) -> (r: bool)
        ensures
            r == self.spec_banned(*t),
    {
        let n = self.banned.len();
        let mut i: usize = 0;
        while i < n
            invariant
                n == self.banned@.len(),
                i <= n,
                forall|j: int|
                    0 <= j < i ==> !((#[trigger] self.banned@[j]).0 == t.sender && t.nonce
                        >= self.banned@[j].1),
            decreases n - i,
        {
            let (s, floor) = self.banned[i];
            if s == t.sender && t.nonce >= floor {
                return true;
            }
            i = i + 1;
        }
        false
    }

    /// Whether position `i` can still be produced, executably.
    fn eligible_at(&self, i: usize) -> (r: bool)
        requires
            self.wf(),
            i < self.txs@.len(),
        ensures
            r == self.eligible(i as int),
    {
        if self.yielded[i] {
            return false;
        }
        let t = &self.txs[i];
        if self.is_banned(t) {
            return false;
        }
        match t.effective_tip_per_gas(self.base_fee) {
            None => {
                return false;
            }
            Some(_) => {}
        }
        if t.is_blob() {
            if self.skip_blobs {
                return false;
            }
            match self.blob_fee {
                Some(bf) => {
                    if t.max_fee_per_blob_gas < bf {
                        return false;
                    }
                }
                None => {}
            }
        }
        true
    }

    /// Produce the highest-ranked transaction still eligible, marking its
    /// position as produced; `None` once the selection is exhausted.
    pub fn next(&mut self) -> (r: Option<Transaction>)
        requires
            old(self).wf(),
        ensures
            final(self).wf(),
            final(self).txs == old(self).txs,
            final(self).base_fee == old(self).base_fee,
            final(self).blob_fee == old(self).blob_fee,
            final(self).banned == old(self).banned,
            final(self).skip_blobs == old(self).skip_blobs,
            r is None ==> (forall|i: int| !old(self).eligible(i)) && final(self).yielded == old(
                self,
            ).yielded,
            r matches Some(t) ==> exists|i: int|
                {
                    &&& #[trigger] old(self).eligible(i)
                    &&& t.model() == old(self).txs@[i].model()
                    &&& final(self).yielded@ == old(self).yielded@.update(i, true)
                    &&& forall|j: int| old(self).eligible(j) ==> old(self).prefers(i, j)
                },
            r matches Some(t) ==> {
                &&& !old(self).spec_banned(t)
                &&& t.spec_effective_tip(old(self).base_fee) is Some
                &&& (old(self).skip_blobs ==> !t.spec_is_blob())
            },
    {
        let n = self.txs.len();
        let mut best: Option<usize> = None;
        let mut idx: usize = 0;
        while idx < n
            invariant
                self.wf(),
                n == self.txs@.len(),
                idx <= n,
                match best {
                    Some(b) => {
                        &&& b < idx
                        &&& self.eligible(b as int)
                        &&& forall|j: int| 0 <= j < idx && self.eligible(j) ==> self.prefers(
                            b as int,
                            j,
                        )
                    },
                    None => forall|j: int| 0 <= j < idx ==> !self.eligible(j),
                },
            decreases n - idx,
        {
            if self.eligible_at(idx) {
                match best {
                    None => {
                        best = Some(idx);
                    }
                    Some(b) => {
                        let tip_new = match self.txs[idx].effective_tip_per_gas(self.base_fee) {
                            Some(v) => v,
                            None => 0,
                        };
                        let tip_best = match self.txs[b].effective_tip_per_gas(self.base_fee) {
                            Some(v) => v,
                            None => 0,
                        };
                        if tip_new > tip_best {
                            best = Some(idx);
                        }
                    }
                }
            }
            idx = idx + 1;
        }
        match best {
            Some(i) => {
                let ghost pre = *self;
                self.yielded.set(i, true);
                let t = self.txs[i].clone();
                proof {
                    assert(pre.eligible(i as int));
                    assert(final(self).yielded@ =~= pre.yielded@.update(i as int, true));
                    assert(!pre.spec_banned(self.txs@[i as int]));
                    assert(t.model() == pre.txs@[i as int].model());
                    assert(t.sender == pre.txs@[i as int].sender && t.nonce == pre.txs@[
                        i as int].nonce);
                    assert(!pre.spec_banned(t));
                }
                Some(t)
            }
            None => None,
        }
    }

    /// Remove `tx` and every dependent of it — same sender, nonce at or
    /// above — from all future iteration. Nothing else changes, and marks
    /// only accumulate.
    pub fn mark_invalid(&mut self, tx: &Transaction)
        ensures
            final(self).wf() == old(self).wf(),
            final(self).txs == old(self).txs,
            final(self).base_fee == old(self).base_fee,
            final(self).blob_fee == old(self).blob_fee,
            final(self).yielded == old(self).yielded,
            final(self).skip_blobs == old(self).skip_blobs,
            final(self).banned@ == old(self).banned@.push((tx.sender, tx.nonce)),
            forall|t: Transaction|
                t.sender == tx.sender && t.nonce >= tx.nonce ==> final(self).spec_banned(t),
            forall|t: Transaction| old(self).spec_banned(t) ==> final(self).spec_banned(t),
    {
        self.banned.push((tx.sender, tx.nonce));
        proof {
            assert forall|t: Transaction|
                t.sender == tx.sender && t.nonce >= tx.nonce implies self.spec_banned(t) by {
                assert(self.banned@[self.banned@.len() - 1].0 == t.sender);
            }
            assert forall|t: Transaction| old(self).spec_banned(t) implies self.spec_banned(t) by {
                let i = choose|i: int|
                    0 <= i < old(self).banned@.len() && (#[trigger] old(self).banned@[i]).0
                        == t.sender && t.nonce >= old(self).banned@[i].1;
                assert(self.banned@[i].0 == t.sender);
            }
        }
    }

    /// Omit every not-yet-produced blob transaction for the rest of this
    /// selection.
    pub fn skip_blobs(&mut self)
        ensures
            final(self).wf() == old(self).wf(),
            final(self).txs == old(self).txs,
            final(self).base_fee == old(self).base_fee,
            final(self).blob_fee == old(self).blob_fee,
            final(self).yielded == old(self).yielded,
            final(self).banned == old(self).banned,
            final(self).skip_blobs,
    {
        self.skip_blobs = true;
    }
}

/// Dependency invalidation: once a mark for `tx` is recorded, no
/// transaction of the same sender with an equal or higher nonce is ever
/// eligible again, while transactions of other senders are untouched by
/// that mark.
pub proof fn lemma_invalidation_excludes_dependents(
    s: &BestTransactions,
    tx: Transaction,
    dependent: Transaction,
    other: Transaction,
    i: int,
)
    requires
        0 <= i < s.banned@.len(),
        s.banned@[i] == (tx.sender, tx.nonce),
        dependent.sender == tx.sender,
        dependent.nonce >= tx.nonce,
        other.sender != tx.sender,
    ensures
        s.spec_banned(dependent),
        forall|j: int| #[trigger] s.eligible(j) ==> s.txs@[j] != dependent,
        (forall|j: int| 0 <= j < s.banned@.len() ==> (#[trigger] s.banned@[j]).0 == tx.sender)
            ==> !s.spec_banned(other),
{
    assert(s.banned@[i].0 == dependent.sender && dependent.nonce >= s.banned@[i].1);
}

} // verus!
