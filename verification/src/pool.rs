//! The transaction-pool capability as a plain in-memory value: the
//! pending transactions of one snapshot, and the blob sidecars of the
//! blob-carrying ones.

use vstd::prelude::*;

use crate::listmap::ListMap;
use crate::selector::BestTransactions;
use crate::types::{BlobSidecar, BuildError, Transaction};

verus! {

/// One snapshot of a pending-transaction pool.
pub struct Pool {
    /// Pending transactions in arrival order.
    pub txs: Vec<Transaction>,
    /// Blob sidecars, keyed by transaction hash.
    pub sidecars: ListMap<BlobSidecar>,
}

impl Pool {
    /// Well-formed: the sidecar map is, and each sidecar sits under its
    /// own transaction hash.
    pub open spec fn wf(&self) -> bool {
        &&& self.sidecars.wf()
        &&& forall|i: int|
            0 <= i < self.sidecars.kv().len() ==> ((#[trigger] self.sidecars.kv()[i]).1.tx_hash
                as u128) == self.sidecars.kv()[i].0
    }

    /// A pool over `txs` with no sidecars yet.
    pub fn new(txs: Vec<Transaction>) -> (r: Self)
        ensures
            r.wf(),
            r.txs == txs,
            r.sidecars@ == Map::<u128, BlobSidecar>::empty(),
    {
        Pool { txs, sidecars: ListMap::new() }
    }

    /// Store the sidecar of one blob transaction.
    pub fn add_sidecar(&mut self, sidecar: BlobSidecar)
        requires
            old(self).wf(),
        ensures
            final(self).wf(),
            final(self).txs == old(self).txs,
            final(self).sidecars@ == old(self).sidecars@.insert(
                sidecar.tx_hash as u128,
                sidecar,
            ),
    {
        let key = sidecar.tx_hash as u128;
        self.sidecars.insert(key, sidecar);
    }

    /// A fresh priority selection over this snapshot, ranked against
    /// `base_fee` and `blob_fee`.
    pub fn best_transactions_with_attributes(&self, base_fee: u64, blob_fee: Option<u64>) -> (r:
        BestTransactions)
        ensures
            r.wf(),
            r.base_fee == base_fee,
            r.blob_fee == blob_fee,
            !r.skip_blobs,
            r.banned@ == Seq::<(u64, u64)>::empty(),
            forall|i: int| 0 <= i < r.yielded@.len() ==> !(#[trigger] r.yielded@[i]),
            r.txs@.len() == self.txs@.len(),
            forall|i: int|
                0 <= i < self.txs@.len() ==> (#[trigger] r.txs@[i]).model() == self.txs@[i].model(),
    {
        let n = self.txs.len();
        let mut copy: Vec<Transaction> = Vec::new();
        let mut i: usize = 0;
        while i < n
            invariant
                i <= n,
                n == self.txs@.len(),
                copy@.len() == i,
                forall|j: int|
                    0 <= j < i ==> (#[trigger] copy@[j]).model() == self.txs@[j].model(),
            decreases n - i,
        {
            copy.push(self.txs[i].clone());
            i = i + 1;
        }
        BestTransactions::new(copy, base_fee, blob_fee)
    }

    /// The sidecars of exactly the given transaction hashes; fails if any
    /// requested hash lacks sidecar data.
    pub fn get_all_blobs_exact(&self, hashes: &Vec<u64>) -> (r: Result<Vec<BlobSidecar>, BuildError>)
        requires
            self.wf(),
        ensures
            r is Ok <==> (forall|i: int|
                0 <= i < hashes@.len() ==> self.sidecars@.contains_key(
                    #[trigger] hashes@[i] as u128,
                )),
            r matches Ok(v) ==> {
                &&& v@.len() == hashes@.len()
                &&& forall|i: int|
                    0 <= i < hashes@.len() ==> {
                        &&& (#[trigger] v@[i]).tx_hash == hashes@[i]
                        &&& v@[i].data@ == self.sidecars@[hashes@[i] as u128].data@
                    }
            },
            r matches Err(e) ==> e == BuildError::MissingSidecar,
    {
        let n = hashes.len();
        let mut out: Vec<BlobSidecar> = Vec::new();
        let mut i: usize = 0;
        while i < n
            invariant
                i <= n,
                n == hashes@.len(),
                self.wf(),
                out@.len() == i,
                forall|j: int|
                    0 <= j < i ==> self.sidecars@.contains_key(#[trigger] hashes@[j] as u128),
                forall|j: int|
                    0 <= j < i ==> {
                        &&& (#[trigger] out@[j]).tx_hash == hashes@[j]
                        &&& out@[j].data@ == self.sidecars@[hashes@[j] as u128].data@
                    },
            decreases n - i,
        {
            let h = hashes[i];
            match self.sidecars.get(h as u128) {
                Some(sc) => {
                    let data = sc.data.clone();
                    proof {
                        assert(data@ =~= self.sidecars@[h as u128].data@);
                        self.sidecars.lemma_contains(h as u128);
                        let j = choose|j: int|
                            0 <= j < self.sidecars.kv().len() && (#[trigger] self.sidecars.kv()[j]).0
                                == h as u128;
                        self.sidecars.lemma_kv_index(j);
                        assert(sc.tx_hash as u128 == h as u128);
                    }
                    out.push(BlobSidecar { tx_hash: sc.tx_hash, data });
                }
                None => {
                    return Err(BuildError::MissingSidecar);
                }
            }
            i = i + 1;
        }
        Ok(out)
    }
}

} // verus!
