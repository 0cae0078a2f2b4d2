//! The bundle of pending state changes one build attempt accumulates:
//! committed transaction diffs, system-hook writes, and withdrawal credits,
//! none of them yet part of a canonical state root.

use vstd::prelude::*;

use crate::listmap::ListMap;
use crate::types::AccountInfo;

verus! {

/// Pending post-state of one account inside the bundle.
pub struct BundleAccount {
    pub info: AccountInfo,
    /// Written storage slots, keyed by slot.
    pub storage: ListMap<u64>,
}

/// Ghost shape of one bundled account: its info and the written slots as a
/// map.
pub struct BundleAccountModel {
    pub info: AccountInfo,
    pub storage: Map<u128, u64>,
}

/// Ghost shape of one bundled account with its writes in insertion order;
/// the state-root capability is a function of this order-carrying form.
pub struct BundleAccountSnap {
    pub info: AccountInfo,
    pub storage: Seq<(u128, u64)>,
}

impl BundleAccount {
    /// The account's map-shaped ghost value.
    pub open spec fn model(&self) -> BundleAccountModel {
        BundleAccountModel { info: self.info, storage: self.storage@ }
    }

    /// The account's order-carrying ghost value.
    pub open spec fn snap(&self) -> BundleAccountSnap {
        BundleAccountSnap { info: self.info, storage: self.storage.kv() }
    }
}

/// Full post-state of one account as the execution engine reports it.
pub struct AccountChange {
    pub address: u64,
    pub info: AccountInfo,
    /// Slots the transaction wrote, in write order.
    pub storage_writes: Vec<(u64, u64)>,
}

/// The state diff of one executed transaction or system hook.
pub struct StateDiff {
    pub changes: Vec<AccountChange>,
}

/// Setting an account's info keeps its written slots.
pub open spec fn spec_set_info(
    m: Map<u128, BundleAccountModel>,
    address: u128,
    info: AccountInfo,
) -> Map<u128, BundleAccountModel> {
    m.insert(
        address,
        BundleAccountModel {
            info,
            storage: if m.contains_key(address) {
                m[address].storage
            } else {
                Map::empty()
            },
        },
    )
}

/// Writing a slot keeps the account's info, starting from the empty account
/// when the address is new to the bundle.
pub open spec fn spec_set_storage(
    m: Map<u128, BundleAccountModel>,
    address: u128,
    slot: u64,
    value: u64,
) -> Map<u128, BundleAccountModel> {
    let acc = if m.contains_key(address) {
        m[address]
    } else {
        BundleAccountModel { info: AccountInfo::spec_empty(), storage: Map::empty() }
    };
    m.insert(
        address,
        BundleAccountModel { info: acc.info, storage: acc.storage.insert(slot as u128, value) },
    )
}

/// Folding a write list onto the bundle, first write first.
pub open spec fn spec_apply_writes(
    m: Map<u128, BundleAccountModel>,
    address: u128,
    writes: Seq<(u64, u64)>,
) -> Map<u128, BundleAccountModel>
    decreases writes.len(),
{
    if writes.len() == 0 {
        m
    } else {
        spec_set_storage(
            spec_apply_writes(m, address, writes.drop_last()),
            address,
            writes.last().0,
            writes.last().1,
        )
    }
}

/// One account change: its info, then its writes.
pub open spec fn spec_apply_change(
    m: Map<u128, BundleAccountModel>,
    c: AccountChange,
) -> Map<u128, BundleAccountModel> {
    spec_apply_writes(spec_set_info(m, c.address as u128, c.info), c.address as u128, c.storage_writes@)
}

/// A whole diff: its changes in order.
pub open spec fn spec_apply_diff(
    m: Map<u128, BundleAccountModel>,
    changes: Seq<AccountChange>,
) -> Map<u128, BundleAccountModel>
    decreases changes.len(),
{
    if changes.len() == 0 {
        m
    } else {
        spec_apply_change(spec_apply_diff(m, changes.drop_last()), changes.last())
    }
}

/// All pending account changes of one build attempt.
pub struct BundleState {
    pub accounts: ListMap<BundleAccount>,
}

/// In a well-formed bundle, the account found at a key has a well-formed
/// slot map.
pub proof fn lemma_bundle_entry_wf(b: &BundleState, key: u128)
    requires
        b.wf(),
        b.accounts@.contains_key(key),
    ensures
        b.accounts@[key].storage.wf(),
{
    b.accounts.lemma_contains(key);
    let i = choose|i: int| 0 <= i < b.accounts.kv().len() && (#[trigger] b.accounts.kv()[i]).0 == key;
    b.accounts.lemma_kv_index(i);
}

impl BundleState {
    /// Well-formed: the account map and every account's slot map are.
    pub open spec fn wf(&self) -> bool {
        &&& self.accounts.wf()
        &&& forall|i: int|
            0 <= i < self.accounts.kv().len() ==> (#[trigger] self.accounts.kv()[i]).1.storage.wf()
    }

    /// The bundle as a map from address to pending account state.
    pub open spec fn model(&self) -> Map<u128, BundleAccountModel> {
        self.accounts@.map_values(|b: BundleAccount| b.model())
    }

    /// The bundle with its entries in insertion order, the shape the
    /// state-root capability consumes.
    pub open spec fn snap(&self) -> Seq<(u128, BundleAccountSnap)> {
        self.accounts.kv().map_values(|e: (u128, BundleAccount)| (e.0, e.1.snap()))
    }

    /// An empty bundle.
    pub fn new() -> (r: Self)
        ensures
            r.wf(),
            r.model() == Map::<u128, BundleAccountModel>::empty(),
            r.snap() == Seq::<(u128, BundleAccountSnap)>::empty(),
    {
        let r = BundleState { accounts: ListMap::new() };
        proof {
            assert(r.model() =~= Map::<u128, BundleAccountModel>::empty());
            assert(r.snap() =~= Seq::<(u128, BundleAccountSnap)>::empty());
        }
        r
    }

    /// Pending info of `address`, if the bundle touches it.
    pub fn get_info(&self, address: u64) -> (r: Option<AccountInfo>)
        requires
            self.wf(),
        ensures
            r == if self.model().contains_key(address as u128) {
                Some(self.model()[address as u128].info)
            } else {
                Option::<AccountInfo>::None
            },
    {
        match self.accounts.get(address as u128) {
            Some(acc) => Some(acc.info),
            None => None,
        }
    }

    /// Set the pending info of `address`, keeping its written slots.
    pub fn set_info(&mut self, address: u64, info: AccountInfo)
        requires
            old(self).wf(),
        ensures
            final(self).wf(),
            final(self).model() == spec_set_info(old(self).model(), address as u128, info),
    {
        let key = address as u128;
        let ghost pre = *self;
        match self.accounts.get_mut(key) {
            Some(acc) => {
                proof {
                    lemma_bundle_entry_wf(&pre, key);
                }
                acc.info = info;
            }
            None => {
                self.accounts.insert(key, BundleAccount { info, storage: ListMap::new() });
            }
        }
        proof {
            assert(self.model() =~= spec_set_info(pre.model(), key, info));
        }
    }

    /// Write `value` at `slot` of `address`, keeping the account's info and
    /// its other slots.
    pub fn set_storage(&mut self, address: u64, slot: u64, value: u64)
        requires
            old(self).wf(),
        ensures
            final(self).wf(),
            final(self).model() == spec_set_storage(old(self).model(), address as u128, slot, value),
    {
        let key = address as u128;
        let ghost pre = *self;
        match self.accounts.get_mut(key) {
            Some(acc) => {
                proof {
                    lemma_bundle_entry_wf(&pre, key);
                }
                acc.storage.insert(slot as u128, value);
            }
            None => {
                let mut st: ListMap<u64> = ListMap::new();
                st.insert(slot as u128, value);
                self.accounts.insert(
                    key,
                    (BundleAccount { info: AccountInfo::empty(), storage: st }),
                );
            }
        }
        proof {
            assert(self.model() =~= spec_set_storage(pre.model(), key, slot, value));
        }
    }

    /// Commit one account change: its post info, then its writes in order.
    pub fn apply_change(&mut self, change: &AccountChange)
        requires
            old(self).wf(),
        ensures
            final(self).wf(),
            final(self).model() == spec_apply_change(old(self).model(), *change),
    {
        self.set_info(change.address, change.info);
        let n = change.storage_writes.len();
        let ghost base = self.model();
        let mut i: usize = 0;
        while i < n
            invariant
                self.wf(),
                n == change.storage_writes@.len(),
                i <= n,
                self.model() == spec_apply_writes(
                    base,
                    change.address as u128,
                    change.storage_writes@.take(i as int),
                ),
            decreases n - i,
        {
            let (slot, value) = change.storage_writes[i];
            self.set_storage(change.address, slot, value);
            proof {
                assert(change.storage_writes@.take(i as int + 1).drop_last() =~= change.storage_writes@.take(
                    i as int,
                ));
            }
            i = i + 1;
        }
        proof {
            assert(change.storage_writes@.take(n as int) =~= change.storage_writes@);
        }
    }

    /// Commit a whole diff, change by change.
    pub fn apply_diff(&mut self, diff: &StateDiff)
        requires
            old(self).wf(),
        ensures
            final(self).wf(),
            final(self).model() == spec_apply_diff(old(self).model(), diff.changes@),
    {
        let n = diff.changes.len();
        let ghost base = self.model();
        let mut i: usize = 0;
        while i < n
            invariant
                self.wf(),
                n == diff.changes@.len(),
                i <= n,
                self.model() == spec_apply_diff(base, diff.changes@.take(i as int)),
            decreases n - i,
        {
            self.apply_change(&diff.changes[i]);
            proof {
                assert(diff.changes@.take(i as int + 1).drop_last() =~= diff.changes@.take(i as int));
            }
            i = i + 1;
        }
        proof {
            assert(diff.changes@.take(n as int) =~= diff.changes@);
        }
    }
}

} // verus!
