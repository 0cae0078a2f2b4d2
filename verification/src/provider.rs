//! The state-provider capability: synchronous, read-only lookups keyed at
//! one fixed parent block, plus the state-root computation over a bundle of
//! pending changes.
//!
//! The trait carries the contract the rest of the crate is verified
//! against; [`MemoryProvider`] is the in-memory implementation, usable both
//! as a test fixture and as the backing store of a self-contained node.

use vstd::prelude::*;

use crate::bundle::{BundleAccountSnap, BundleState};
use crate::keys::{pack_key, spec_pack_key};
use crate::listmap::ListMap;
use crate::roots::{mix, mix_wide, spec_bundle_root, spec_slots_digest, BUNDLE_SEED};
use crate::types::{AccountInfo, ProviderError};

verus! {

/// Ghost shape of a provider's world: total maps from key to answer, and
/// the root function its state-root capability computes.
pub struct StateModel {
    /// Account info by address; `None` is a definitive "does not exist".
    pub accounts: Map<u64, Option<AccountInfo>>,
    /// Storage word by (address, slot); unset slots read zero.
    pub storage: Map<(u64, u64), u64>,
    /// Bytecode by code hash.
    pub code: Map<u64, Seq<u8>>,
    /// Block hash by block number.
    pub block_hashes: Map<u64, u64>,
    /// The state root the provider computes for a bundle of pending
    /// changes.
    pub root_of: spec_fn(Seq<(u128, BundleAccountSnap)>) -> u64,
}

/// A read-only state source keyed at one parent block.
///
/// Lookups may fail (a backing store is behind them), but whatever they
/// return is drawn from one immutable [`StateModel`]: the model never
/// changes across calls, and each lookup performs exactly one underlying
/// read while the read counter is below its width.
pub trait StateProvider: Sized {
    /// The provider's immutable world.
    spec fn state(&self) -> StateModel;

    /// How many underlying reads the provider has performed.
    spec fn reads(&self) -> nat;

    /// Account info of `address`; `Ok(None)` means the account definitely
    /// does not exist.
    fn basic_ref(&mut self, address: u64) -> (r: Result<Option<AccountInfo>, ProviderError>)
        ensures
            final(self).state() == old(self).state(),
            final(self).reads() >= old(self).reads(),
            final(self).reads() <= old(self).reads() + 1,
            old(self).reads() < u64::MAX ==> final(self).reads() == old(self).reads() + 1,
            (r matches Ok(v) ==> v == old(self).state().accounts[address]),
    ;

    /// Storage word of `address` at `index`.
    fn storage_ref(&mut self, address: u64, index: u64) -> (r: Result<u64, ProviderError>)
        ensures
            final(self).state() == old(self).state(),
            final(self).reads() >= old(self).reads(),
            final(self).reads() <= old(self).reads() + 1,
            old(self).reads() < u64::MAX ==> final(self).reads() == old(self).reads() + 1,
            (r matches Ok(v) ==> v == old(self).state().storage[(address, index)]),
    ;

    /// Bytecode of `code_hash`.
    fn code_by_hash_ref(&mut self, code_hash: u64) -> (r: Result<Vec<u8>, ProviderError>)
        ensures
            final(self).state() == old(self).state(),
            final(self).reads() >= old(self).reads(),
            final(self).reads() <= old(self).reads() + 1,
            old(self).reads() < u64::MAX ==> final(self).reads() == old(self).reads() + 1,
            (r matches Ok(v) ==> v@ == old(self).state().code[code_hash]),
    ;

    /// Hash of block `number`.
    fn block_hash_ref(&mut self, number: u64) -> (r: Result<u64, ProviderError>)
        ensures
            final(self).state() == old(self).state(),
            final(self).reads() >= old(self).reads(),
            final(self).reads() <= old(self).reads() + 1,
            old(self).reads() < u64::MAX ==> final(self).reads() == old(self).reads() + 1,
            (r matches Ok(v) ==> v == old(self).state().block_hashes[number]),
    ;

    /// The state root of the pending bundle; not a cached read, so the
    /// read counter does not move.
    fn state_root(&mut self, bundle: &BundleState) -> (r: Result<u64, ProviderError>)
        ensures
            final(self).state() == old(self).state(),
            final(self).reads() == old(self).reads(),
            (r matches Ok(v) ==> v == (old(self).state().root_of)(bundle.snap())),
    ;
}

/// An in-memory state provider with a read counter and an optional
/// programmed failure point.
pub struct MemoryProvider {
    accounts: ListMap<AccountInfo>,
    storage: ListMap<u64>,
    code: ListMap<Vec<u8>>,
    block_hashes: ListMap<u64>,
    lookups: u64,
    fail_after: Option<u64>,
}

impl MemoryProvider {
    #[verifier::type_invariant]
    spec fn inv(self) -> bool {
        &&& self.accounts.wf()
        &&& self.storage.wf()
        &&& self.code.wf()
        &&& self.block_hashes.wf()
    }

    /// A provider over empty state: every account absent, every slot and
    /// block hash zero, every code empty.
    pub fn new() -> (r: Self)
        ensures
            r.reads() == 0,
            forall|a: u64| (#[trigger] r.state().accounts[a]) is None,
            forall|p: (u64, u64)| (#[trigger] r.state().storage[p]) == 0u64,
            forall|h: u64| (#[trigger] r.state().code[h]) == Seq::<u8>::empty(),
            forall|n: u64| (#[trigger] r.state().block_hashes[n]) == 0u64,
            forall|s: Seq<(u128, BundleAccountSnap)>|
                ((#[trigger] (r.state().root_of)(s))) == spec_bundle_root(s),
    {
        MemoryProvider {
            accounts: ListMap::new(),
            storage: ListMap::new(),
            code: ListMap::new(),
            block_hashes: ListMap::new(),
            lookups: 0,
            fail_after: None,
        }
    }

    /// Seed an account.
    pub fn put_account(&mut self, address: u64, info: AccountInfo)
        ensures
            final(self).reads() == old(self).reads(),
            final(self).state().accounts == old(self).state().accounts.insert(
                address,
                Some(info),
            ),
            final(self).state().storage == old(self).state().storage,
            final(self).state().code == old(self).state().code,
            final(self).state().block_hashes == old(self).state().block_hashes,
            final(self).state().root_of == old(self).state().root_of,
    {
        proof {
            use_type_invariant(&*self);
        }
        let mut m: ListMap<AccountInfo> = ListMap::new();
        core::mem::swap(&mut m, &mut self.accounts);
        m.insert(address as u128, info);
        core::mem::swap(&mut m, &mut self.accounts);
        proof {
            assert(self.state().accounts =~= old(self).state().accounts.insert(
                address,
                Some(info),
            ));
            assert(self.state().storage =~= old(self).state().storage);
            assert(self.state().code =~= old(self).state().code);
            assert(self.state().block_hashes =~= old(self).state().block_hashes);
        }
    }

    /// Seed one storage word.
    pub fn put_storage(&mut self, address: u64, slot: u64, value: u64)
        ensures
            final(self).reads() == old(self).reads(),
            final(self).state().accounts == old(self).state().accounts,
            final(self).state().storage == old(self).state().storage.insert(
                (address, slot),
                value,
            ),
            final(self).state().code == old(self).state().code,
            final(self).state().block_hashes == old(self).state().block_hashes,
            final(self).state().root_of == old(self).state().root_of,
    {
        proof {
            use_type_invariant(&*self);
        }
        let key = pack_key(address, slot);
        let mut m: ListMap<u64> = ListMap::new();
        core::mem::swap(&mut m, &mut self.storage);
        m.insert(key, value);
        core::mem::swap(&mut m, &mut self.storage);
        proof {
            assert forall|p: (u64, u64)| #[trigger] self.state().storage[p] == old(
                self,
            ).state().storage.insert((address, slot), value)[p] by {
                crate::keys::lemma_pack_key(p.0, p.1);
                crate::keys::lemma_pack_key(address, slot);
            }
            assert(self.state().storage =~= old(self).state().storage.insert(
                (address, slot),
                value,
            ));
            assert(self.state().accounts =~= old(self).state().accounts);
            assert(self.state().code =~= old(self).state().code);
            assert(self.state().block_hashes =~= old(self).state().block_hashes);
        }
    }

    /// Seed bytecode under its hash.
    pub fn put_code(&mut self, hash: u64, code: Vec<u8>)
        ensures
            final(self).reads() == old(self).reads(),
            final(self).state().accounts == old(self).state().accounts,
            final(self).state().storage == old(self).state().storage,
            final(self).state().code == old(self).state().code.insert(hash, code@),
            final(self).state().block_hashes == old(self).state().block_hashes,
            final(self).state().root_of == old(self).state().root_of,
    {
        proof {
            use_type_invariant(&*self);
        }
        let mut m: ListMap<Vec<u8>> = ListMap::new();
        core::mem::swap(&mut m, &mut self.code);
        m.insert(hash as u128, code);
        core::mem::swap(&mut m, &mut self.code);
        proof {
            assert(self.state().code =~= old(self).state().code.insert(hash, code@));
            assert(self.state().accounts =~= old(self).state().accounts);
            assert(self.state().storage =~= old(self).state().storage);
            assert(self.state().block_hashes =~= old(self).state().block_hashes);
        }
    }

    /// Seed the hash of one block number.
    pub fn put_block_hash(&mut self, number: u64, hash: u64)
        ensures
            final(self).reads() == old(self).reads(),
            final(self).state().accounts == old(self).state().accounts,
            final(self).state().storage == old(self).state().storage,
            final(self).state().code == old(self).state().code,
            final(self).state().block_hashes == old(self).state().block_hashes.insert(
                number,
                hash,
            ),
            final(self).state().root_of == old(self).state().root_of,
    {
        proof {
            use_type_invariant(&*self);
        }
        let mut m: ListMap<u64> = ListMap::new();
        core::mem::swap(&mut m, &mut self.block_hashes);
        m.insert(number as u128, hash);
        core::mem::swap(&mut m, &mut self.block_hashes);
        proof {
            assert(self.state().block_hashes =~= old(self).state().block_hashes.insert(
                number,
                hash,
            ));
            assert(self.state().accounts =~= old(self).state().accounts);
            assert(self.state().storage =~= old(self).state().storage);
            assert(self.state().code =~= old(self).state().code);
        }
    }

    /// Make every lookup from the `n`-th one on fail, counting from now;
    /// `None` clears the failure point.
    pub fn set_fail_after(&mut self, n: Option<u64>)
        ensures
            final(self).state() == old(self).state(),
            final(self).reads() == old(self).reads(),
    {
        proof {
            use_type_invariant(&*self);
        }
        self.fail_after = n;
    }

    /// The reads performed so far, as the counter holds them.
    pub fn lookup_count(&self) -> (r: u64)
        ensures
            r as nat == self.reads(),
    {
        self.lookups
    }

    /// Count one underlying read and report whether it must fail.
    fn tick(&mut self) -> (fail: bool)
        ensures
            final(self).state() == old(self).state(),
            final(self).inv() == old(self).inv(),
            final(self).accounts == old(self).accounts,
            final(self).storage == old(self).storage,
            final(self).code == old(self).code,
            final(self).block_hashes == old(self).block_hashes,
            final(self).reads() >= old(self).reads(),
            final(self).reads() <= old(self).reads() + 1,
            old(self).reads() < u64::MAX ==> final(self).reads() == old(self).reads() + 1,
            fail == (old(self).fail_after == Some(0u64)),
    {
        proof {
            use_type_invariant(&*self);
        }
        if self.lookups < u64::MAX {
            self.lookups = self.lookups + 1;
        }
        match self.fail_after {
            Some(n) => {
                if n == 0 {
                    true
                } else {
                    self.fail_after = Some(n - 1);
                    false
                }
            }
            None => false,
        }
    }
}

impl StateProvider for MemoryProvider {
    closed spec fn state(&self) -> StateModel {
        StateModel {
            accounts: Map::new(
                |a: u64| true,
                |a: u64|
                    if self.accounts@.contains_key(a as u128) {
                        Some(self.accounts@[a as u128])
                    } else {
                        None
                    },
            ),
            storage: Map::new(
                |p: (u64, u64)| true,
                |p: (u64, u64)|
                    if self.storage@.contains_key(spec_pack_key(p.0, p.1)) {
                        self.storage@[spec_pack_key(p.0, p.1)]
                    } else {
                        0u64
                    },
            ),
            code: Map::new(
                |h: u64| true,
                |h: u64|
                    if self.code@.contains_key(h as u128) {
                        self.code@[h as u128]@
                    } else {
                        Seq::<u8>::empty()
                    },
            ),
            block_hashes: Map::new(
                |n: u64| true,
                |n: u64|
                    if self.block_hashes@.contains_key(n as u128) {
                        self.block_hashes@[n as u128]
                    } else {
                        0u64
                    },
            ),
            root_of: |s: Seq<(u128, BundleAccountSnap)>| spec_bundle_root(s),
        }
    }

    closed spec fn reads(&self) -> nat {
        self.lookups as nat
    }

    fn basic_ref(&mut self, address: u64) -> (r: Result<Option<AccountInfo>, ProviderError>) {
        if self.tick() {
            return Err(ProviderError::Backend);
        }
        proof {
            use_type_invariant(&*self);
        }
        match self.accounts.get(address as u128) {
            Some(info) => Ok(Some(*info)),
            None => Ok(None),
        }
    }

    fn storage_ref(&mut self, address: u64, index: u64) -> (r: Result<u64, ProviderError>) {
        if self.tick() {
            return Err(ProviderError::Backend);
        }
        proof {
            use_type_invariant(&*self);
        }
        let key = pack_key(address, index);
        match self.storage.get(key) {
            Some(v) => Ok(*v),
            None => Ok(0),
        }
    }

    fn code_by_hash_ref(&mut self, code_hash: u64) -> (r: Result<Vec<u8>, ProviderError>) {
        if self.tick() {
            return Err(ProviderError::Backend);
        }
        proof {
            use_type_invariant(&*self);
        }
        match self.code.get(code_hash as u128) {
            Some(code) => {
                let c = code.clone();
                proof {
                    assert(c@ =~= self.code@[code_hash as u128]@);
                }
                Ok(c)
            }
            None => Ok(Vec::new()),
        }
    }

    fn block_hash_ref(&mut self, number: u64) -> (r: Result<u64, ProviderError>) {
        if self.tick() {
            return Err(ProviderError::Backend);
        }
        proof {
            use_type_invariant(&*self);
        }
        match self.block_hashes.get(number as u128) {
            Some(h) => Ok(*h),
            None => Ok(0),
        }
    }

    #[verifier::loop_isolation(false)]
    fn state_root(&mut self, bundle: &BundleState) -> (r: Result<u64, ProviderError>) {
        match self.fail_after {
            Some(n) => {
                if n == 0 {
                    return Err(ProviderError::Backend);
                }
            }
            None => {}
        }
        let mut acc: u64 = BUNDLE_SEED;
        let n = bundle.accounts.len();
        let mut i: usize = 0;
        while i < n
            invariant
                i <= n,
                acc == spec_bundle_root(bundle.snap().take(i as int)),
            decreases n - i,
        {
            let key = bundle.accounts.key_at(i);
            let ba = bundle.accounts.value_at(i);
            acc = mix_wide(acc, key);
            acc = mix_wide(acc, ba.info.balance);
            acc = mix(acc, ba.info.nonce);
            acc = mix(acc, ba.info.code_hash);
            let ghost slots_base = acc;
            let m = ba.storage.len();
            let mut j: usize = 0;
            while j < m
                invariant
                    j <= m,
                    acc == spec_slots_digest(slots_base, ba.storage.kv().take(j as int)),
                decreases m - j,
            {
                let sk = ba.storage.key_at(j);
                let sv = *ba.storage.value_at(j);
                acc = mix(mix_wide(acc, sk), sv);
                proof {
                    assert(ba.storage.kv().take(j as int + 1).drop_last() =~= ba.storage.kv().take(
                        j as int,
                    ));
                }
                j = j + 1;
            }
            proof {
                assert(ba.storage.kv().take(m as int) =~= ba.storage.kv());
                assert(bundle.snap().take(i as int + 1).drop_last() =~= bundle.snap().take(
                    i as int,
                ));
                assert(bundle.snap()[i as int] == (
                    bundle.accounts.kv()[i as int].0,
                    bundle.accounts.kv()[i as int].1.snap(),
                ));
            }
            i = i + 1;
        }
        proof {
            assert(bundle.snap().take(n as int) =~= bundle.snap());
        }
        Ok(acc)
    }
}

} // verus!
