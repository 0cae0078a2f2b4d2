//! The chain-qualified read cache: the same read-through behaviour as
//! [`crate::cache::CachedReads`], but with every key scoped by a chain id,
//! so one process can cache state for several distinct chains without key
//! collision.
//!
//! Keys are packed (chain id, word) pairs; the conversions to and from the
//! plain cache live in [`crate::conversions`].

use vstd::prelude::*;

use crate::cache::{
    cache_with_account, cache_with_block_hash, cache_with_code, cache_with_slot, cache_extends,
    CachedAccount, CachedAccountModel, CachedReadsModel,
};
use crate::keys::{pack_key, spec_pack_key};
use crate::listmap::ListMap;
use crate::provider::StateModel;
use crate::types::{AccountInfo, ProviderError};

verus! {

/// An address together with the chain it lives on.
#[derive(Clone, Copy, Debug, PartialEq, Eq, Structural)]
pub struct ChainAddress(pub u64, pub u64);

/// A read-only state source spanning several chains, each with its own
/// immutable world.
pub trait SyncStateProvider: Sized {
    /// The world of one chain.
    spec fn state_of(&self, chain_id: u64) -> StateModel;

    /// How many underlying reads the provider has performed, over all
    /// chains.
    spec fn reads(&self) -> nat;

    /// Account info of `address` on its chain.
    fn basic_ref(&mut self, address: ChainAddress) -> (r: Result<
        Option<AccountInfo>,
        ProviderError,
    >)
        ensures
            forall|c: u64| #[trigger] final(self).state_of(c) == old(self).state_of(c),
            final(self).reads() >= old(self).reads(),
            final(self).reads() <= old(self).reads() + 1,
            old(self).reads() < u64::MAX ==> final(self).reads() == old(self).reads() + 1,
            (r matches Ok(v) ==> v == old(self).state_of(address.0).accounts[address.1]),
    ;

    /// Storage word of `address` at `index` on its chain.
    fn storage_ref(&mut self, address: ChainAddress, index: u64) -> (r: Result<u64, ProviderError>)
        ensures
            forall|c: u64| #[trigger] final(self).state_of(c) == old(self).state_of(c),
            final(self).reads() >= old(self).reads(),
            final(self).reads() <= old(self).reads() + 1,
            old(self).reads() < u64::MAX ==> final(self).reads() == old(self).reads() + 1,
            (r matches Ok(v) ==> v == old(self).state_of(address.0).storage[
                (address.1, index)
            ]),
    ;

    /// Bytecode of `code_hash` on `chain_id`.
    fn code_by_hash_ref(&mut self, chain_id: u64, code_hash: u64) -> (r: Result<
        Vec<u8>,
        ProviderError,
    >)
        ensures
            forall|c: u64| #[trigger] final(self).state_of(c) == old(self).state_of(c),
            final(self).reads() >= old(self).reads(),
            final(self).reads() <= old(self).reads() + 1,
            old(self).reads() < u64::MAX ==> final(self).reads() == old(self).reads() + 1,
            (r matches Ok(v) ==> v@ == old(self).state_of(chain_id).code[code_hash]),
    ;

    /// Hash of block `number` on `chain_id`.
    fn block_hash_ref(&mut self, chain_id: u64, number: u64) -> (r: Result<u64, ProviderError>)
        ensures
            forall|c: u64| #[trigger] final(self).state_of(c) == old(self).state_of(c),
            final(self).reads() >= old(self).reads(),
            final(self).reads() <= old(self).reads() + 1,
            old(self).reads() < u64::MAX ==> final(self).reads() == old(self).reads() + 1,
            (r matches Ok(v) ==> v == old(self).state_of(chain_id).block_hashes[number]),
    ;
}

/// An in-memory multi-chain state provider.
pub struct MemorySyncProvider {
    accounts: ListMap<AccountInfo>,
    storage: ListMap<ListMap<u64>>,
    code: ListMap<Vec<u8>>,
    block_hashes: ListMap<u64>,
    lookups: u64,
}

impl MemorySyncProvider {
    #[verifier::type_invariant]
    spec fn inv(self) -> bool {
        &&& self.accounts.wf()
        &&& self.storage.wf()
        &&& self.code.wf()
        &&& self.block_hashes.wf()
        &&& forall|i: int|
            0 <= i < self.storage.kv().len() ==> (#[trigger] self.storage.kv()[i]).1.wf()
    }

    /// A provider over empty state on every chain.
    pub fn new() -> (r: Self)
        ensures
            r.reads() == 0,
            forall|c: u64, a: u64| (#[trigger] r.state_of(c).accounts[a]) is None,
            forall|c: u64, p: (u64, u64)| (#[trigger] r.state_of(c).storage[p]) == 0u64,
            forall|c: u64, h: u64| (#[trigger] r.state_of(c).code[h]) == Seq::<u8>::empty(),
            forall|c: u64, n: u64| (#[trigger] r.state_of(c).block_hashes[n]) == 0u64,
    {
        MemorySyncProvider {
            accounts: ListMap::new(),
            storage: ListMap::new(),
            code: ListMap::new(),
            block_hashes: ListMap::new(),
            lookups: 0,
        }
    }

    /// Seed an account on one chain.
    pub fn put_account(&mut self, address: ChainAddress, info: AccountInfo)
        ensures
            final(self).reads() == old(self).reads(),
            forall|c: u64| #[trigger]
                final(self).state_of(c).accounts == if c == address.0 {
                    old(self).state_of(c).accounts.insert(address.1, Some(info))
                } else {
                    old(self).state_of(c).accounts
                },
            forall|c: u64| #[trigger] final(self).state_of(c).storage == old(self).state_of(
                c,
            ).storage,
            forall|c: u64| #[trigger] final(self).state_of(c).code == old(self).state_of(c).code,
            forall|c: u64| #[trigger] final(self).state_of(c).block_hashes == old(self).state_of(
                c,
            ).block_hashes,
    {
        proof {
            use_type_invariant(&*self);
        }
        let key = pack_key(address.0, address.1);
        let mut m: ListMap<AccountInfo> = ListMap::new();
        core::mem::swap(&mut m, &mut self.accounts);
        m.insert(key, info);
        core::mem::swap(&mut m, &mut self.accounts);
        proof {
            assert forall|c: u64| #[trigger]
                final(self).state_of(c).accounts == if c == address.0 {
                    old(self).state_of(c).accounts.insert(address.1, Some(info))
                } else {
                    old(self).state_of(c).accounts
                } by {
                assert forall|a: u64| #[trigger] self.state_of(c).accounts[a] == (if c == address.0 {
                    old(self).state_of(c).accounts.insert(address.1, Some(info))
                } else {
                    old(self).state_of(c).accounts
                })[a] by {
                    crate::keys::lemma_pack_key(c, a);
                    crate::keys::lemma_pack_key(address.0, address.1);
                }
                if c == address.0 {
                    assert(self.state_of(c).accounts =~= old(self).state_of(c).accounts.insert(
                        address.1,
                        Some(info),
                    ));
                } else {
                    assert(self.state_of(c).accounts =~= old(self).state_of(c).accounts);
                }
            }
        }
    }

    /// Seed one storage word on one chain.
    pub fn put_storage(&mut self, address: ChainAddress, slot: u64, value: u64)
        ensures
            final(self).reads() == old(self).reads(),
            forall|c: u64| #[trigger]
                final(self).state_of(c).storage == if c == address.0 {
                    old(self).state_of(c).storage.insert((address.1, slot), value)
                } else {
                    old(self).state_of(c).storage
                },
            forall|c: u64| #[trigger] final(self).state_of(c).accounts == old(self).state_of(
                c,
            ).accounts,
            forall|c: u64| #[trigger] final(self).state_of(c).code == old(self).state_of(c).code,
            forall|c: u64| #[trigger] final(self).state_of(c).block_hashes == old(self).state_of(
                c,
            ).block_hashes,
    {
        proof {
            use_type_invariant(&*self);
        }
        let key = pack_key(address.0, address.1);
        let ghost pre = *self;
        let mut m: ListMap<ListMap<u64>> = ListMap::new();
        core::mem::swap(&mut m, &mut self.storage);
        match m.get_mut(key) {
            Some(inner) => {
                proof {
                    pre.storage.lemma_contains(key);
                    let i = choose|i: int|
                        0 <= i < pre.storage.kv().len() && (#[trigger] pre.storage.kv()[i]).0
                            == key;
                    pre.storage.lemma_kv_index(i);
                }
                inner.insert(slot as u128, value);
            }
            None => {
                let mut inner: ListMap<u64> = ListMap::new();
                inner.insert(slot as u128, value);
                m.insert(key, inner);
            }
        }
        core::mem::swap(&mut m, &mut self.storage);
        proof {
            assert forall|c: u64| #[trigger]
                final(self).state_of(c).storage == if c == address.0 {
                    old(self).state_of(c).storage.insert((address.1, slot), value)
                } else {
                    old(self).state_of(c).storage
                } by {
                assert forall|p: (u64, u64)| #[trigger] self.state_of(c).storage[p] == (if c
                    == address.0 {
                    old(self).state_of(c).storage.insert((address.1, slot), value)
                } else {
                    old(self).state_of(c).storage
                })[p] by {
                    crate::keys::lemma_pack_key(c, p.0);
                    crate::keys::lemma_pack_key(address.0, address.1);
                }
                if c == address.0 {
                    assert(self.state_of(c).storage =~= old(self).state_of(c).storage.insert(
                        (address.1, slot),
                        value,
                    ));
                } else {
                    assert(self.state_of(c).storage =~= old(self).state_of(c).storage);
                }
            }
        }
    }

    /// Seed bytecode on one chain.
    pub fn put_code(&mut self, chain_id: u64, hash: u64, code: Vec<u8>)
        ensures
            final(self).reads() == old(self).reads(),
            forall|c: u64| #[trigger]
                final(self).state_of(c).code == if c == chain_id {
                    old(self).state_of(c).code.insert(hash, code@)
                } else {
                    old(self).state_of(c).code
                },
            forall|c: u64| #[trigger] final(self).state_of(c).accounts == old(self).state_of(
                c,
            ).accounts,
            forall|c: u64| #[trigger] final(self).state_of(c).storage == old(self).state_of(
                c,
            ).storage,
            forall|c: u64| #[trigger] final(self).state_of(c).block_hashes == old(self).state_of(
                c,
            ).block_hashes,
    {
        proof {
            use_type_invariant(&*self);
        }
        let key = pack_key(chain_id, hash);
        let mut m: ListMap<Vec<u8>> = ListMap::new();
        core::mem::swap(&mut m, &mut self.code);
        m.insert(key, code);
        core::mem::swap(&mut m, &mut self.code);
        proof {
            assert forall|c: u64| #[trigger]
                final(self).state_of(c).code == if c == chain_id {
                    old(self).state_of(c).code.insert(hash, code@)
                } else {
                    old(self).state_of(c).code
                } by {
                assert forall|h: u64| #[trigger] self.state_of(c).code[h] == (if c == chain_id {
                    old(self).state_of(c).code.insert(hash, code@)
                } else {
                    old(self).state_of(c).code
                })[h] by {
                    crate::keys::lemma_pack_key(c, h);
                    crate::keys::lemma_pack_key(chain_id, hash);
                }
                if c == chain_id {
                    assert(self.state_of(c).code =~= old(self).state_of(c).code.insert(
                        hash,
                        code@,
                    ));
                } else {
                    assert(self.state_of(c).code =~= old(self).state_of(c).code);
                }
            }
        }
    }

    /// Seed the hash of one block number on one chain.
    pub fn put_block_hash(&mut self, chain_id: u64, number: u64, hash: u64)
        ensures
            final(self).reads() == old(self).reads(),
            forall|c: u64| #[trigger]
                final(self).state_of(c).block_hashes == if c == chain_id {
                    old(self).state_of(c).block_hashes.insert(number, hash)
                } else {
                    old(self).state_of(c).block_hashes
                },
            forall|c: u64| #[trigger] final(self).state_of(c).accounts == old(self).state_of(
                c,
            ).accounts,
            forall|c: u64| #[trigger] final(self).state_of(c).storage == old(self).state_of(
                c,
            ).storage,
            forall|c: u64| #[trigger] final(self).state_of(c).code == old(self).state_of(c).code,
    {
        proof {
            use_type_invariant(&*self);
        }
        let key = pack_key(chain_id, number);
        let mut m: ListMap<u64> = ListMap::new();
        core::mem::swap(&mut m, &mut self.block_hashes);
        m.insert(key, hash);
        core::mem::swap(&mut m, &mut self.block_hashes);
        proof {
            assert forall|c: u64| #[trigger]
                final(self).state_of(c).block_hashes == if c == chain_id {
                    old(self).state_of(c).block_hashes.insert(number, hash)
                } else {
                    old(self).state_of(c).block_hashes
                } by {
                assert forall|n: u64| #[trigger] self.state_of(c).block_hashes[n] == (if c
                    == chain_id {
                    old(self).state_of(c).block_hashes.insert(number, hash)
                } else {
                    old(self).state_of(c).block_hashes
                })[n] by {
                    crate::keys::lemma_pack_key(c, n);
                    crate::keys::lemma_pack_key(chain_id, number);
                }
                if c == chain_id {
                    assert(self.state_of(c).block_hashes =~= old(self).state_of(
                        c,
                    ).block_hashes.insert(number, hash));
                } else {
                    assert(self.state_of(c).block_hashes =~= old(self).state_of(c).block_hashes);
                }
            }
        }
    }

    /// The reads performed so far, as the counter holds them.
    pub fn lookup_count(&self) -> (r: u64)
        ensures
            r as nat == self.reads(),
    {
        self.lookups
    }

    /// Count one underlying read.
    fn tick(&mut self)
        ensures
            forall|c: u64| #[trigger] final(self).state_of(c) == old(self).state_of(c),
            final(self).inv() == old(self).inv(),
            final(self).accounts == old(self).accounts,
            final(self).storage == old(self).storage,
            final(self).code == old(self).code,
            final(self).block_hashes == old(self).block_hashes,
            final(self).reads() >= old(self).reads(),
            final(self).reads() <= old(self).reads() + 1,
            old(self).reads() < u64::MAX ==> final(self).reads() == old(self).reads() + 1,
    {
        proof {
            use_type_invariant(&*self);
        }
        if self.lookups < u64::MAX {
            self.lookups = self.lookups + 1;
        }
    }
}

impl SyncStateProvider for MemorySyncProvider {
    closed spec fn state_of(&self, chain_id: u64) -> StateModel {
        StateModel {
            accounts: Map::new(
                |a: u64| true,
                |a: u64|
                    if self.accounts@.contains_key(spec_pack_key(chain_id, a)) {
                        Some(self.accounts@[spec_pack_key(chain_id, a)])
                    } else {
                        None
                    },
            ),
            storage: Map::new(
                |p: (u64, u64)| true,
                |p: (u64, u64)|
                    if self.storage@.contains_key(spec_pack_key(chain_id, p.0))
                        && self.storage@[spec_pack_key(chain_id, p.0)]@.contains_key(
                        p.1 as u128,
                    ) {
                        self.storage@[spec_pack_key(chain_id, p.0)]@[p.1 as u128]
                    } else {
                        0u64
                    },
            ),
            code: Map::new(
                |h: u64| true,
                |h: u64|
                    if self.code@.contains_key(spec_pack_key(chain_id, h)) {
                        self.code@[spec_pack_key(chain_id, h)]@
                    } else {
                        Seq::<u8>::empty()
                    },
            ),
            block_hashes: Map::new(
                |n: u64| true,
                |n: u64|
                    if self.block_hashes@.contains_key(spec_pack_key(chain_id, n)) {
                        self.block_hashes@[spec_pack_key(chain_id, n)]
                    } else {
                        0u64
                    },
            ),
            root_of: |s: Seq<(u128, crate::bundle::BundleAccountSnap)>|
                crate::roots::spec_bundle_root(s),
        }
    }

    closed spec fn reads(&self) -> nat {
        self.lookups as nat
    }

    fn basic_ref(&mut self, address: ChainAddress) -> (r: Result<
        Option<AccountInfo>,
        ProviderError,
    >) {
        self.tick();
        proof {
            use_type_invariant(&*self);
        }
        let key = pack_key(address.0, address.1);
        match self.accounts.get(key) {
            Some(info) => Ok(Some(*info)),
            None => Ok(None),
        }
    }

    fn storage_ref(&mut self, address: ChainAddress, index: u64) -> (r: Result<u64, ProviderError>) {
        self.tick();
        proof {
            use_type_invariant(&*self);
        }
        let key = pack_key(address.0, address.1);
        match self.storage.get(key) {
            Some(inner) => {
                proof {
                    self.storage.lemma_contains(key);
                    let i = choose|i: int|
                        0 <= i < self.storage.kv().len() && (#[trigger] self.storage.kv()[i]).0
                            == key;
                    self.storage.lemma_kv_index(i);
                }
                match inner.get(index as u128) {
                    Some(v) => Ok(*v),
                    None => Ok(0),
                }
            }
            None => Ok(0),
        }
    }

    fn code_by_hash_ref(&mut self, chain_id: u64, code_hash: u64) -> (r: Result<
        Vec<u8>,
        ProviderError,
    >) {
        self.tick();
        proof {
            use_type_invariant(&*self);
        }
        let key = pack_key(chain_id, code_hash);
        match self.code.get(key) {
            Some(code) => {
                let c = code.clone();
                proof {
                    assert(c@ =~= self.code@[key]@);
                }
                Ok(c)
            }
            None => Ok(Vec::new()),
        }
    }

    fn block_hash_ref(&mut self, chain_id: u64, number: u64) -> (r: Result<u64, ProviderError>) {
        self.tick();
        proof {
            use_type_invariant(&*self);
        }
        let key = pack_key(chain_id, number);
        match self.block_hashes.get(key) {
            Some(h) => Ok(*h),
            None => Ok(0),
        }
    }
}

/// The chain-qualified read cache: the plain cache's behaviour with every
/// key scoped by a chain id.
pub struct SyncCachedReads {
    pub accounts: ListMap<CachedAccount>,
    pub contracts: ListMap<Vec<u8>>,
    pub block_hashes: ListMap<u64>,
}

/// In a well-formed chain-qualified cache, the account found at a key has
/// a well-formed slot map.
pub proof fn lemma_sync_cache_entry_wf(c: &SyncCachedReads, key: u128)
    requires
        c.wf(),
        c.accounts@.contains_key(key),
    ensures
        c.accounts@[key].storage.wf(),
{
    c.accounts.lemma_contains(key);
    let i = choose|i: int| 0 <= i < c.accounts.kv().len() && (#[trigger] c.accounts.kv()[i]).0 == key;
    c.accounts.lemma_kv_index(i);
}

impl SyncCachedReads {
    /// Well-formed: every backing map is, including each account's slots.
    pub open spec fn wf(&self) -> bool {
        &&& self.accounts.wf()
        &&& self.contracts.wf()
        &&& self.block_hashes.wf()
        &&& forall|i: int|
            0 <= i < self.accounts.kv().len() ==> (#[trigger] self.accounts.kv()[i]).1.storage.wf()
    }

    /// The cache's ghost shape, keyed by packed (chain id, word) pairs.
    pub open spec fn model(&self) -> CachedReadsModel {
        CachedReadsModel {
            accounts: self.accounts@.map_values(|a: CachedAccount| a.model()),
            contracts: self.contracts@.map_values(|c: Vec<u8>| c@),
            block_hashes: self.block_hashes@,
        }
    }

    /// An empty chain-qualified cache.
    pub fn new() -> (r: Self)
        ensures
            r.wf(),
            r.model().accounts == Map::<u128, CachedAccountModel>::empty(),
            r.model().contracts == Map::<u128, Seq<u8>>::empty(),
            r.model().block_hashes == Map::<u128, u64>::empty(),
    {
        let r = SyncCachedReads {
            accounts: ListMap::new(),
            contracts: ListMap::new(),
            block_hashes: ListMap::new(),
        };
        proof {
            assert(r.model().accounts =~= Map::<u128, CachedAccountModel>::empty());
            assert(r.model().contracts =~= Map::<u128, Seq<u8>>::empty());
        }
        r
    }

    /// Seed an account entry for one chain without querying any provider.
    pub fn insert_account(&mut self, address: ChainAddress, info: AccountInfo, storage: ListMap<u64>)
        requires
            old(self).wf(),
            storage.wf(),
        ensures
            final(self).wf(),
            final(self).model() == cache_with_account(
                old(self).model(),
                spec_pack_key(address.0, address.1),
                Some(info),
                storage@,
            ),
    {
        let ghost pre = *self;
        let key = pack_key(address.0, address.1);
        self.accounts.insert(key, CachedAccount { info: Some(info), storage });
        proof {
            assert(self.model().accounts =~= cache_with_account(
                pre.model(),
                spec_pack_key(address.0, address.1),
                Some(info),
                storage@,
            ).accounts);
        }
    }

    /// Move the cache into an exclusively-owned adapter over `db`.
    pub fn as_db_mut<P: SyncStateProvider>(self, db: P) -> (r: SyncCachedReadsDbMut<P>)
        ensures
            r.cached == self,
            r.db == db,
    {
        SyncCachedReadsDbMut { cached: self, db }
    }

    /// Move the cache into a single-borrower guarded adapter over `db`.
    pub fn as_db<P: SyncStateProvider>(self, db: P) -> (r: SyncCachedReadsDBRef<P>)
        ensures
            r.inner == Some(SyncCachedReadsDbMut { cached: self, db }),
    {
        SyncCachedReadsDBRef { inner: Some(self.as_db_mut(db)) }
    }
}

/// The exclusively-owned chain-qualified adapter.
pub struct SyncCachedReadsDbMut<P: SyncStateProvider> {
    /// The cache of reads.
    pub cached: SyncCachedReads,
    /// The underlying provider.
    pub db: P,
}

impl<P: SyncStateProvider> SyncCachedReadsDbMut<P> {
    /// Take the cache and the provider back out.
    pub fn into_parts(self) -> (r: (SyncCachedReads, P))
        ensures
            r.0 == self.cached,
            r.1 == self.db,
    {
        (self.cached, self.db)
    }

    /// Account info of `address` on its chain; cached across calls.
    pub fn basic(&mut self, address: ChainAddress) -> (r: Result<Option<AccountInfo>, ProviderError>)
        requires
            old(self).cached.wf(),
        ensures
            final(self).cached.wf(),
            forall|c: u64| #[trigger] final(self).db.state_of(c) == old(self).db.state_of(c),
            cache_extends(final(self).cached.model(), old(self).cached.model()),
            old(self).cached.model().accounts.contains_key(spec_pack_key(address.0, address.1))
                ==> {
                &&& r == Ok::<Option<AccountInfo>, ProviderError>(
                    old(self).cached.model().accounts[spec_pack_key(address.0, address.1)].info,
                )
                &&& final(self).cached.model() == old(self).cached.model()
                &&& final(self).db.reads() == old(self).db.reads()
            },
            !old(self).cached.model().accounts.contains_key(spec_pack_key(address.0, address.1))
                ==> {
                &&& final(self).db.reads() >= old(self).db.reads()
                &&& final(self).db.reads() <= old(self).db.reads() + 1
                &&& old(self).db.reads() < u64::MAX ==> final(self).db.reads() == old(
                    self,
                ).db.reads() + 1
                &&& (r matches Ok(v) ==> {
                    &&& v == old(self).db.state_of(address.0).accounts[address.1]
                    &&& final(self).cached.model() == cache_with_account(
                        old(self).cached.model(),
                        spec_pack_key(address.0, address.1),
                        v,
                        Map::<u128, u64>::empty(),
                    )
                })
                &&& (r is Err ==> final(self).cached.model() == old(self).cached.model())
            },
    {
        let key = pack_key(address.0, address.1);
        let ghost pre = *self;
        match self.cached.accounts.get(key) {
            Some(acc) => {
                let r = acc.info;
                Ok(r)
            }
            None => {
                let fetched = match self.db.basic_ref(address) {
                    Ok(v) => v,
                    Err(e) => {
                        return Err(e);
                    }
                };
                self.cached.accounts.insert(key, CachedAccount::new(fetched));
                proof {
                    assert(self.cached.model().accounts =~= cache_with_account(
                        pre.cached.model(),
                        key,
                        fetched,
                        Map::<u128, u64>::empty(),
                    ).accounts);
                }
                Ok(fetched)
            }
        }
    }

    /// Bytecode of `code_hash` on `chain_id`; cached across calls.
    pub fn code_by_hash(&mut self, chain_id: u64, code_hash: u64) -> (r: Result<
        Vec<u8>,
        ProviderError,
    >)
        requires
            old(self).cached.wf(),
        ensures
            final(self).cached.wf(),
            forall|c: u64| #[trigger] final(self).db.state_of(c) == old(self).db.state_of(c),
            cache_extends(final(self).cached.model(), old(self).cached.model()),
            old(self).cached.model().contracts.contains_key(spec_pack_key(chain_id, code_hash))
                ==> {
                &&& (r matches Ok(v) && v@ == old(self).cached.model().contracts[spec_pack_key(
                    chain_id,
                    code_hash,
                )])
                &&& final(self).cached.model() == old(self).cached.model()
                &&& final(self).db.reads() == old(self).db.reads()
            },
            !old(self).cached.model().contracts.contains_key(spec_pack_key(chain_id, code_hash))
                ==> {
                &&& final(self).db.reads() >= old(self).db.reads()
                &&& final(self).db.reads() <= old(self).db.reads() + 1
                &&& old(self).db.reads() < u64::MAX ==> final(self).db.reads() == old(
                    self,
                ).db.reads() + 1
                &&& (r matches Ok(v) ==> {
                    &&& v@ == old(self).db.state_of(chain_id).code[code_hash]
                    &&& final(self).cached.model() == cache_with_code(
                        old(self).cached.model(),
                        spec_pack_key(chain_id, code_hash),
                        v@,
                    )
                })
                &&& (r is Err ==> final(self).cached.model() == old(self).cached.model())
            },
    {
        let key = pack_key(chain_id, code_hash);
        let ghost pre = *self;
        match self.cached.contracts.get(key) {
            Some(code) => {
                let c = code.clone();
                proof {
                    assert(c@ =~= pre.cached.model().contracts[key]);
                    assert(self.cached.model() == pre.cached.model());
                }
                Ok(c)
            }
            None => {
                let fetched = match self.db.code_by_hash_ref(chain_id, code_hash) {
                    Ok(v) => v,
                    Err(e) => {
                        return Err(e);
                    }
                };
                let copy = fetched.clone();
                proof {
                    assert(copy@ =~= fetched@);
                }
                self.cached.contracts.insert(key, copy);
                proof {
                    assert(self.cached.model().contracts =~= cache_with_code(
                        pre.cached.model(),
                        key,
                        fetched@,
                    ).contracts);
                }
                Ok(fetched)
            }
        }
    }

    /// Storage word of `address` at `index` on its chain, with the plain
    /// adapter's fill behaviour.
    pub fn storage(&mut self, address: ChainAddress, index: u64) -> (r: Result<u64, ProviderError>)
        requires
            old(self).cached.wf(),
        ensures
            final(self).cached.wf(),
            forall|c: u64| #[trigger] final(self).db.state_of(c) == old(self).db.state_of(c),
            cache_extends(final(self).cached.model(), old(self).cached.model()),
            final(self).db.reads() >= old(self).db.reads(),
            final(self).db.reads() <= old(self).db.reads() + 2,
            (r is Err ==> final(self).cached.model() == old(self).cached.model()),
            old(self).cached.model().accounts.contains_key(spec_pack_key(address.0, address.1))
                ==> {
                &&& old(self).cached.model().accounts[spec_pack_key(
                    address.0,
                    address.1,
                )].storage.contains_key(index as u128) ==> {
                    &&& r == Ok::<u64, ProviderError>(
                        old(self).cached.model().accounts[spec_pack_key(
                            address.0,
                            address.1,
                        )].storage[index as u128],
                    )
                    &&& final(self).cached.model() == old(self).cached.model()
                    &&& final(self).db.reads() == old(self).db.reads()
                }
                &&& !old(self).cached.model().accounts[spec_pack_key(
                    address.0,
                    address.1,
                )].storage.contains_key(index as u128) ==> {
                    &&& final(self).db.reads() <= old(self).db.reads() + 1
                    &&& (old(self).db.reads() < u64::MAX ==> final(self).db.reads() == old(
                        self,
                    ).db.reads() + 1)
                    &&& (r matches Ok(v) ==> {
                        &&& v == old(self).db.state_of(address.0).storage[(address.1, index)]
                        &&& final(self).cached.model() == cache_with_slot(
                            old(self).cached.model(),
                            spec_pack_key(address.0, address.1),
                            index as u128,
                            v,
                        )
                    })
                }
            },
            !old(self).cached.model().accounts.contains_key(spec_pack_key(address.0, address.1))
                ==> (r matches Ok(v) ==> {
                &&& old(self).db.state_of(address.0).accounts[address.1] is Some ==> {
                    &&& v == old(self).db.state_of(address.0).storage[(address.1, index)]
                    &&& final(self).cached.model() == cache_with_account(
                        old(self).cached.model(),
                        spec_pack_key(address.0, address.1),
                        old(self).db.state_of(address.0).accounts[address.1],
                        Map::<u128, u64>::empty().insert(index as u128, v),
                    )
                }
                &&& (old(self).db.state_of(address.0).accounts[address.1] is Some && old(
                    self,
                ).db.reads() < u64::MAX - 1 ==> final(self).db.reads() == old(self).db.reads()
                    + 2)
                &&& (old(self).db.state_of(address.0).accounts[address.1] is None && old(
                    self,
                ).db.reads() < u64::MAX ==> final(self).db.reads() == old(self).db.reads() + 1)
                &&& old(self).db.state_of(address.0).accounts[address.1] is None ==> {
                    &&& v == 0
                    &&& final(self).cached.model() == cache_with_account(
                        old(self).cached.model(),
                        spec_pack_key(address.0, address.1),
                        None,
                        Map::<u128, u64>::empty(),
                    )
                }
            }),
    {
        let key = pack_key(address.0, address.1);
        let slot = index as u128;
        let ghost pre = *self;
        if self.cached.accounts.contains_key(key) {
            proof {
                lemma_sync_cache_entry_wf(&pre.cached, key);
            }
            let found: Option<u64> = match self.cached.accounts.get(key) {
                Some(acc) => match acc.storage.get(slot) {
                    Some(v) => Some(*v),
                    None => None,
                },
                None => None,
            };
            match found {
                Some(v) => Ok(v),
                None => {
                    let value = match self.db.storage_ref(address, index) {
                        Ok(v) => v,
                        Err(e) => {
                            return Err(e);
                        }
                    };
                    match self.cached.accounts.get_mut(key) {
                        Some(acc) => {
                            proof {
                                lemma_sync_cache_entry_wf(&pre.cached, key);
                            }
                            acc.storage.insert(slot, value);
                        }
                        None => {
                            proof {
                                assert(false);
                            }
                        }
                    }
                    proof {
                        assert(self.cached.model().accounts =~= cache_with_slot(
                            pre.cached.model(),
                            key,
                            slot,
                            value,
                        ).accounts);
                    }
                    Ok(value)
                }
            }
        } else {
            let info = match self.db.basic_ref(address) {
                Ok(v) => v,
                Err(e) => {
                    return Err(e);
                }
            };
            match info {
                Some(_) => {
                    let value = match self.db.storage_ref(address, index) {
                        Ok(v) => v,
                        Err(e) => {
                            return Err(e);
                        }
                    };
                    let mut acc = CachedAccount::new(info);
                    acc.storage.insert(slot, value);
                    self.cached.accounts.insert(key, acc);
                    proof {
                        assert(self.cached.model().accounts =~= cache_with_account(
                            pre.cached.model(),
                            key,
                            info,
                            Map::<u128, u64>::empty().insert(slot, value),
                        ).accounts);
                    }
                    Ok(value)
                }
                None => {
                    self.cached.accounts.insert(key, CachedAccount::new(None));
                    proof {
                        assert(self.cached.model().accounts =~= cache_with_account(
                            pre.cached.model(),
                            key,
                            None,
                            Map::<u128, u64>::empty(),
                        ).accounts);
                    }
                    Ok(0)
                }
            }
        }
    }

    /// Hash of block `number` on `chain_id`; cached across calls.
    pub fn block_hash(&mut self, chain_id: u64, number: u64) -> (r: Result<u64, ProviderError>)
        requires
            old(self).cached.wf(),
        ensures
            final(self).cached.wf(),
            forall|c: u64| #[trigger] final(self).db.state_of(c) == old(self).db.state_of(c),
            cache_extends(final(self).cached.model(), old(self).cached.model()),
            old(self).cached.model().block_hashes.contains_key(spec_pack_key(chain_id, number))
                ==> {
                &&& r == Ok::<u64, ProviderError>(
                    old(self).cached.model().block_hashes[spec_pack_key(chain_id, number)],
                )
                &&& final(self).cached.model() == old(self).cached.model()
                &&& final(self).db.reads() == old(self).db.reads()
            },
            !old(self).cached.model().block_hashes.contains_key(spec_pack_key(chain_id, number))
                ==> {
                &&& final(self).db.reads() >= old(self).db.reads()
                &&& final(self).db.reads() <= old(self).db.reads() + 1
                &&& old(self).db.reads() < u64::MAX ==> final(self).db.reads() == old(
                    self,
                ).db.reads() + 1
                &&& (r matches Ok(v) ==> {
                    &&& v == old(self).db.state_of(chain_id).block_hashes[number]
                    &&& final(self).cached.model() == cache_with_block_hash(
                        old(self).cached.model(),
                        spec_pack_key(chain_id, number),
                        v,
                    )
                })
                &&& (r is Err ==> final(self).cached.model() == old(self).cached.model())
            },
    {
        let key = pack_key(chain_id, number);
        match self.cached.block_hashes.get(key) {
            Some(h) => Ok(*h),
            None => {
                let fetched = match self.db.block_hash_ref(chain_id, number) {
                    Ok(v) => v,
                    Err(e) => {
                        return Err(e);
                    }
                };
                self.cached.block_hashes.insert(key, fetched);
                Ok(fetched)
            }
        }
    }
}

/// A single-borrower guard around the chain-qualified adapter.
pub struct SyncCachedReadsDBRef<P: SyncStateProvider> {
    /// The guarded adapter; `None` while it is taken.
    pub inner: Option<SyncCachedReadsDbMut<P>>,
}

impl<P: SyncStateProvider> SyncCachedReadsDBRef<P> {
    /// Whether the adapter is currently available (not borrowed).
    pub open spec fn available(&self) -> bool {
        self.inner is Some
    }

    /// Take the adapter out, becoming its single borrower. A second take
    /// before [`Self::put_back`] observes `None` and must not proceed.
    pub fn try_take(&mut self) -> (r: Option<SyncCachedReadsDbMut<P>>)
        ensures
            old(self).available() ==> r == old(self).inner && !final(self).available(),
            !old(self).available() ==> r is None && !final(self).available(),
    {
        let mut taken: Option<SyncCachedReadsDbMut<P>> = None;
        core::mem::swap(&mut taken, &mut self.inner);
        taken
    }

    /// Hand the adapter back, ending the borrow.
    pub fn put_back(&mut self, db: SyncCachedReadsDbMut<P>)
        ensures
            final(self).inner == Some(db),
    {
        self.inner = Some(db);
    }

    /// Account info of `address` through the guard: one exclusive borrow
    /// around [`SyncCachedReadsDbMut::basic`].
    pub fn basic_ref(&mut self, address: ChainAddress) -> (r: Result<
        Option<AccountInfo>,
        ProviderError,
    >)
        requires
            old(self).available(),
            old(self).inner.unwrap().cached.wf(),
        ensures
            final(self).available(),
            final(self).inner.unwrap().cached.wf(),
            cache_extends(
                final(self).inner.unwrap().cached.model(),
                old(self).inner.unwrap().cached.model(),
            ),
            old(self).inner.unwrap().cached.model().accounts.contains_key(
                spec_pack_key(address.0, address.1),
            ) ==> {
                &&& r == Ok::<Option<AccountInfo>, ProviderError>(
                    old(self).inner.unwrap().cached.model().accounts[
                        spec_pack_key(address.0, address.1)].info,
                )
                &&& final(self).inner.unwrap().cached.model() == old(
                    self,
                ).inner.unwrap().cached.model()
                &&& final(self).inner.unwrap().db.reads() == old(self).inner.unwrap().db.reads()
            },
            !old(self).inner.unwrap().cached.model().accounts.contains_key(
                spec_pack_key(address.0, address.1),
            ) ==> {
                &&& final(self).inner.unwrap().db.reads() >= old(self).inner.unwrap().db.reads()
                &&& final(self).inner.unwrap().db.reads() <= old(self).inner.unwrap().db.reads() + 1
                &&& (old(self).inner.unwrap().db.reads() < u64::MAX
                    ==> final(self).inner.unwrap().db.reads() == old(self).inner.unwrap().db.reads() + 1)
                &&& (r matches Ok(v) ==> {
                    &&& v == old(self).inner.unwrap().db.state_of(address.0).accounts[address.1]
                    &&& final(self).inner.unwrap().cached.model() == cache_with_account(
                        old(self).inner.unwrap().cached.model(),
                        spec_pack_key(address.0, address.1),
                        v,
                        Map::<u128, u64>::empty(),
                    )
                })
                &&& (r is Err ==> final(self).inner.unwrap().cached.model() == old(self).inner.unwrap().cached.model())
            },
    {
        let mut db = match self.try_take() {
            Some(db) => db,
            None => {
                proof {
                    assert(false);
                }
                return Err(ProviderError::Backend);
            }
        };
        let r = db.basic(address);
        self.put_back(db);
        r
    }

    /// Bytecode of `code_hash` on `chain_id` through the guard.
    pub fn code_by_hash_ref(&mut self, chain_id: u64, code_hash: u64) -> (r: Result<
        Vec<u8>,
        ProviderError,
    >)
        requires
            old(self).available(),
            old(self).inner.unwrap().cached.wf(),
        ensures
            final(self).available(),
            final(self).inner.unwrap().cached.wf(),
            cache_extends(
                final(self).inner.unwrap().cached.model(),
                old(self).inner.unwrap().cached.model(),
            ),
            old(self).inner.unwrap().cached.model().contracts.contains_key(
                spec_pack_key(chain_id, code_hash),
            ) ==> {
                &&& (r matches Ok(v) && v@ == old(self).inner.unwrap().cached.model().contracts[
                    spec_pack_key(chain_id, code_hash)])
                &&& final(self).inner.unwrap().cached.model() == old(
                    self,
                ).inner.unwrap().cached.model()
                &&& final(self).inner.unwrap().db.reads() == old(self).inner.unwrap().db.reads()
            },
            !old(self).inner.unwrap().cached.model().contracts.contains_key(
                spec_pack_key(chain_id, code_hash),
            ) ==> {
                &&& final(self).inner.unwrap().db.reads() >= old(self).inner.unwrap().db.reads()
                &&& final(self).inner.unwrap().db.reads() <= old(self).inner.unwrap().db.reads() + 1
                &&& (old(self).inner.unwrap().db.reads() < u64::MAX
                    ==> final(self).inner.unwrap().db.reads() == old(self).inner.unwrap().db.reads() + 1)
                &&& (r matches Ok(v) ==> {
                    &&& v@ == old(self).inner.unwrap().db.state_of(chain_id).code[code_hash]
                    &&& final(self).inner.unwrap().cached.model() == cache_with_code(
                        old(self).inner.unwrap().cached.model(),
                        spec_pack_key(chain_id, code_hash),
                        v@,
                    )
                })
                &&& (r is Err ==> final(self).inner.unwrap().cached.model() == old(self).inner.unwrap().cached.model())
            },
    {
        let mut db = match self.try_take() {
            Some(db) => db,
            None => {
                proof {
                    assert(false);
                }
                return Err(ProviderError::Backend);
            }
        };
        let r = db.code_by_hash(chain_id, code_hash);
        self.put_back(db);
        r
    }

    /// Storage word of `address` at `index` through the guard.
    pub fn storage_ref(&mut self, address: ChainAddress, index: u64) -> (r: Result<
        u64,
        ProviderError,
    >)
        requires
            old(self).available(),
            old(self).inner.unwrap().cached.wf(),
        ensures
            final(self).available(),
            final(self).inner.unwrap().cached.wf(),
            cache_extends(
                final(self).inner.unwrap().cached.model(),
                old(self).inner.unwrap().cached.model(),
            ),
            old(self).inner.unwrap().cached.model().accounts.contains_key(
                spec_pack_key(address.0, address.1),
            ) && old(self).inner.unwrap().cached.model().accounts[
                spec_pack_key(address.0, address.1)].storage.contains_key(index as u128) ==> {
                &&& r == Ok::<u64, ProviderError>(
                    old(self).inner.unwrap().cached.model().accounts[
                        spec_pack_key(address.0, address.1)].storage[index as u128],
                )
                &&& final(self).inner.unwrap().cached.model() == old(
                    self,
                ).inner.unwrap().cached.model()
                &&& final(self).inner.unwrap().db.reads() == old(self).inner.unwrap().db.reads()
            },
            final(self).inner.unwrap().db.reads() >= old(self).inner.unwrap().db.reads(),
            final(self).inner.unwrap().db.reads() <= old(self).inner.unwrap().db.reads() + 2,
            (r is Err ==> final(self).inner.unwrap().cached.model() == old(self).inner.unwrap().cached.model()),
            old(self).inner.unwrap().cached.model().accounts.contains_key(spec_pack_key(address.0, address.1))
                && !old(self).inner.unwrap().cached.model().accounts[spec_pack_key(address.0, address.1)].storage.contains_key(index as u128) ==> (
            r matches Ok(v) ==> {
                &&& v == old(self).inner.unwrap().db.state_of(address.0).storage[(address.1, index)]
                &&& final(self).inner.unwrap().cached.model() == cache_with_slot(
                    old(self).inner.unwrap().cached.model(),
                    spec_pack_key(address.0, address.1),
                    index as u128,
                    v,
                )
            }),
            !old(self).inner.unwrap().cached.model().accounts.contains_key(spec_pack_key(address.0, address.1)) ==> (r matches Ok(v) ==> {
                &&& (old(self).inner.unwrap().db.state_of(address.0).accounts[address.1] is Some ==> {
                    &&& v == old(self).inner.unwrap().db.state_of(address.0).storage[(address.1, index)]
                    &&& final(self).inner.unwrap().cached.model() == cache_with_account(
                        old(self).inner.unwrap().cached.model(),
                        spec_pack_key(address.0, address.1),
                        old(self).inner.unwrap().db.state_of(address.0).accounts[address.1],
                        Map::<u128, u64>::empty().insert(index as u128, v),
                    )
                })
                &&& (old(self).inner.unwrap().db.state_of(address.0).accounts[address.1] is None ==> {
                    &&& v == 0
                    &&& final(self).inner.unwrap().cached.model() == cache_with_account(
                        old(self).inner.unwrap().cached.model(),
                        spec_pack_key(address.0, address.1),
                        None,
                        Map::<u128, u64>::empty(),
                    )
                })
            }),
    {
        let mut db = match self.try_take() {
            Some(db) => db,
            None => {
                proof {
                    assert(false);
                }
                return Err(ProviderError::Backend);
            }
        };
        let r = db.storage(address, index);
        self.put_back(db);
        r
    }

    /// Hash of block `number` on `chain_id` through the guard.
    pub fn block_hash_ref(&mut self, chain_id: u64, number: u64) -> (r: Result<u64, ProviderError>)
        requires
            old(self).available(),
            old(self).inner.unwrap().cached.wf(),
        ensures
            final(self).available(),
            final(self).inner.unwrap().cached.wf(),
            cache_extends(
                final(self).inner.unwrap().cached.model(),
                old(self).inner.unwrap().cached.model(),
            ),
            old(self).inner.unwrap().cached.model().block_hashes.contains_key(
                spec_pack_key(chain_id, number),
            ) ==> {
                &&& r == Ok::<u64, ProviderError>(
                    old(self).inner.unwrap().cached.model().block_hashes[
                        spec_pack_key(chain_id, number)],
                )
                &&& final(self).inner.unwrap().cached.model() == old(
                    self,
                ).inner.unwrap().cached.model()
                &&& final(self).inner.unwrap().db.reads() == old(self).inner.unwrap().db.reads()
            },
            !old(self).inner.unwrap().cached.model().block_hashes.contains_key(
                spec_pack_key(chain_id, number),
            ) ==> {
                &&& final(self).inner.unwrap().db.reads() >= old(self).inner.unwrap().db.reads()
                &&& final(self).inner.unwrap().db.reads() <= old(self).inner.unwrap().db.reads() + 1
                &&& (old(self).inner.unwrap().db.reads() < u64::MAX
                    ==> final(self).inner.unwrap().db.reads() == old(self).inner.unwrap().db.reads() + 1)
                &&& (r matches Ok(v) ==> {
                    &&& v == old(self).inner.unwrap().db.state_of(chain_id).block_hashes[number]
                    &&& final(self).inner.unwrap().cached.model() == cache_with_block_hash(
                        old(self).inner.unwrap().cached.model(),
                        spec_pack_key(chain_id, number),
                        v,
                    )
                })
                &&& (r is Err ==> final(self).inner.unwrap().cached.model() == old(self).inner.unwrap().cached.model())
            },
    {
        let mut db = match self.try_take() {
            Some(db) => db,
            None => {
                proof {
                    assert(false);
                }
                return Err(ProviderError::Backend);
            }
        };
        let r = db.block_hash(chain_id, number);
        self.put_back(db);
        r
    }
}

} // verus!
