//! The read-through state cache and its database adapters.
//!
//! [`CachedReads`] memoizes account, storage, code and block-hash lookups
//! across build attempts on one parent block: a hit answers from the cache
//! with no provider call, a miss queries the injected provider exactly
//! once and stores the answer — a definitive "account does not exist"
//! included — and no entry is ever removed.
//!
//! [`CachedReadsDbMut`] is the exclusively-owned adapter over cache plus
//! provider; [`CachedReadsDBRef`] wraps it behind a single-borrower token
//! so code with only shared access can take the adapter, use it, and hand
//! it back, with a second concurrent take failing fast.

use vstd::prelude::*;

use crate::listmap::ListMap;
use crate::provider::StateProvider;
use crate::types::{AccountInfo, ProviderError};

verus! {

/// One cached account: its info (`None` = known absent) and the storage
/// slots read so far.
#[derive(Debug)]
pub struct CachedAccount {
    pub info: Option<AccountInfo>,
    pub storage: ListMap<u64>,
}

/// Ghost shape of one cached account.
pub struct CachedAccountModel {
    pub info: Option<AccountInfo>,
    pub storage: Map<u128, u64>,
}

impl CachedAccount {
    /// The account's ghost shape.
    pub open spec fn model(&self) -> CachedAccountModel {
        CachedAccountModel { info: self.info, storage: self.storage@ }
    }

    /// A fresh cache entry with no storage slots read yet.
    pub fn new(info: Option<AccountInfo>) -> (r: Self)
        ensures
            r.storage.wf(),
            r.model() == (CachedAccountModel { info, storage: Map::<u128, u64>::empty() }),
    {
        CachedAccount { info, storage: ListMap::new() }
    }
}

/// Ghost shape of the whole cache.
pub struct CachedReadsModel {
    pub accounts: Map<u128, CachedAccountModel>,
    pub contracts: Map<u128, Seq<u8>>,
    pub block_hashes: Map<u128, u64>,
}

/// The cache after `post` has grown from `pre` by fills only: nothing is
/// evicted, no cached answer changes, storage maps only gain slots.
pub open spec fn cache_extends(post: CachedReadsModel, pre: CachedReadsModel) -> bool {
    &&& forall|k: u128| #[trigger]
        pre.accounts.contains_key(k) ==> post.accounts.contains_key(k) && post.accounts[k].info
            == pre.accounts[k].info && pre.accounts[k].storage.submap_of(post.accounts[k].storage)
    &&& pre.contracts.submap_of(post.contracts)
    &&& pre.block_hashes.submap_of(post.block_hashes)
}

/// Growth by fills is transitive across a chain of operations.
pub proof fn lemma_cache_extends_trans(
    c: CachedReadsModel,
    b: CachedReadsModel,
    a: CachedReadsModel,
)
    requires
        cache_extends(c, b),
        cache_extends(b, a),
    ensures
        cache_extends(c, a),
{
    assert forall|k: u128| #[trigger] a.accounts.contains_key(k) implies c.accounts.contains_key(k)
        && c.accounts[k].info == a.accounts[k].info && a.accounts[k].storage.submap_of(
        c.accounts[k].storage,
    ) by {
        assert(b.accounts.contains_key(k));
        assert(a.accounts[k].storage.submap_of(b.accounts[k].storage));
        assert(b.accounts[k].storage.submap_of(c.accounts[k].storage));
        assert forall|s: u128| #[trigger] a.accounts[k].storage.contains_key(s) implies
            c.accounts[k].storage.contains_key(s) && c.accounts[k].storage[s]
                == a.accounts[k].storage[s] by {
            assert(b.accounts[k].storage.contains_key(s));
        }
    }
    vstd::map_lib::lemma_submap_of_trans(a.contracts, b.contracts, c.contracts);
    vstd::map_lib::lemma_submap_of_trans(a.block_hashes, b.block_hashes, c.block_hashes);
}

/// The cache with one more storage slot filled under an already-cached
/// account.
pub open spec fn cache_with_slot(
    m: CachedReadsModel,
    a: u128,
    slot: u128,
    v: u64,
) -> CachedReadsModel {
    CachedReadsModel {
        accounts: m.accounts.insert(
            a,
            CachedAccountModel {
                info: m.accounts[a].info,
                storage: m.accounts[a].storage.insert(slot, v),
            },
        ),
        contracts: m.contracts,
        block_hashes: m.block_hashes,
    }
}

/// The cache with a whole account entry written.
pub open spec fn cache_with_account(
    m: CachedReadsModel,
    a: u128,
    info: Option<AccountInfo>,
    storage: Map<u128, u64>,
) -> CachedReadsModel {
    CachedReadsModel {
        accounts: m.accounts.insert(a, CachedAccountModel { info, storage }),
        contracts: m.contracts,
        block_hashes: m.block_hashes,
    }
}

/// The cache with one bytecode entry filled.
pub open spec fn cache_with_code(m: CachedReadsModel, h: u128, code: Seq<u8>) -> CachedReadsModel {
    CachedReadsModel {
        accounts: m.accounts,
        contracts: m.contracts.insert(h, code),
        block_hashes: m.block_hashes,
    }
}

/// The cache with one block hash filled.
pub open spec fn cache_with_block_hash(m: CachedReadsModel, n: u128, h: u64) -> CachedReadsModel {
    CachedReadsModel {
        accounts: m.accounts,
        contracts: m.contracts,
        block_hashes: m.block_hashes.insert(n, h),
    }
}

/// A container that caches reads from an underlying state provider, living
/// across the sequential build attempts on one parent block.
#[derive(Debug)]
pub struct CachedReads {
    pub accounts: ListMap<CachedAccount>,
    pub contracts: ListMap<Vec<u8>>,
    pub block_hashes: ListMap<u64>,
}

/// In a well-formed cache, the account found at a key has a well-formed
/// slot map.
pub proof fn lemma_cache_entry_wf(c: &CachedReads, key: u128)
    requires
        c.wf(),
        c.accounts@.contains_key(key),
    ensures
        c.accounts@[key].storage.wf(),
{
    c.accounts.lemma_contains(key);
    let i = choose|i: int| 0 <= i < c.accounts.kv().len() && (#[trigger] c.accounts.kv()[i]).0 == key;
    c.accounts.lemma_kv_index(i);
}

impl CachedReads {
    /// Well-formed: every backing map is, including each account's slots,
    /// and every key is a plain 64-bit word.
    pub open spec fn wf(&self) -> bool {
        &&& self.accounts.wf()
        &&& self.contracts.wf()
        &&& self.block_hashes.wf()
        &&& forall|i: int|
            0 <= i < self.accounts.kv().len() ==> (#[trigger] self.accounts.kv()[i]).1.storage.wf()
        &&& forall|i: int|
            0 <= i < self.accounts.kv().len() ==> (#[trigger] self.accounts.kv()[i]).0
                < crate::keys::KEY_RADIX
        &&& forall|i: int|
            0 <= i < self.contracts.kv().len() ==> (#[trigger] self.contracts.kv()[i]).0
                < crate::keys::KEY_RADIX
        &&& forall|i: int|
            0 <= i < self.block_hashes.kv().len() ==> (#[trigger] self.block_hashes.kv()[i]).0
                < crate::keys::KEY_RADIX
    }

    /// The cache's ghost shape.
    pub open spec fn model(&self) -> CachedReadsModel {
        CachedReadsModel {
            accounts: self.accounts@.map_values(|a: CachedAccount| a.model()),
            contracts: self.contracts@.map_values(|c: Vec<u8>| c@),
            block_hashes: self.block_hashes@,
        }
    }

    /// An empty cache.
    pub fn new() -> (r: Self)
        ensures
            r.wf(),
            r.model().accounts == Map::<u128, CachedAccountModel>::empty(),
            r.model().contracts == Map::<u128, Seq<u8>>::empty(),
            r.model().block_hashes == Map::<u128, u64>::empty(),
    {
        let r = CachedReads {
            accounts: ListMap::new(),
            contracts: ListMap::new(),
            block_hashes: ListMap::new(),
        };
        proof {
            assert(r.model().accounts =~= Map::<u128, CachedAccountModel>::empty());
            assert(r.model().contracts =~= Map::<u128, Seq<u8>>::empty());
        }
        r
    }

    /// Seed an account entry without querying any provider, to warm the
    /// cache from externally known state.
    pub fn insert_account(&mut self, address: u64, info: AccountInfo, storage: ListMap<u64>)
        requires
            old(self).wf(),
            storage.wf(),
        ensures
            final(self).wf(),
            final(self).model() == cache_with_account(
                old(self).model(),
                address as u128,
                Some(info),
                storage@,
            ),
    {
        let ghost pre = *self;
        self.accounts.insert(address as u128, CachedAccount { info: Some(info), storage });
        proof {
            assert(self.model().accounts =~= cache_with_account(
                pre.model(),
                address as u128,
                Some(info),
                storage@,
            ).accounts);
        }
    }

    /// Move the cache into an exclusively-owned adapter over `db`.
    pub fn as_db_mut<P: StateProvider>(self, db: P) -> (r: CachedReadsDbMut<P>)
        ensures
            r.cached == self,
            r.db == db,
    {
        CachedReadsDbMut { cached: self, db }
    }

    /// Move the cache into a single-borrower guarded adapter over `db`.
    pub fn as_db<P: StateProvider>(self, db: P) -> (r: CachedReadsDBRef<P>)
        ensures
            r.inner == Some(CachedReadsDbMut { cached: self, db }),
    {
        CachedReadsDBRef { inner: Some(self.as_db_mut(db)) }
    }
}

/// The exclusively-owned database adapter: reads answer from the cache
/// when they can and fill it from the provider when they cannot.
pub struct CachedReadsDbMut<P: StateProvider> {
    /// The cache of reads.
    pub cached: CachedReads,
    /// The underlying provider.
    pub db: P,
}

impl<P: StateProvider> CachedReadsDbMut<P> {
    /// Take the cache and the provider back out.
    pub fn into_parts(self) -> (r: (CachedReads, P))
        ensures
            r.0 == self.cached,
            r.1 == self.db,
    {
        (self.cached, self.db)
    }

    /// Account info of `address`: answered from the cache on a hit; on a
    /// miss, fetched once from the provider and stored, a definitive
    /// "absent" included.
    pub fn basic(&mut self, address: u64) -> (r: Result<Option<AccountInfo>, ProviderError>)
        requires
            old(self).cached.wf(),
        ensures
            final(self).cached.wf(),
            final(self).db.state() == old(self).db.state(),
            cache_extends(final(self).cached.model(), old(self).cached.model()),
            old(self).cached.model().accounts.contains_key(address as u128) ==> {
                &&& r == Ok::<Option<AccountInfo>, ProviderError>(
                    old(self).cached.model().accounts[address as u128].info,
                )
                &&& final(self).cached.model() == old(self).cached.model()
                &&& final(self).db.reads() == old(self).db.reads()
            },
            !old(self).cached.model().accounts.contains_key(address as u128) ==> {
                &&& final(self).db.reads() >= old(self).db.reads()
                &&& final(self).db.reads() <= old(self).db.reads() + 1
                &&& old(self).db.reads() < u64::MAX ==> final(self).db.reads() == old(
                    self,
                ).db.reads() + 1
                &&& (r matches Ok(v) ==> {
                    &&& v == old(self).db.state().accounts[address]
                    &&& final(self).cached.model() == cache_with_account(
                        old(self).cached.model(),
                        address as u128,
                        v,
                        Map::<u128, u64>::empty(),
                    )
                })
                &&& (r is Err ==> final(self).cached.model() == old(self).cached.model())
            },
    {
        let key = address as u128;
        let ghost pre = *self;
        match self.cached.accounts.get(key) {
            Some(acc) => {
                let r = acc.info;
                proof {
                    assert(pre.cached.model().accounts.contains_key(key));
                    assert(pre.cached.model().accounts[key].info == acc.info);
                }
                Ok(r)
            }
            None => {
                let fetched = match self.db.basic_ref(address) {
                    Ok(v) => v,
                    Err(e) => {
                        return Err(e);
                    }
                };
                self.cached.accounts.insert(key, CachedAccount::new(fetched));
                proof {
                    assert(self.cached.model().accounts =~= cache_with_account(
                        pre.cached.model(),
                        key,
                        fetched,
                        Map::<u128, u64>::empty(),
                    ).accounts);
                }
                Ok(fetched)
            }
        }
    }

    /// Bytecode of `code_hash`, cached after the first fetch.
    pub fn code_by_hash(&mut self, code_hash: u64) -> (r: Result<Vec<u8>, ProviderError>)
        requires
            old(self).cached.wf(),
        ensures
            final(self).cached.wf(),
            final(self).db.state() == old(self).db.state(),
            cache_extends(final(self).cached.model(), old(self).cached.model()),
            old(self).cached.model().contracts.contains_key(code_hash as u128) ==> {
                &&& (r matches Ok(v) && v@ == old(self).cached.model().contracts[code_hash as u128])
                &&& final(self).cached.model() == old(self).cached.model()
                &&& final(self).db.reads() == old(self).db.reads()
            },
            !old(self).cached.model().contracts.contains_key(code_hash as u128) ==> {
                &&& final(self).db.reads() >= old(self).db.reads()
                &&& final(self).db.reads() <= old(self).db.reads() + 1
                &&& old(self).db.reads() < u64::MAX ==> final(self).db.reads() == old(
                    self,
                ).db.reads() + 1
                &&& (r matches Ok(v) ==> {
                    &&& v@ == old(self).db.state().code[code_hash]
                    &&& final(self).cached.model() == cache_with_code(
                        old(self).cached.model(),
                        code_hash as u128,
                        v@,
                    )
                })
                &&& (r is Err ==> final(self).cached.model() == old(self).cached.model())
            },
    {
        let key = code_hash as u128;
        let ghost pre = *self;
        match self.cached.contracts.get(key) {
            Some(code) => {
                let c = code.clone();
                proof {
                    assert(c@ =~= pre.cached.model().contracts[key]);
                    assert(self.cached.model() == pre.cached.model());
                }
                Ok(c)
            }
            None => {
                let fetched = match self.db.code_by_hash_ref(code_hash) {
                    Ok(v) => v,
                    Err(e) => {
                        return Err(e);
                    }
                };
                let copy = fetched.clone();
                proof {
                    assert(copy@ =~= fetched@);
                }
                self.cached.contracts.insert(key, copy);
                proof {
                    assert(self.cached.model().contracts =~= cache_with_code(
                        pre.cached.model(),
                        key,
                        fetched@,
                    ).contracts);
                }
                Ok(fetched)
            }
        }
    }

    /// Storage word of `address` at `index`. A cached slot answers
    /// directly; a cached account with an unread slot fetches just the
    /// slot; an unknown account is loaded first, and an absent account
    /// reads zero without a storage fetch.
    pub fn storage(&mut self, address: u64, index: u64) -> (r: Result<u64, ProviderError>)
        requires
            old(self).cached.wf(),
        ensures
            final(self).cached.wf(),
            final(self).db.state() == old(self).db.state(),
            cache_extends(final(self).cached.model(), old(self).cached.model()),
            final(self).db.reads() >= old(self).db.reads(),
            final(self).db.reads() <= old(self).db.reads() + 2,
            (r is Err ==> final(self).cached.model() == old(self).cached.model()),
            old(self).cached.model().accounts.contains_key(address as u128) ==> {
                &&& old(self).cached.model().accounts[address as u128].storage.contains_key(
                    index as u128,
                ) ==> {
                    &&& r == Ok::<u64, ProviderError>(
                        old(self).cached.model().accounts[address as u128].storage[index as u128],
                    )
                    &&& final(self).cached.model() == old(self).cached.model()
                    &&& final(self).db.reads() == old(self).db.reads()
                }
                &&& !old(self).cached.model().accounts[address as u128].storage.contains_key(
                    index as u128,
                ) ==> {
                    &&& final(self).db.reads() <= old(self).db.reads() + 1
                    &&& (old(self).db.reads() < u64::MAX ==> final(self).db.reads() == old(
                        self,
                    ).db.reads() + 1)
                    &&& (r matches Ok(v) ==> {
                        &&& v == old(self).db.state().storage[(address, index)]
                        &&& final(self).cached.model() == cache_with_slot(
                            old(self).cached.model(),
                            address as u128,
                            index as u128,
                            v,
                        )
                    })
                }
            },
            !old(self).cached.model().accounts.contains_key(address as u128) ==> (r matches Ok(v)
                ==> {
                &&& old(self).db.state().accounts[address] is Some ==> {
                    &&& v == old(self).db.state().storage[(address, index)]
                    &&& final(self).cached.model() == cache_with_account(
                        old(self).cached.model(),
                        address as u128,
                        old(self).db.state().accounts[address],
                        Map::<u128, u64>::empty().insert(index as u128, v),
                    )
                }
                &&& (old(self).db.state().accounts[address] is Some && old(
                    self,
                ).db.reads() < u64::MAX - 1 ==> final(self).db.reads() == old(self).db.reads()
                    + 2)
                &&& (old(self).db.state().accounts[address] is None && old(
                    self,
                ).db.reads() < u64::MAX ==> final(self).db.reads() == old(self).db.reads() + 1)
                &&& old(self).db.state().accounts[address] is None ==> {
                    &&& v == 0
                    &&& final(self).cached.model() == cache_with_account(
                        old(self).cached.model(),
                        address as u128,
                        None,
                        Map::<u128, u64>::empty(),
                    )
                }
            }),
    {
        let key = address as u128;
        let slot = index as u128;
        let ghost pre = *self;
        if self.cached.accounts.contains_key(key) {
            proof {
                lemma_cache_entry_wf(&pre.cached, key);
            }
            let found: Option<u64> = match self.cached.accounts.get(key) {
                Some(acc) => match acc.storage.get(slot) {
                    Some(v) => Some(*v),
                    None => None,
                },
                None => None,
            };
            match found {
                Some(v) => {
                    proof {
                        assert(pre.cached.model().accounts[key].storage[slot] == v);
                    }
                    Ok(v)
                }
                None => {
                    let value = match self.db.storage_ref(address, index) {
                        Ok(v) => v,
                        Err(e) => {
                            return Err(e);
                        }
                    };
                    match self.cached.accounts.get_mut(key) {
                        Some(acc) => {
                            proof {
                                lemma_cache_entry_wf(&pre.cached, key);
                            }
                            acc.storage.insert(slot, value);
                        }
                        None => {
                            proof {
                                assert(false);
                            }
                        }
                    }
                    proof {
                        assert(self.cached.model().accounts =~= cache_with_slot(
                            pre.cached.model(),
                            key,
                            slot,
                            value,
                        ).accounts);
                    }
                    Ok(value)
                }
            }
        } else {
            let info = match self.db.basic_ref(address) {
                Ok(v) => v,
                Err(e) => {
                    return Err(e);
                }
            };
            match info {
                Some(_) => {
                    let value = match self.db.storage_ref(address, index) {
                        Ok(v) => v,
                        Err(e) => {
                            return Err(e);
                        }
                    };
                    let mut acc = CachedAccount::new(info);
                    acc.storage.insert(slot, value);
                    self.cached.accounts.insert(key, acc);
                    proof {
                        assert(self.cached.model().accounts =~= cache_with_account(
                            pre.cached.model(),
                            key,
                            info,
                            Map::<u128, u64>::empty().insert(slot, value),
                        ).accounts);
                    }
                    Ok(value)
                }
                None => {
                    self.cached.accounts.insert(key, CachedAccount::new(None));
                    proof {
                        assert(self.cached.model().accounts =~= cache_with_account(
                            pre.cached.model(),
                            key,
                            None,
                            Map::<u128, u64>::empty(),
                        ).accounts);
                    }
                    Ok(0)
                }
            }
        }
    }

    /// Hash of block `number`, cached after the first fetch.
    pub fn block_hash(&mut self, number: u64) -> (r: Result<u64, ProviderError>)
        requires
            old(self).cached.wf(),
        ensures
            final(self).cached.wf(),
            final(self).db.state() == old(self).db.state(),
            cache_extends(final(self).cached.model(), old(self).cached.model()),
            old(self).cached.model().block_hashes.contains_key(number as u128) ==> {
                &&& r == Ok::<u64, ProviderError>(
                    old(self).cached.model().block_hashes[number as u128],
                )
                &&& final(self).cached.model() == old(self).cached.model()
                &&& final(self).db.reads() == old(self).db.reads()
            },
            !old(self).cached.model().block_hashes.contains_key(number as u128) ==> {
                &&& final(self).db.reads() >= old(self).db.reads()
                &&& final(self).db.reads() <= old(self).db.reads() + 1
                &&& old(self).db.reads() < u64::MAX ==> final(self).db.reads() == old(
                    self,
                ).db.reads() + 1
                &&& (r matches Ok(v) ==> {
                    &&& v == old(self).db.state().block_hashes[number]
                    &&& final(self).cached.model() == cache_with_block_hash(
                        old(self).cached.model(),
                        number as u128,
                        v,
                    )
                })
                &&& (r is Err ==> final(self).cached.model() == old(self).cached.model())
            },
    {
        let key = number as u128;
        let ghost pre = *self;
        match self.cached.block_hashes.get(key) {
            Some(h) => Ok(*h),
            None => {
                let fetched = match self.db.block_hash_ref(number) {
                    Ok(v) => v,
                    Err(e) => {
                        return Err(e);
                    }
                };
                self.cached.block_hashes.insert(key, fetched);
                Ok(fetched)
            }
        }
    }
}

/// Cache round trip: the fill a miss performs puts exactly the provider's
/// answer under the missed key, so every later read of that key meets the
/// hit case of [`CachedReadsDbMut::basic`] — the identical value comes
/// back, the cache does not change, and the provider's read counter does
/// not move.
pub proof fn lemma_read_through_fill(
    m: CachedReadsModel,
    address: u128,
    info: Option<AccountInfo>,
)
    ensures
        cache_with_account(m, address, info, Map::<u128, u64>::empty()).accounts.contains_key(
            address,
        ),
        cache_with_account(m, address, info, Map::<u128, u64>::empty()).accounts[address].info
            == info,
{
}

/// A single-borrower guard around the exclusive adapter: at most one live
/// borrow at a time, and a second concurrent take fails fast by returning
/// `None` instead of corrupting state.
pub struct CachedReadsDBRef<P: StateProvider> {
    /// The guarded adapter; `None` while it is taken.
    pub inner: Option<CachedReadsDbMut<P>>,
}

impl<P: StateProvider> CachedReadsDBRef<P> {
    /// Whether the adapter is currently available (not borrowed).
    pub open spec fn available(&self) -> bool {
        self.inner is Some
    }

    /// Take the adapter out, becoming its single borrower. A second take
    /// before [`Self::put_back`] observes `None` and must not proceed.
    pub fn try_take(&mut self) -> (r: Option<CachedReadsDbMut<P>>)
        ensures
            old(self).available() ==> r == old(self).inner && !final(self).available(),
            !old(self).available() ==> r is None && !final(self).available(),
    {
        let mut taken: Option<CachedReadsDbMut<P>> = None;
        core::mem::swap(&mut taken, &mut self.inner);
        taken
    }

    /// Hand the adapter back, ending the borrow.
    pub fn put_back(&mut self, db: CachedReadsDbMut<P>)
        ensures
            final(self).inner == Some(db),
    {
        self.inner = Some(db);
    }

    /// Account info of `address` through the guard: one exclusive borrow
    /// around [`CachedReadsDbMut::basic`].
    pub fn basic_ref(&mut self, address: u64) -> (r: Result<Option<AccountInfo>, ProviderError>)
        requires
            old(self).available(),
            old(self).inner.unwrap().cached.wf(),
        ensures
            final(self).available(),
            final(self).inner.unwrap().cached.wf(),
            final(self).inner.unwrap().db.state() == old(self).inner.unwrap().db.state(),
            cache_extends(
                final(self).inner.unwrap().cached.model(),
                old(self).inner.unwrap().cached.model(),
            ),
            old(self).inner.unwrap().cached.model().accounts.contains_key(address as u128) ==> {
                &&& r == Ok::<Option<AccountInfo>, ProviderError>(
                    old(self).inner.unwrap().cached.model().accounts[address as u128].info,
                )
                &&& final(self).inner.unwrap().cached.model() == old(
                    self,
                ).inner.unwrap().cached.model()
                &&& final(self).inner.unwrap().db.reads() == old(self).inner.unwrap().db.reads()
            },
            !old(self).inner.unwrap().cached.model().accounts.contains_key(address as u128)
                ==> {
                &&& final(self).inner.unwrap().db.reads() >= old(self).inner.unwrap().db.reads()
                &&& final(self).inner.unwrap().db.reads() <= old(self).inner.unwrap().db.reads()
                    + 1
                &&& (old(self).inner.unwrap().db.reads() < u64::MAX
                    ==> final(self).inner.unwrap().db.reads()
                        == old(self).inner.unwrap().db.reads() + 1)
                &&& (r matches Ok(v) ==> {
                    &&& v == old(self).inner.unwrap().db.state().accounts[address]
                    &&& final(self).inner.unwrap().cached.model() == cache_with_account(
                        old(self).inner.unwrap().cached.model(),
                        address as u128,
                        v,
                        Map::<u128, u64>::empty(),
                    )
                })
                &&& (r is Err ==> final(self).inner.unwrap().cached.model() == old(
                    self,
                ).inner.unwrap().cached.model())
            },
    {
        let mut db = match self.try_take() {
            Some(db) => db,
            None => {
                proof {
                    assert(false);
                }
                return Err(ProviderError::Backend);
            }
        };
        let r = db.basic(address);
        self.put_back(db);
        r
    }

    /// Bytecode of `code_hash` through the guard.
    pub fn code_by_hash_ref(&mut self, code_hash: u64) -> (r: Result<Vec<u8>, ProviderError>)
        requires
            old(self).available(),
            old(self).inner.unwrap().cached.wf(),
        ensures
            final(self).available(),
            final(self).inner.unwrap().cached.wf(),
            final(self).inner.unwrap().db.state() == old(self).inner.unwrap().db.state(),
            cache_extends(
                final(self).inner.unwrap().cached.model(),
                old(self).inner.unwrap().cached.model(),
            ),
            old(self).inner.unwrap().cached.model().contracts.contains_key(code_hash as u128)
                ==> {
                &&& (r matches Ok(v) && v@ == old(self).inner.unwrap().cached.model().contracts[
                    code_hash as u128])
                &&& final(self).inner.unwrap().cached.model() == old(
                    self,
                ).inner.unwrap().cached.model()
                &&& final(self).inner.unwrap().db.reads() == old(self).inner.unwrap().db.reads()
            },
            !old(self).inner.unwrap().cached.model().contracts.contains_key(code_hash as u128)
                ==> {
                &&& final(self).inner.unwrap().db.reads() >= old(self).inner.unwrap().db.reads()
                &&& final(self).inner.unwrap().db.reads() <= old(self).inner.unwrap().db.reads()
                    + 1
                &&& (old(self).inner.unwrap().db.reads() < u64::MAX
                    ==> final(self).inner.unwrap().db.reads()
                        == old(self).inner.unwrap().db.reads() + 1)
                &&& (r matches Ok(v) ==> {
                    &&& v@ == old(self).inner.unwrap().db.state().code[code_hash]
                    &&& final(self).inner.unwrap().cached.model() == cache_with_code(
                        old(self).inner.unwrap().cached.model(),
                        code_hash as u128,
                        v@,
                    )
                })
                &&& (r is Err ==> final(self).inner.unwrap().cached.model() == old(
                    self,
                ).inner.unwrap().cached.model())
            },
    {
        let mut db = match self.try_take() {
            Some(db) => db,
            None => {
                proof {
                    assert(false);
                }
                return Err(ProviderError::Backend);
            }
        };
        let r = db.code_by_hash(code_hash);
        self.put_back(db);
        r
    }

    /// Storage word of `address` at `index` through the guard.
    pub fn storage_ref(&mut self, address: u64, index: u64) -> (r: Result<u64, ProviderError>)
        requires
            old(self).available(),
            old(self).inner.unwrap().cached.wf(),
        ensures
            final(self).available(),
            final(self).inner.unwrap().cached.wf(),
            final(self).inner.unwrap().db.state() == old(self).inner.unwrap().db.state(),
            cache_extends(
                final(self).inner.unwrap().cached.model(),
                old(self).inner.unwrap().cached.model(),
            ),
            old(self).inner.unwrap().cached.model().accounts.contains_key(address as u128)
                && old(self).inner.unwrap().cached.model().accounts[
                address as u128].storage.contains_key(index as u128) ==> {
                &&& r == Ok::<u64, ProviderError>(
                    old(self).inner.unwrap().cached.model().accounts[
                        address as u128].storage[index as u128],
                )
                &&& final(self).inner.unwrap().cached.model() == old(
                    self,
                ).inner.unwrap().cached.model()
                &&& final(self).inner.unwrap().db.reads() == old(self).inner.unwrap().db.reads()
            },
            final(self).inner.unwrap().db.reads() >= old(self).inner.unwrap().db.reads(),
            final(self).inner.unwrap().db.reads() <= old(self).inner.unwrap().db.reads() + 2,
            (r is Err ==> final(self).inner.unwrap().cached.model() == old(
                self,
            ).inner.unwrap().cached.model()),
            old(self).inner.unwrap().cached.model().accounts.contains_key(address as u128)
                && !old(self).inner.unwrap().cached.model().accounts[
                address as u128].storage.contains_key(index as u128) ==> (r matches Ok(v) ==> {
                &&& v == old(self).inner.unwrap().db.state().storage[(address, index)]
                &&& final(self).inner.unwrap().cached.model() == cache_with_slot(
                    old(self).inner.unwrap().cached.model(),
                    address as u128,
                    index as u128,
                    v,
                )
            }),
            !old(self).inner.unwrap().cached.model().accounts.contains_key(address as u128)
                ==> (r matches Ok(v) ==> {
                &&& (old(self).inner.unwrap().db.state().accounts[address] is Some ==> {
                    &&& v == old(self).inner.unwrap().db.state().storage[(address, index)]
                    &&& final(self).inner.unwrap().cached.model() == cache_with_account(
                        old(self).inner.unwrap().cached.model(),
                        address as u128,
                        old(self).inner.unwrap().db.state().accounts[address],
                        Map::<u128, u64>::empty().insert(index as u128, v),
                    )
                })
                &&& (old(self).inner.unwrap().db.state().accounts[address] is None ==> {
                    &&& v == 0
                    &&& final(self).inner.unwrap().cached.model() == cache_with_account(
                        old(self).inner.unwrap().cached.model(),
                        address as u128,
                        None,
                        Map::<u128, u64>::empty(),
                    )
                })
            }),
    {
        let mut db = match self.try_take() {
            Some(db) => db,
            None => {
                proof {
                    assert(false);
                }
                return Err(ProviderError::Backend);
            }
        };
        let r = db.storage(address, index);
        self.put_back(db);
        r
    }

    /// Hash of block `number` through the guard.
    pub fn block_hash_ref(&mut self, number: u64) -> (r: Result<u64, ProviderError>)
        requires
            old(self).available(),
            old(self).inner.unwrap().cached.wf(),
        ensures
            final(self).available(),
            final(self).inner.unwrap().cached.wf(),
            final(self).inner.unwrap().db.state() == old(self).inner.unwrap().db.state(),
            cache_extends(
                final(self).inner.unwrap().cached.model(),
                old(self).inner.unwrap().cached.model(),
            ),
            old(self).inner.unwrap().cached.model().block_hashes.contains_key(number as u128)
                ==> {
                &&& r == Ok::<u64, ProviderError>(
                    old(self).inner.unwrap().cached.model().block_hashes[number as u128],
                )
                &&& final(self).inner.unwrap().cached.model() == old(
                    self,
                ).inner.unwrap().cached.model()
                &&& final(self).inner.unwrap().db.reads() == old(self).inner.unwrap().db.reads()
            },
            !old(self).inner.unwrap().cached.model().block_hashes.contains_key(number as u128)
                ==> {
                &&& final(self).inner.unwrap().db.reads() >= old(self).inner.unwrap().db.reads()
                &&& final(self).inner.unwrap().db.reads() <= old(self).inner.unwrap().db.reads()
                    + 1
                &&& (old(self).inner.unwrap().db.reads() < u64::MAX
                    ==> final(self).inner.unwrap().db.reads()
                        == old(self).inner.unwrap().db.reads() + 1)
                &&& (r matches Ok(v) ==> {
                    &&& v == old(self).inner.unwrap().db.state().block_hashes[number]
                    &&& final(self).inner.unwrap().cached.model() == cache_with_block_hash(
                        old(self).inner.unwrap().cached.model(),
                        number as u128,
                        v,
                    )
                })
                &&& (r is Err ==> final(self).inner.unwrap().cached.model() == old(
                    self,
                ).inner.unwrap().cached.model())
            },
    {
        let mut db = match self.try_take() {
            Some(db) => db,
            None => {
                proof {
                    assert(false);
                }
                return Err(ProviderError::Backend);
            }
        };
        let r = db.block_hash(number);
        self.put_back(db);
        r
    }
}

} // verus!
