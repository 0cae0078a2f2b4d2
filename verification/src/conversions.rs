//! Conversions between the plain and the chain-qualified read caches.
//!
//! Tagging attaches one chain id to every key of a plain cache; projecting
//! keeps exactly the entries of one chain id and drops the tag. The round
//! trip through both, for a fixed chain id, reproduces the plain cache —
//! see [`lemma_conversion_round_trip`].

use vstd::prelude::*;
use vstd::pervasive::VecAdditionalExecFns;

use crate::cache::{CachedAccount, CachedReads};
use crate::keys::{key_hi, key_lo, lemma_pack_key, lemma_unpack_pack, pack_key, spec_pack_key, KEY_RADIX};
use crate::listmap::{assoc_view, ListMap};
use crate::sync_cache::SyncCachedReads;

verus! {

/// The map with every key tagged by `chain_id`.
pub open spec fn tag_keys<V>(m: Map<u128, V>, chain_id: u64) -> Map<u128, V> {
    Map::new(
        |q: u128| key_hi(q) == chain_id && m.contains_key(key_lo(q) as u128),
        |q: u128| m[key_lo(q) as u128],
    )
}

/// The entries of one chain id, with the tag dropped.
pub open spec fn project_keys<V>(m: Map<u128, V>, chain_id: u64) -> Map<u128, V> {
    Map::new(
        |k: u128| k < KEY_RADIX && m.contains_key(spec_pack_key(chain_id, k as u64)),
        |k: u128| m[spec_pack_key(chain_id, k as u64)],
    )
}

/// Tagging commutes with inserting one plain-keyed entry.
pub proof fn lemma_tag_insert<V>(m: Map<u128, V>, chain_id: u64, k: u128, v: V)
    requires
        k < KEY_RADIX,
    ensures
        tag_keys(m.insert(k, v), chain_id) =~= tag_keys(m, chain_id).insert(
            spec_pack_key(chain_id, k as u64),
            v,
        ),
{
    lemma_pack_key(chain_id, k as u64);
    assert forall|q: u128| true implies {
        &&& tag_keys(m.insert(k, v), chain_id).contains_key(q) == tag_keys(m, chain_id).insert(
            spec_pack_key(chain_id, k as u64),
            v,
        ).contains_key(q)
        &&& tag_keys(m.insert(k, v), chain_id).contains_key(q) ==> tag_keys(m.insert(k, v), chain_id)[q]
            == tag_keys(m, chain_id).insert(spec_pack_key(chain_id, k as u64), v)[q]
    } by {
        lemma_unpack_pack(q);
    }
}

/// Projecting commutes with inserting one tagged entry: an entry of the
/// projected chain lands under its plain key, any other entry is dropped.
pub proof fn lemma_project_insert<V>(m: Map<u128, V>, chain_id: u64, k: u128, v: V)
    ensures
        key_hi(k) == chain_id ==> project_keys(m.insert(k, v), chain_id) =~= project_keys(
            m,
            chain_id,
        ).insert(key_lo(k) as u128, v),
        key_hi(k) != chain_id ==> project_keys(m.insert(k, v), chain_id) =~= project_keys(
            m,
            chain_id,
        ),
{
    lemma_unpack_pack(k);
    assert forall|q: u128| true implies {
        &&& project_keys(m.insert(k, v), chain_id).contains_key(q) == (if key_hi(k) == chain_id {
            project_keys(m, chain_id).insert(key_lo(k) as u128, v)
        } else {
            project_keys(m, chain_id)
        }).contains_key(q)
        &&& project_keys(m.insert(k, v), chain_id).contains_key(q) ==> project_keys(
            m.insert(k, v),
            chain_id,
        )[q] == (if key_hi(k) == chain_id {
            project_keys(m, chain_id).insert(key_lo(k) as u128, v)
        } else {
            project_keys(m, chain_id)
        })[q]
    } by {
        if q < KEY_RADIX {
            lemma_pack_key(chain_id, q as u64);
        }
    }
}

/// Round trip: tagging every key of a plain-keyed map with one chain id
/// and projecting back for that chain id reproduces the map exactly.
pub proof fn lemma_conversion_round_trip<V>(m: Map<u128, V>, chain_id: u64)
    requires
        forall|k: u128| #[trigger] m.contains_key(k) ==> k < KEY_RADIX,
    ensures
        project_keys(tag_keys(m, chain_id), chain_id) =~= m,
{
    assert forall|q: u128| true implies {
        &&& project_keys(tag_keys(m, chain_id), chain_id).contains_key(q) == m.contains_key(q)
        &&& m.contains_key(q) ==> project_keys(tag_keys(m, chain_id), chain_id)[q] == m[q]
    } by {
        if q < KEY_RADIX {
            lemma_pack_key(chain_id, q as u64);
        }
    }
}

/// Tag every key of an account map.
fn tag_accounts(m: ListMap<CachedAccount>, chain_id: u64) -> (r: ListMap<CachedAccount>)
    requires
        m.wf(),
        forall|i: int| 0 <= i < m.kv().len() ==> (#[trigger] m.kv()[i]).0 < KEY_RADIX,
    ensures
        r.wf(),
        r@ == tag_keys(m@, chain_id),
        forall|i: int|
            0 <= i < r.kv().len() ==> exists|j: int|
                0 <= j < m.kv().len() && (#[trigger] r.kv()[i]).1 == m.kv()[j].1,
    {
        let ghost orig = m.kv();
        let mut entries = m.into_entries();
        let mut out: ListMap<CachedAccount> = ListMap::new();
        let n = entries.len();
        let mut i: usize = 0;
        while i < n
            invariant
                n == orig.len(),
                entries@.len() == n,
                i <= n,
                forall|j: int| i <= j < n ==> (#[trigger] entries@[j]) == orig[j],
                forall|j: int| 0 <= j < orig.len() ==> (#[trigger] orig[j]).0 < KEY_RADIX,
                out.wf(),
                out@ == tag_keys(assoc_view(orig.take(i as int)), chain_id),
                forall|p: int|
                    0 <= p < out.kv().len() ==> exists|j: int|
                        0 <= j < orig.len() && (#[trigger] out.kv()[p]).1 == orig[j].1,
            decreases n - i,
        {
            let mut taken: (u128, CachedAccount) = (0, CachedAccount::new(None));
            entries.set_and_swap(i, &mut taken);
            let (k, v) = taken;
            let packed = pack_key(chain_id, k as u64);
            out.insert(packed, v);
            proof {
                assert(orig.take(i as int + 1).drop_last() =~= orig.take(i as int));
                lemma_tag_insert(assoc_view(orig.take(i as int)), chain_id, k, v);
                assert(out@ =~= tag_keys(assoc_view(orig.take(i as int + 1)), chain_id));
            }
            i = i + 1;
        }
        proof {
            assert(orig.take(n as int) =~= orig);
        }
        out
    }

/// Tag every key of a bytecode map.
fn tag_contracts(m: ListMap<Vec<u8>>, chain_id: u64) -> (r: ListMap<Vec<u8>>)
    requires
        m.wf(),
        forall|i: int| 0 <= i < m.kv().len() ==> (#[trigger] m.kv()[i]).0 < KEY_RADIX,
    ensures
        r.wf(),
        r@ == tag_keys(m@, chain_id),
    {
        let ghost orig = m.kv();
        let mut entries = m.into_entries();
        let mut out: ListMap<Vec<u8>> = ListMap::new();
        let n = entries.len();
        let mut i: usize = 0;
        while i < n
            invariant
                n == orig.len(),
                entries@.len() == n,
                i <= n,
                forall|j: int| i <= j < n ==> (#[trigger] entries@[j]) == orig[j],
                forall|j: int| 0 <= j < orig.len() ==> (#[trigger] orig[j]).0 < KEY_RADIX,
                out.wf(),
                out@ == tag_keys(assoc_view(orig.take(i as int)), chain_id),
            decreases n - i,
        {
            let mut taken: (u128, Vec<u8>) = (0, Vec::new());
            entries.set_and_swap(i, &mut taken);
            let (k, v) = taken;
            let packed = pack_key(chain_id, k as u64);
            out.insert(packed, v);
            proof {
                assert(orig.take(i as int + 1).drop_last() =~= orig.take(i as int));
                lemma_tag_insert(assoc_view(orig.take(i as int)), chain_id, k, v);
                assert(out@ =~= tag_keys(assoc_view(orig.take(i as int + 1)), chain_id));
            }
            i = i + 1;
        }
        proof {
            assert(orig.take(n as int) =~= orig);
        }
        out
    }

/// Tag every key of a block-hash map.
fn tag_hashes(m: ListMap<u64>, chain_id: u64) -> (r: ListMap<u64>)
    requires
        m.wf(),
        forall|i: int| 0 <= i < m.kv().len() ==> (#[trigger] m.kv()[i]).0 < KEY_RADIX,
    ensures
        r.wf(),
        r@ == tag_keys(m@, chain_id),
    {
        let ghost orig = m.kv();
        let mut entries = m.into_entries();
        let mut out: ListMap<u64> = ListMap::new();
        let n = entries.len();
        let mut i: usize = 0;
        while i < n
            invariant
                n == orig.len(),
                entries@.len() == n,
                i <= n,
                forall|j: int| i <= j < n ==> (#[trigger] entries@[j]) == orig[j],
                forall|j: int| 0 <= j < orig.len() ==> (#[trigger] orig[j]).0 < KEY_RADIX,
                out.wf(),
                out@ == tag_keys(assoc_view(orig.take(i as int)), chain_id),
            decreases n - i,
        {
            let mut taken: (u128, u64) = (0, 0);
            entries.set_and_swap(i, &mut taken);
            let (k, v) = taken;
            let packed = pack_key(chain_id, k as u64);
            out.insert(packed, v);
            proof {
                assert(orig.take(i as int + 1).drop_last() =~= orig.take(i as int));
                lemma_tag_insert(assoc_view(orig.take(i as int)), chain_id, k, v);
                assert(out@ =~= tag_keys(assoc_view(orig.take(i as int + 1)), chain_id));
            }
            i = i + 1;
        }
        proof {
            assert(orig.take(n as int) =~= orig);
        }
        out
    }

/// Turn a plain cache into a chain-qualified cache by tagging every key
/// with `chain_id`; no entry is lost.
pub fn to_sync_cached_reads(cache_reads: CachedReads, chain_id: u64) -> (r: SyncCachedReads)
    requires
        cache_reads.wf(),
    ensures
        r.wf(),
        r.model().accounts == tag_keys(cache_reads.model().accounts, chain_id),
        r.model().contracts == tag_keys(cache_reads.model().contracts, chain_id),
        r.model().block_hashes == tag_keys(cache_reads.model().block_hashes, chain_id),
{
    let ghost pre = cache_reads;
    let CachedReads { accounts, contracts, block_hashes } = cache_reads;
    let tagged_accounts = tag_accounts(accounts, chain_id);
    let tagged_contracts = tag_contracts(contracts, chain_id);
    let tagged_hashes = tag_hashes(block_hashes, chain_id);
    let r = SyncCachedReads {
        accounts: tagged_accounts,
        contracts: tagged_contracts,
        block_hashes: tagged_hashes,
    };
    proof {
        assert forall|i: int| 0 <= i < r.accounts.kv().len() implies (#[trigger] r.accounts.kv()[i]).1.storage.wf() by {
            let j = choose|j: int|
                0 <= j < pre.accounts.kv().len() && r.accounts.kv()[i].1 == pre.accounts.kv()[j].1;
        }
        assert forall|q: u128| true implies {
            &&& r.model().accounts.contains_key(q) == tag_keys(
                pre.model().accounts,
                chain_id,
            ).contains_key(q)
            &&& r.model().accounts.contains_key(q) ==> r.model().accounts[q] == tag_keys(
                pre.model().accounts,
                chain_id,
            )[q]
        } by {}
        assert(r.model().accounts =~= tag_keys(pre.model().accounts, chain_id));
        assert(r.model().contracts =~= tag_keys(pre.model().contracts, chain_id));
        assert(r.model().block_hashes =~= tag_keys(pre.model().block_hashes, chain_id));
    }
    r
}

/// Keep the account entries of one chain, dropping the tag.
fn project_accounts(m: ListMap<CachedAccount>, chain_id: u64) -> (r: ListMap<CachedAccount>)
    requires
        m.wf(),
    ensures
        r.wf(),
        r@ == project_keys(m@, chain_id),
        forall|i: int| 0 <= i < r.kv().len() ==> (#[trigger] r.kv()[i]).0 < KEY_RADIX,
        forall|i: int|
            0 <= i < r.kv().len() ==> exists|j: int|
                0 <= j < m.kv().len() && (#[trigger] r.kv()[i]).1 == m.kv()[j].1,
    {
        let ghost orig = m.kv();
        let mut entries = m.into_entries();
        let mut out: ListMap<CachedAccount> = ListMap::new();
        let n = entries.len();
        let mut i: usize = 0;
        while i < n
            invariant
                n == orig.len(),
                entries@.len() == n,
                i <= n,
                forall|j: int| i <= j < n ==> (#[trigger] entries@[j]) == orig[j],
                out.wf(),
                out@ == project_keys(assoc_view(orig.take(i as int)), chain_id),
                forall|p: int| 0 <= p < out.kv().len() ==> (#[trigger] out.kv()[p]).0 < KEY_RADIX,
                forall|p: int|
                    0 <= p < out.kv().len() ==> exists|j: int|
                        0 <= j < orig.len() && (#[trigger] out.kv()[p]).1 == orig[j].1,
            decreases n - i,
        {
            let mut taken: (u128, CachedAccount) = (0, CachedAccount::new(None));
            entries.set_and_swap(i, &mut taken);
            let (k, v) = taken;
            let (hi, lo) = crate::roots::split128(k);
            if hi == chain_id {
                out.insert(lo as u128, v);
            }
            proof {
                assert(orig.take(i as int + 1).drop_last() =~= orig.take(i as int));
                lemma_project_insert(assoc_view(orig.take(i as int)), chain_id, k, v);
                assert(out@ =~= project_keys(assoc_view(orig.take(i as int + 1)), chain_id));
            }
            i = i + 1;
        }
        proof {
            assert(orig.take(n as int) =~= orig);
        }
        out
    }

/// Keep the bytecode entries of one chain, dropping the tag.
fn project_contracts(m: ListMap<Vec<u8>>, chain_id: u64) -> (r: ListMap<Vec<u8>>)
    requires
        m.wf(),
    ensures
        r.wf(),
        r@ == project_keys(m@, chain_id),
        forall|i: int| 0 <= i < r.kv().len() ==> (#[trigger] r.kv()[i]).0 < KEY_RADIX,
    {
        let ghost orig = m.kv();
        let mut entries = m.into_entries();
        let mut out: ListMap<Vec<u8>> = ListMap::new();
        let n = entries.len();
        let mut i: usize = 0;
        while i < n
            invariant
                n == orig.len(),
                entries@.len() == n,
                i <= n,
                forall|j: int| i <= j < n ==> (#[trigger] entries@[j]) == orig[j],
                out.wf(),
                out@ == project_keys(assoc_view(orig.take(i as int)), chain_id),
                forall|p: int| 0 <= p < out.kv().len() ==> (#[trigger] out.kv()[p]).0 < KEY_RADIX,
            decreases n - i,
        {
            let mut taken: (u128, Vec<u8>) = (0, Vec::new());
            entries.set_and_swap(i, &mut taken);
            let (k, v) = taken;
            let (hi, lo) = crate::roots::split128(k);
            if hi == chain_id {
                out.insert(lo as u128, v);
            }
            proof {
                assert(orig.take(i as int + 1).drop_last() =~= orig.take(i as int));
                lemma_project_insert(assoc_view(orig.take(i as int)), chain_id, k, v);
                assert(out@ =~= project_keys(assoc_view(orig.take(i as int + 1)), chain_id));
            }
            i = i + 1;
        }
        proof {
            assert(orig.take(n as int) =~= orig);
        }
        out
    }

/// Keep the block-hash entries of one chain, dropping the tag.
fn project_hashes(m: ListMap<u64>, chain_id: u64) -> (r: ListMap<u64>)
    requires
        m.wf(),
    ensures
        r.wf(),
        r@ == project_keys(m@, chain_id),
        forall|i: int| 0 <= i < r.kv().len() ==> (#[trigger] r.kv()[i]).0 < KEY_RADIX,
    {
        let ghost orig = m.kv();
        let mut entries = m.into_entries();
        let mut out: ListMap<u64> = ListMap::new();
        let n = entries.len();
        let mut i: usize = 0;
        while i < n
            invariant
                n == orig.len(),
                entries@.len() == n,
                i <= n,
                forall|j: int| i <= j < n ==> (#[trigger] entries@[j]) == orig[j],
                out.wf(),
                out@ == project_keys(assoc_view(orig.take(i as int)), chain_id),
                forall|p: int| 0 <= p < out.kv().len() ==> (#[trigger] out.kv()[p]).0 < KEY_RADIX,
            decreases n - i,
        {
            let mut taken: (u128, u64) = (0, 0);
            entries.set_and_swap(i, &mut taken);
            let (k, v) = taken;
            let (hi, lo) = crate::roots::split128(k);
            if hi == chain_id {
                out.insert(lo as u128, v);
            }
            proof {
                assert(orig.take(i as int + 1).drop_last() =~= orig.take(i as int));
                lemma_project_insert(assoc_view(orig.take(i as int)), chain_id, k, v);
                assert(out@ =~= project_keys(assoc_view(orig.take(i as int + 1)), chain_id));
            }
            i = i + 1;
        }
        proof {
            assert(orig.take(n as int) =~= orig);
        }
        out
    }

/// Project a chain-qualified cache back to a plain cache, keeping exactly
/// the entries of `chain_id`.
pub fn from_sync_cached_reads(sync: SyncCachedReads, chain_id: u64) -> (r: CachedReads)
    requires
        sync.wf(),
    ensures
        r.wf(),
        r.model().accounts == project_keys(sync.model().accounts, chain_id),
        r.model().contracts == project_keys(sync.model().contracts, chain_id),
        r.model().block_hashes == project_keys(sync.model().block_hashes, chain_id),
{
    let ghost pre = sync;
    let SyncCachedReads { accounts, contracts, block_hashes } = sync;
    let plain_accounts = project_accounts(accounts, chain_id);
    let plain_contracts = project_contracts(contracts, chain_id);
    let plain_hashes = project_hashes(block_hashes, chain_id);
    let r = CachedReads {
        accounts: plain_accounts,
        contracts: plain_contracts,
        block_hashes: plain_hashes,
    };
    proof {
        assert forall|i: int| 0 <= i < r.accounts.kv().len() implies (#[trigger] r.accounts.kv()[i]).1.storage.wf() by {
            let j = choose|j: int|
                0 <= j < pre.accounts.kv().len() && r.accounts.kv()[i].1 == pre.accounts.kv()[j].1;
        }
        assert(r.model().accounts =~= project_keys(pre.model().accounts, chain_id));
        assert(r.model().contracts =~= project_keys(pre.model().contracts, chain_id));
        assert(r.model().block_hashes =~= project_keys(pre.model().block_hashes, chain_id));
    }
    r
}

/// In a well-formed plain cache, every key of the ghost shape is a plain
/// 64-bit word.
pub proof fn lemma_plain_cache_keys(c: &CachedReads)
    requires
        c.wf(),
    ensures
        forall|k: u128| #[trigger] c.model().accounts.contains_key(k) ==> k < KEY_RADIX,
        forall|k: u128| #[trigger] c.model().contracts.contains_key(k) ==> k < KEY_RADIX,
        forall|k: u128| #[trigger] c.model().block_hashes.contains_key(k) ==> k < KEY_RADIX,
{
    assert forall|k: u128| #[trigger] c.model().accounts.contains_key(k) implies k < KEY_RADIX by {
        c.accounts.lemma_contains(k);
    }
    assert forall|k: u128| #[trigger] c.model().contracts.contains_key(k) implies k < KEY_RADIX by {
        c.contracts.lemma_contains(k);
    }
    assert forall|k: u128| #[trigger] c.model().block_hashes.contains_key(k) implies k
        < KEY_RADIX by {
        c.block_hashes.lemma_contains(k);
    }
}

/// Round trip at the cache level: tagging a plain cache with a chain id
/// and projecting back for that chain id reproduces the cache's ghost
/// shape exactly.
pub proof fn lemma_cache_round_trip(c: &CachedReads, chain_id: u64)
    requires
        c.wf(),
    ensures
        project_keys(tag_keys(c.model().accounts, chain_id), chain_id) == c.model().accounts,
        project_keys(tag_keys(c.model().contracts, chain_id), chain_id) == c.model().contracts,
        project_keys(tag_keys(c.model().block_hashes, chain_id), chain_id) == c.model().block_hashes,
{
    lemma_plain_cache_keys(c);
    lemma_conversion_round_trip(c.model().accounts, chain_id);
    lemma_conversion_round_trip(c.model().contracts, chain_id);
    lemma_conversion_round_trip(c.model().block_hashes, chain_id);
}

} // verus!
