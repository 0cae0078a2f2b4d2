//! Read-cache behaviour: memoization, seeding, the single-borrower guard,
//! and the conversions between the plain and chain-qualified caches.

use taiko_payload::cache::{CachedReads, CachedReadsDbMut};
use taiko_payload::conversions::{from_sync_cached_reads, to_sync_cached_reads};
use taiko_payload::keys::pack_key;
use taiko_payload::listmap::ListMap;
use taiko_payload::provider::MemoryProvider;
use taiko_payload::sync_cache::{ChainAddress, MemorySyncProvider, SyncCachedReads};
use taiko_payload::types::{AccountInfo, ProviderError};

fn seeded_provider() -> MemoryProvider {
    let mut p = MemoryProvider::new();
    p.put_account(5, AccountInfo { balance: 1000, nonce: 3, code_hash: 77 });
    p.put_storage(5, 2, 42);
    p.put_code(77, vec![1, 2, 3]);
    p.put_block_hash(9, 0xabcd);
    p
}

#[test]
fn repeated_account_reads_hit_provider_once() {
    let provider = seeded_provider();
    let cache = CachedReads::new();
    let mut db = cache.as_db_mut(provider);
    let first = db.basic(5).unwrap();
    assert_eq!(first, Some(AccountInfo { balance: 1000, nonce: 3, code_hash: 77 }));
    let (cache, provider) = db.into_parts();
    assert_eq!(provider.lookup_count(), 1);
    let mut db = cache.as_db_mut(provider);
    let second = db.basic(5).unwrap();
    assert_eq!(second, first);
    let third = db.basic(5).unwrap();
    assert_eq!(third, first);
    let (_, provider) = db.into_parts();
    assert_eq!(provider.lookup_count(), 1);
}

#[test]
fn absent_account_is_cached_definitively() {
    let provider = MemoryProvider::new();
    let cache = CachedReads::new();
    let mut db = cache.as_db_mut(provider);
    assert_eq!(db.basic(123).unwrap(), None);
    assert_eq!(db.basic(123).unwrap(), None);
    let (_, provider) = db.into_parts();
    assert_eq!(provider.lookup_count(), 1);
}

#[test]
fn storage_read_paths_fill_and_hit() {
    let provider = seeded_provider();
    let cache = CachedReads::new();
    let mut db = cache.as_db_mut(provider);
    // Unknown account: loads the account, then the slot: two reads.
    assert_eq!(db.storage(5, 2).unwrap(), 42);
    let (cache, provider) = db.into_parts();
    assert_eq!(provider.lookup_count(), 2);
    let mut db = cache.as_db_mut(provider);
    // Cached slot: no further read.
    assert_eq!(db.storage(5, 2).unwrap(), 42);
    let (cache, provider) = db.into_parts();
    assert_eq!(provider.lookup_count(), 2);
    // Cached account, unread slot: exactly one more read.
    let mut db = cache.as_db_mut(provider);
    assert_eq!(db.storage(5, 3).unwrap(), 0);
    let (_, provider) = db.into_parts();
    assert_eq!(provider.lookup_count(), 3);
}

#[test]
fn storage_of_absent_account_reads_zero_without_slot_fetch() {
    let provider = MemoryProvider::new();
    let cache = CachedReads::new();
    let mut db = cache.as_db_mut(provider);
    assert_eq!(db.storage(77, 1).unwrap(), 0);
    let (cache, provider) = db.into_parts();
    // Only the account lookup happened; the slot was not fetched.
    assert_eq!(provider.lookup_count(), 1);
    // The absent account is cached; reading a slot now fetches just the
    // slot once, and later reads of it hit.
    let mut db = cache.as_db_mut(provider);
    assert_eq!(db.storage(77, 1).unwrap(), 0);
    assert_eq!(db.storage(77, 1).unwrap(), 0);
    let (_, provider) = db.into_parts();
    assert_eq!(provider.lookup_count(), 2);
}

#[test]
fn code_and_block_hash_are_cached() {
    let provider = seeded_provider();
    let cache = CachedReads::new();
    let mut db = cache.as_db_mut(provider);
    assert_eq!(db.code_by_hash(77).unwrap(), vec![1, 2, 3]);
    assert_eq!(db.code_by_hash(77).unwrap(), vec![1, 2, 3]);
    assert_eq!(db.block_hash(9).unwrap(), 0xabcd);
    assert_eq!(db.block_hash(9).unwrap(), 0xabcd);
    let (_, provider) = db.into_parts();
    assert_eq!(provider.lookup_count(), 2);
}

#[test]
fn seeded_account_needs_no_provider() {
    let provider = MemoryProvider::new();
    let mut cache = CachedReads::new();
    let mut storage = ListMap::new();
    storage.insert(8, 99);
    cache.insert_account(11, AccountInfo { balance: 5, nonce: 0, code_hash: 0 }, storage);
    let mut db = cache.as_db_mut(provider);
    assert_eq!(db.basic(11).unwrap(), Some(AccountInfo { balance: 5, nonce: 0, code_hash: 0 }));
    assert_eq!(db.storage(11, 8).unwrap(), 99);
    let (_, provider) = db.into_parts();
    assert_eq!(provider.lookup_count(), 0);
}

#[test]
fn provider_failure_is_reported_and_cache_unchanged() {
    let mut provider = MemoryProvider::new();
    provider.set_fail_after(Some(0));
    let cache = CachedReads::new();
    let mut db = cache.as_db_mut(provider);
    assert_eq!(db.basic(1), Err(ProviderError::Backend));
    let (cache, _) = db.into_parts();
    assert_eq!(cache.accounts.len(), 0);
}

#[test]
fn guard_fails_fast_on_second_take() {
    let provider = MemoryProvider::new();
    let cache = CachedReads::new();
    let mut guarded = cache.as_db(provider);
    let taken: Option<CachedReadsDbMut<MemoryProvider>> = guarded.try_take();
    assert!(taken.is_some());
    // A second concurrent take must fail fast, not hand out a second
    // borrower.
    assert!(guarded.try_take().is_none());
    guarded.put_back(taken.unwrap());
    assert!(guarded.try_take().is_some());
}

#[test]
fn guarded_reads_borrow_and_hand_back() {
    let mut guarded = CachedReads::new().as_db(seeded_provider());
    assert_eq!(
        guarded.basic_ref(5).unwrap(),
        Some(AccountInfo { balance: 1000, nonce: 3, code_hash: 77 })
    );
    assert_eq!(guarded.storage_ref(5, 2).unwrap(), 42);
    assert_eq!(guarded.code_by_hash_ref(77).unwrap(), vec![1, 2, 3]);
    assert_eq!(guarded.block_hash_ref(9).unwrap(), 0xabcd);
    // Every call hands the adapter back: the guard is available again.
    let inner = guarded.try_take().unwrap();
    let (_, provider) = inner.into_parts();
    // Account, slot, code and block hash: four underlying reads in all.
    assert_eq!(provider.lookup_count(), 4);
}

fn sample_plain_cache() -> CachedReads {
    let mut cache = CachedReads::new();
    let mut storage = ListMap::new();
    storage.insert(7, 9);
    cache.insert_account(1, AccountInfo { balance: 10, nonce: 2, code_hash: 4 }, storage);
    cache.contracts.insert(2, vec![1, 2, 3]);
    cache.block_hashes.insert(3, 0xabc);
    cache
}

#[test]
fn conversion_round_trip_reproduces_plain_cache() {
    let chain_id = 99u64;
    let plain = sample_plain_cache();
    let sync = to_sync_cached_reads(plain, chain_id);
    // Entries sit under chain-qualified keys.
    assert!(sync.accounts.get(pack_key(chain_id, 1)).is_some());
    assert_eq!(sync.contracts.get(pack_key(chain_id, 2)), Some(&vec![1, 2, 3]));
    assert_eq!(sync.block_hashes.get(pack_key(chain_id, 3)), Some(&0xabc));
    let back = from_sync_cached_reads(sync, chain_id);
    let acc = back.accounts.get(1).unwrap();
    assert_eq!(acc.info, Some(AccountInfo { balance: 10, nonce: 2, code_hash: 4 }));
    assert_eq!(acc.storage.get(7), Some(&9));
    assert_eq!(back.accounts.len(), 1);
    assert_eq!(back.contracts.get(2), Some(&vec![1, 2, 3]));
    assert_eq!(back.contracts.len(), 1);
    assert_eq!(back.block_hashes.get(3), Some(&0xabc));
    assert_eq!(back.block_hashes.len(), 1);
}

#[test]
fn projection_keeps_only_the_requested_chain() {
    let chain_id = 99u64;
    let plain = sample_plain_cache();
    let mut sync = to_sync_cached_reads(plain, chain_id);
    // An entry of another chain must not survive the projection.
    sync.insert_account(
        ChainAddress(100, 1),
        AccountInfo { balance: 777, nonce: 0, code_hash: 0 },
        ListMap::new(),
    );
    let back = from_sync_cached_reads(sync, chain_id);
    assert_eq!(back.accounts.len(), 1);
    let acc = back.accounts.get(1).unwrap();
    assert_eq!(acc.info, Some(AccountInfo { balance: 10, nonce: 2, code_hash: 4 }));
}

#[test]
fn sync_cache_reads_through_per_chain() {
    let mut provider = MemorySyncProvider::new();
    provider.put_account(ChainAddress(7, 5), AccountInfo { balance: 50, nonce: 1, code_hash: 0 });
    provider.put_storage(ChainAddress(7, 5), 2, 13);
    let cache = SyncCachedReads::new();
    let mut db = cache.as_db_mut(provider);
    assert_eq!(
        db.basic(ChainAddress(7, 5)).unwrap(),
        Some(AccountInfo { balance: 50, nonce: 1, code_hash: 0 })
    );
    // The same address on another chain is a different account.
    assert_eq!(db.basic(ChainAddress(8, 5)).unwrap(), None);
    assert_eq!(db.storage(ChainAddress(7, 5), 2).unwrap(), 13);
    assert_eq!(db.storage(ChainAddress(7, 5), 2).unwrap(), 13);
    let (_, provider) = db.into_parts();
    // Two account loads, one slot fetch; the repeated slot read hit.
    assert_eq!(provider.lookup_count(), 3);
}
