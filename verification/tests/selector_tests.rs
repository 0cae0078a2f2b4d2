//! Selector behaviour: priority order, dependency invalidation, blob
//! skipping, and fee filtering.

use taiko_payload::selector::BestTransactions;
use taiko_payload::types::{Transaction, TxType};

fn tx(hash: u64, sender: u64, nonce: u64, priority_fee: u64) -> Transaction {
    Transaction {
        hash,
        sender,
        nonce,
        gas_limit: 21000,
        max_fee_per_gas: 1000,
        max_priority_fee_per_gas: priority_fee,
        max_fee_per_blob_gas: 0,
        value: 0,
        to: Some(1),
        chain_id: Some(1),
        input: Vec::new(),
        tx_type: TxType::Eip1559,
        blob_gas: 0,
    }
}

fn blob_tx(hash: u64, sender: u64, nonce: u64, priority_fee: u64, blob_gas: u64) -> Transaction {
    Transaction {
        hash,
        sender,
        nonce,
        gas_limit: 21000,
        max_fee_per_gas: 1000,
        max_priority_fee_per_gas: priority_fee,
        max_fee_per_blob_gas: 100,
        value: 0,
        to: Some(1),
        chain_id: Some(1),
        input: Vec::new(),
        tx_type: TxType::Eip4844,
        blob_gas,
    }
}

#[test]
fn orders_by_tip_then_arrival() {
    let pool = vec![tx(1, 10, 0, 5), tx(2, 11, 0, 9), tx(3, 12, 0, 5)];
    let mut sel = BestTransactions::new(pool, 10, None);
    assert_eq!(sel.next().unwrap().hash, 2);
    assert_eq!(sel.next().unwrap().hash, 1);
    assert_eq!(sel.next().unwrap().hash, 3);
    assert!(sel.next().is_none());
}

#[test]
fn invalidation_removes_same_sender_higher_nonces() {
    // Sender A holds nonces 0, 1, 2; sender B holds one transaction.
    let a = 100u64;
    let b = 200u64;
    let pool = vec![tx(1, a, 0, 9), tx(2, a, 1, 8), tx(3, a, 2, 7), tx(4, b, 0, 6)];
    let mut sel = BestTransactions::new(pool, 10, None);
    let first = sel.next().unwrap();
    assert_eq!(first.hash, 1);
    sel.mark_invalid(&first);
    // A's nonce-1 and nonce-2 transactions never appear again; B's is
    // unaffected.
    let second = sel.next().unwrap();
    assert_eq!(second.hash, 4);
    assert!(sel.next().is_none());
}

#[test]
fn invalidation_spares_lower_nonces() {
    let a = 100u64;
    let pool = vec![tx(1, a, 0, 5), tx(2, a, 1, 9)];
    let mut sel = BestTransactions::new(pool, 10, None);
    let first = sel.next().unwrap();
    assert_eq!(first.hash, 2);
    sel.mark_invalid(&first);
    // The mark bans nonce >= 1, so nonce 0 is still produced.
    assert_eq!(sel.next().unwrap().hash, 1);
    assert!(sel.next().is_none());
}

#[test]
fn skip_blobs_omits_remaining_blob_transactions() {
    let pool = vec![blob_tx(1, 10, 0, 9, 100), tx(2, 11, 0, 8), blob_tx(3, 12, 0, 7, 100)];
    let mut sel = BestTransactions::new(pool, 10, Some(50));
    assert_eq!(sel.next().unwrap().hash, 1);
    sel.skip_blobs();
    assert_eq!(sel.next().unwrap().hash, 2);
    assert!(sel.next().is_none());
}

#[test]
fn underpriced_transactions_are_not_produced() {
    // A transaction whose fee cap is below the base fee never appears.
    let mut poor = tx(1, 10, 0, 5);
    poor.max_fee_per_gas = 9;
    let pool = vec![poor, tx(2, 11, 0, 1)];
    let mut sel = BestTransactions::new(pool, 10, None);
    assert_eq!(sel.next().unwrap().hash, 2);
    assert!(sel.next().is_none());
}

#[test]
fn blob_price_filters_blob_transactions() {
    // The blob transaction cannot pay the blob-gas price and is omitted.
    let mut cheap_blob = blob_tx(1, 10, 0, 9, 100);
    cheap_blob.max_fee_per_blob_gas = 40;
    let pool = vec![cheap_blob, tx(2, 11, 0, 1)];
    let mut sel = BestTransactions::new(pool, 10, Some(50));
    assert_eq!(sel.next().unwrap().hash, 2);
    assert!(sel.next().is_none());
}

#[test]
fn effective_tip_is_capped_by_fee_cap() {
    let mut t = tx(1, 10, 0, 50);
    t.max_fee_per_gas = 30;
    // base fee 10: cap leaves 20, below the priority fee of 50.
    assert_eq!(t.effective_tip_per_gas(10), Some(20));
    assert_eq!(t.effective_tip_per_gas(31), None);
    let t2 = tx(2, 10, 0, 5);
    assert_eq!(t2.effective_tip_per_gas(10), Some(5));
}

#[test]
fn selection_is_not_restartable() {
    let pool = vec![tx(1, 10, 0, 5)];
    let mut sel = BestTransactions::new(pool, 10, None);
    assert_eq!(sel.next().unwrap().hash, 1);
    // Exhausted once, the same selection never produces again.
    assert!(sel.next().is_none());
    assert!(sel.next().is_none());
}
