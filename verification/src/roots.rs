//! Deterministic commitments over the model word width: transaction,
//! receipt, withdrawal and request roots, the logs bloom, the bundle
//! digest the in-memory state-root capability answers with, and header
//! sealing.
//!
//! Each commitment is a fold with a distinct seed, so a header pins the
//! lists it covers under this model in the way the consensus roots pin
//! them in the full protocol.

use vstd::prelude::*;

use crate::keys::{key_hi, key_lo, KEY_RADIX};
use crate::types::{
    Header, Receipt, Request, Transaction, TxType, Withdrawal, EMPTY_RECEIPTS, EMPTY_TRANSACTIONS,
};
use crate::bundle::BundleAccountSnap;

verus! {

/// Multiplier of the mixing step.
pub const MIX_PRIME: u64 = 0x100000001b3;

/// Seed of the withdrawals root; also the root of an empty withdrawal list.
pub const EMPTY_WITHDRAWALS: u64 = 0x46a1;
/// Seed of the requests root; also the root of an empty request list.
pub const EMPTY_REQUESTS: u64 = 0x52e9;
/// Seed of the bundle digest.
pub const BUNDLE_SEED: u64 = 0xb51d;
/// Seed of header sealing.
pub const HEADER_SEED: u64 = 0x4ead;

/// One mixing step: fold `b` into the running digest `a`.
pub open spec fn spec_mix(a: u64, b: u64) -> u64 {
    ((a * MIX_PRIME + b) % (KEY_RADIX as int)) as u64
}

/// Executable mixing step.
pub fn mix(a: u64, b: u64) -> (r: u64)
    ensures
        r == spec_mix(a, b),
{
    proof {
        assert((a as u128) * (MIX_PRIME as u128) + (b as u128) <= u128::MAX) by (nonlinear_arith)
            requires
                a as u128 <= 0xffff_ffff_ffff_ffffu128,
                b as u128 <= 0xffff_ffff_ffff_ffffu128,
                MIX_PRIME == 0x100000001b3u64,
        ;
    }
    let wide: u128 = (a as u128) * (MIX_PRIME as u128) + (b as u128);
    let r: u128 = wide % KEY_RADIX;
    r as u64
}

/// Split a 128-bit word into its 64-bit halves.
pub fn split128(x: u128) -> (r: (u64, u64))
    ensures
        r.0 == key_hi(x),
        r.1 == key_lo(x),
{
    proof {
        assert(x / KEY_RADIX < KEY_RADIX && x % KEY_RADIX < KEY_RADIX) by (nonlinear_arith)
            requires
                KEY_RADIX == 0x1_0000_0000_0000_0000u128,
        ;
    }
    ((x / KEY_RADIX) as u64, (x % KEY_RADIX) as u64)
}

/// Fold an optional word: absence and each value digest differently.
pub open spec fn spec_mix_opt(a: u64, o: Option<u64>) -> u64 {
    match o {
        Some(v) => spec_mix(spec_mix(a, 1), v),
        None => spec_mix(a, 0),
    }
}

/// Executable fold of an optional word.
pub fn mix_opt(a: u64, o: Option<u64>) -> (r: u64)
    ensures
        r == spec_mix_opt(a, o),
{
    match o {
        Some(v) => mix(mix(a, 1), v),
        None => mix(a, 0),
    }
}

/// Fold a 128-bit word as its two halves.
pub open spec fn spec_mix_wide(a: u64, x: u128) -> u64 {
    spec_mix(spec_mix(a, key_hi(x)), key_lo(x))
}

/// Executable fold of a 128-bit word.
pub fn mix_wide(a: u64, x: u128) -> (r: u64)
    ensures
        r == spec_mix_wide(a, x),
{
    let (hi, lo) = split128(x);
    mix(mix(a, hi), lo)
}

/// Numeric code of a transaction envelope kind.
pub open spec fn spec_tx_type_code(t: TxType) -> u64 {
    match t {
        TxType::Legacy => 0,
        TxType::Eip1559 => 2,
        TxType::Eip4844 => 3,
    }
}

/// Executable envelope-kind code.
pub fn tx_type_code(t: TxType) -> (r: u64)
    ensures
        r == spec_tx_type_code(t),
{
    match t {
        TxType::Legacy => 0,
        TxType::Eip1559 => 2,
        TxType::Eip4844 => 3,
    }
}

/// Root of a transaction list: the fold of the transaction hashes.
pub open spec fn spec_transactions_root(txs: Seq<Transaction>) -> u64
    decreases txs.len(),
{
    if txs.len() == 0 {
        EMPTY_TRANSACTIONS
    } else {
        spec_mix(spec_transactions_root(txs.drop_last()), txs.last().hash)
    }
}

/// Compute the transactions root of an executed list.
pub fn calculate_transaction_root(txs: &Vec<Transaction>) -> (r: u64)
    ensures
        r == spec_transactions_root(txs@),
{
    let mut acc: u64 = EMPTY_TRANSACTIONS;
    let n = txs.len();
    let mut i: usize = 0;
    while i < n
        invariant
            n == txs@.len(),
            i <= n,
            acc == spec_transactions_root(txs@.take(i as int)),
        decreases n - i,
    {
        acc = mix(acc, txs[i].hash);
        proof {
            assert(txs@.take(i as int + 1).drop_last() =~= txs@.take(i as int));
        }
        i = i + 1;
    }
    proof {
        assert(txs@.take(n as int) =~= txs@);
    }
    acc
}

/// Digest of one log record.
pub open spec fn spec_log_digest(a: u64, address: u64, data: u64) -> u64 {
    spec_mix(spec_mix(a, address), data)
}

/// Digest of one receipt: kind, status, gas total, then its logs.
pub open spec fn spec_receipt_digest(r: Receipt) -> u64
    decreases r.logs@.len(),
{
    spec_receipt_logs_digest(
        spec_mix(
            spec_mix(spec_tx_type_code(r.tx_type), if r.success {
                1
            } else {
                0
            }),
            r.cumulative_gas_used,
        ),
        r.logs@,
    )
}

/// Fold the logs of a receipt.
pub open spec fn spec_receipt_logs_digest(a: u64, logs: Seq<crate::types::Log>) -> u64
    decreases logs.len(),
{
    if logs.len() == 0 {
        a
    } else {
        spec_log_digest(spec_receipt_logs_digest(a, logs.drop_last()), logs.last().address, logs.last().data)
    }
}

/// Root of a receipt list.
pub open spec fn spec_receipts_root(rs: Seq<Receipt>) -> u64
    decreases rs.len(),
{
    if rs.len() == 0 {
        EMPTY_RECEIPTS
    } else {
        spec_mix(spec_receipts_root(rs.drop_last()), spec_receipt_digest(rs.last()))
    }
}

/// Compute the digest of one receipt.
pub fn receipt_digest(r: &Receipt) -> (d: u64)
    ensures
        d == spec_receipt_digest(*r),
{
    let status: u64 = if r.success {
        1
    } else {
        0
    };
    let mut acc: u64 = mix(mix(tx_type_code(r.tx_type), status), r.cumulative_gas_used);
    let ghost base = acc;
    let n = r.logs.len();
    let mut i: usize = 0;
    while i < n
        invariant
            n == r.logs@.len(),
            i <= n,
            acc == spec_receipt_logs_digest(base, r.logs@.take(i as int)),
        decreases n - i,
    {
        acc = mix(mix(acc, r.logs[i].address), r.logs[i].data);
        proof {
            assert(r.logs@.take(i as int + 1).drop_last() =~= r.logs@.take(i as int));
        }
        i = i + 1;
    }
    proof {
        assert(r.logs@.take(n as int) =~= r.logs@);
    }
    acc
}

/// Compute the receipts root of a receipt list.
pub fn calculate_receipts_root(rs: &Vec<Receipt>) -> (r: u64)
    ensures
        r == spec_receipts_root(rs@),
{
    let mut acc: u64 = EMPTY_RECEIPTS;
    let n = rs.len();
    let mut i: usize = 0;
    while i < n
        invariant
            n == rs@.len(),
            i <= n,
            acc == spec_receipts_root(rs@.take(i as int)),
        decreases n - i,
    {
        let d = receipt_digest(&rs[i]);
        acc = mix(acc, d);
        proof {
            assert(rs@.take(i as int + 1).drop_last() =~= rs@.take(i as int));
        }
        i = i + 1;
    }
    proof {
        assert(rs@.take(n as int) =~= rs@);
    }
    acc
}

/// Bloom bits of one log: one bit from the address, one from the data.
pub open spec fn spec_log_bloom(l: crate::types::Log) -> u64 {
    (1u64 << (l.address % 64)) | (1u64 << (l.data % 64))
}

/// Bloom of a log list.
pub open spec fn spec_logs_bloom_seq(a: u64, logs: Seq<crate::types::Log>) -> u64
    decreases logs.len(),
{
    if logs.len() == 0 {
        a
    } else {
        spec_logs_bloom_seq(a, logs.drop_last()) | spec_log_bloom(logs.last())
    }
}

/// Bloom of a receipt list: the union of the blooms of all logs.
pub open spec fn spec_block_logs_bloom(rs: Seq<Receipt>) -> u64
    decreases rs.len(),
{
    if rs.len() == 0 {
        0
    } else {
        spec_block_logs_bloom(rs.drop_last()) | spec_logs_bloom_seq(0, rs.last().logs@)
    }
}

/// Compute the bloom of the logs of one receipt, folded onto `a`.
fn receipt_bloom(a: u64, r: &Receipt) -> (b: u64)
    ensures
        b == a | spec_logs_bloom_seq(0, r.logs@),
{
    let mut acc: u64 = 0;
    let n = r.logs.len();
    let mut i: usize = 0;
    while i < n
        invariant
            n == r.logs@.len(),
            i <= n,
            acc == spec_logs_bloom_seq(0, r.logs@.take(i as int)),
        decreases n - i,
    {
        let l = r.logs[i];
        let ghost p = acc;
        let ghost x = 1u64 << (l.address % 64);
        let ghost y = 1u64 << (l.data % 64);
        acc = acc | (1u64 << (l.address % 64)) | (1u64 << (l.data % 64));
        proof {
            assert(r.logs@.take(i as int + 1).drop_last() =~= r.logs@.take(i as int));
            assert((p | x) | y == p | (x | y)) by (bit_vector);
            assert(spec_log_bloom(l) == (x | y));
        }
        i = i + 1;
    }
    proof {
        assert(r.logs@.take(n as int) =~= r.logs@);
    }
    a | acc
}

/// Compute the logs bloom of a receipt list.
pub fn block_logs_bloom(rs: &Vec<Receipt>) -> (b: u64)
    ensures
        b == spec_block_logs_bloom(rs@),
{
    let mut acc: u64 = 0;
    let n = rs.len();
    let mut i: usize = 0;
    while i < n
        invariant
            n == rs@.len(),
            i <= n,
            acc == spec_block_logs_bloom(rs@.take(i as int)),
        decreases n - i,
    {
        acc = receipt_bloom(acc, &rs[i]);
        proof {
            assert(rs@.take(i as int + 1).drop_last() =~= rs@.take(i as int));
        }
        i = i + 1;
    }
    proof {
        assert(rs@.take(n as int) =~= rs@);
    }
    acc
}

/// Digest of one withdrawal.
pub open spec fn spec_withdrawal_digest(a: u64, w: Withdrawal) -> u64 {
    spec_mix(spec_mix(spec_mix(spec_mix(a, w.index), w.validator_index), w.address), w.amount)
}

/// Root of a withdrawal list.
pub open spec fn spec_withdrawals_root(ws: Seq<Withdrawal>) -> u64
    decreases ws.len(),
{
    if ws.len() == 0 {
        EMPTY_WITHDRAWALS
    } else {
        spec_withdrawal_digest(spec_withdrawals_root(ws.drop_last()), ws.last())
    }
}

/// Compute the withdrawals root.
pub fn calculate_withdrawals_root(ws: &Vec<Withdrawal>) -> (r: u64)
    ensures
        r == spec_withdrawals_root(ws@),
{
    let mut acc: u64 = EMPTY_WITHDRAWALS;
    let n = ws.len();
    let mut i: usize = 0;
    while i < n
        invariant
            n == ws@.len(),
            i <= n,
            acc == spec_withdrawals_root(ws@.take(i as int)),
        decreases n - i,
    {
        let w = ws[i];
        acc = mix(mix(mix(mix(acc, w.index), w.validator_index), w.address), w.amount);
        proof {
            assert(ws@.take(i as int + 1).drop_last() =~= ws@.take(i as int));
        }
        i = i + 1;
    }
    proof {
        assert(ws@.take(n as int) =~= ws@);
    }
    acc
}

/// Root of a request list.
pub open spec fn spec_requests_root(rs: Seq<Request>) -> u64
    decreases rs.len(),
{
    if rs.len() == 0 {
        EMPTY_REQUESTS
    } else {
        spec_mix(spec_requests_root(rs.drop_last()), spec_mix(rs.last().kind, rs.last().payload))
    }
}

/// Compute the requests root.
pub fn calculate_requests_root(rs: &Vec<Request>) -> (r: u64)
    ensures
        r == spec_requests_root(rs@),
{
    let mut acc: u64 = EMPTY_REQUESTS;
    let n = rs.len();
    let mut i: usize = 0;
    while i < n
        invariant
            n == rs@.len(),
            i <= n,
            acc == spec_requests_root(rs@.take(i as int)),
        decreases n - i,
    {
        let q = rs[i];
        acc = mix(acc, mix(q.kind, q.payload));
        proof {
            assert(rs@.take(i as int + 1).drop_last() =~= rs@.take(i as int));
        }
        i = i + 1;
    }
    proof {
        assert(rs@.take(n as int) =~= rs@);
    }
    acc
}

/// Digest of the written slots of one bundled account.
pub open spec fn spec_slots_digest(a: u64, slots: Seq<(u128, u64)>) -> u64
    decreases slots.len(),
{
    if slots.len() == 0 {
        a
    } else {
        spec_mix(
            spec_mix_wide(spec_slots_digest(a, slots.drop_last()), slots.last().0),
            slots.last().1,
        )
    }
}

/// Digest of one bundled account.
pub open spec fn spec_account_digest(a: u64, key: u128, acc: BundleAccountSnap) -> u64 {
    spec_slots_digest(
        spec_mix(
            spec_mix(spec_mix_wide(spec_mix_wide(a, key), acc.info.balance), acc.info.nonce),
            acc.info.code_hash,
        ),
        acc.storage,
    )
}

/// Digest of a whole bundle, the value the in-memory state-root capability
/// answers with.
pub open spec fn spec_bundle_root(s: Seq<(u128, BundleAccountSnap)>) -> u64
    decreases s.len(),
{
    if s.len() == 0 {
        BUNDLE_SEED
    } else {
        spec_account_digest(spec_bundle_root(s.drop_last()), s.last().0, s.last().1)
    }
}

/// Digest of an extra-data byte string folded onto `a`.
pub open spec fn spec_bytes_digest(a: u64, bs: Seq<u8>) -> u64
    decreases bs.len(),
{
    if bs.len() == 0 {
        a
    } else {
        spec_mix(spec_bytes_digest(a, bs.drop_last()), bs.last() as u64)
    }
}

/// Fold a byte string onto a running digest.
pub fn bytes_digest(a: u64, bs: &Vec<u8>) -> (r: u64)
    ensures
        r == spec_bytes_digest(a, bs@),
{
    let mut acc: u64 = a;
    let n = bs.len();
    let mut i: usize = 0;
    while i < n
        invariant
            n == bs@.len(),
            i <= n,
            acc == spec_bytes_digest(a, bs@.take(i as int)),
        decreases n - i,
    {
        acc = mix(acc, bs[i] as u64);
        proof {
            assert(bs@.take(i as int + 1).drop_last() =~= bs@.take(i as int));
        }
        i = i + 1;
    }
    proof {
        assert(bs@.take(n as int) =~= bs@);
    }
    acc
}

/// The canonical hash of a header: a fold over every header field.
#[verifier::opaque]
pub open spec fn spec_header_hash(h: Header) -> u64 {
    let a1 = spec_mix(spec_mix(spec_mix(HEADER_SEED, h.parent_hash), h.ommers_hash), h.beneficiary);
    let a2 = spec_mix_opt(a1, h.withdrawals_root);
    let a3 = spec_mix(a2, h.state_root);
    let a4 = spec_mix(a3, h.transactions_root);
    let a5 = spec_mix(a4, h.receipts_root);
    let a6 = spec_mix(a5, h.logs_bloom);
    let a7 = spec_mix(a6, h.number);
    let a8 = spec_mix_wide(a7, h.difficulty);
    let a9 = spec_mix(a8, h.gas_limit);
    let a10 = spec_mix(a9, h.gas_used);
    let a11 = spec_mix(a10, h.timestamp);
    let a12 = spec_mix(a11, h.mix_hash);
    let a13 = spec_bytes_digest(a12, h.extra_data@);
    let a14 = spec_mix(a13, h.nonce);
    let a15 = spec_mix_opt(a14, h.base_fee_per_gas);
    let a16 = spec_mix_opt(a15, h.blob_gas_used);
    let a17 = spec_mix_opt(a16, h.excess_blob_gas);
    let a18 = spec_mix_opt(a17, h.parent_beacon_block_root);
    spec_mix_opt(a18, h.requests_root)
}

/// Seal a header: compute its canonical hash.
pub fn seal_header(h: &Header) -> (r: u64)
    ensures
        r == spec_header_hash(*h),
{
    proof {
        reveal(spec_header_hash);
    }
    let mut acc: u64 = mix(mix(mix(HEADER_SEED, h.parent_hash), h.ommers_hash), h.beneficiary);
    acc = mix_opt(acc, h.withdrawals_root);
    acc = mix(acc, h.state_root);
    acc = mix(acc, h.transactions_root);
    acc = mix(acc, h.receipts_root);
    acc = mix(acc, h.logs_bloom);
    acc = mix(acc, h.number);
    acc = mix_wide(acc, h.difficulty);
    acc = mix(acc, h.gas_limit);
    acc = mix(acc, h.gas_used);
    acc = mix(acc, h.timestamp);
    acc = mix(acc, h.mix_hash);
    acc = bytes_digest(acc, &h.extra_data);
    acc = mix(acc, h.nonce);
    acc = mix_opt(acc, h.base_fee_per_gas);
    acc = mix_opt(acc, h.blob_gas_used);
    acc = mix_opt(acc, h.excess_blob_gas);
    acc = mix_opt(acc, h.parent_beacon_block_root);
    acc = mix_opt(acc, h.requests_root);
    acc
}

} // verus!
