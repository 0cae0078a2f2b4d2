//! Packing two 64-bit words into one 128-bit map key.
//!
//! The chain-qualified caches key every entry by (chain id, key); both halves
//! are 64-bit words, so the pair packs losslessly into one `u128`.

use vstd::prelude::*;

verus! {

/// 2^64, the weight of the high half of a packed key.
pub const KEY_RADIX: u128 = 0x1_0000_0000_0000_0000;

/// The packed form of the pair `(hi, lo)`.
pub open spec fn spec_pack_key(hi: u64, lo: u64) -> u128 {
    (hi as int * KEY_RADIX as int + lo as int) as u128
}

/// High half of a packed key.
pub open spec fn key_hi(k: u128) -> u64 {
    (k / KEY_RADIX) as u64
}

/// Low half of a packed key.
pub open spec fn key_lo(k: u128) -> u64 {
    (k % KEY_RADIX) as u64
}

/// Packing then splitting gives the halves back; packing is injective.
pub proof fn lemma_pack_key(hi: u64, lo: u64)
    ensures
        key_hi(spec_pack_key(hi, lo)) == hi,
        key_lo(spec_pack_key(hi, lo)) == lo,
{
    let k = spec_pack_key(hi, lo);
    assert(k / KEY_RADIX == hi && k % KEY_RADIX == lo) by (nonlinear_arith)
        requires
            k == hi as u128 * KEY_RADIX + lo as u128,
            (lo as u128) < KEY_RADIX,
            KEY_RADIX == 0x1_0000_0000_0000_0000u128,
    ;
}

/// Every key is the packed form of its halves.
pub proof fn lemma_unpack_pack(k: u128)
    ensures
        spec_pack_key(key_hi(k), key_lo(k)) == k,
{
    assert((k / KEY_RADIX) * KEY_RADIX + k % KEY_RADIX == k) by (nonlinear_arith)
        requires
            KEY_RADIX == 0x1_0000_0000_0000_0000u128,
    ;
}

/// Pack the pair `(hi, lo)` into one key.
pub fn pack_key(hi: u64, lo: u64) -> (k: u128)
    ensures
        k == spec_pack_key(hi, lo),
        key_hi(k) == hi,
        key_lo(k) == lo,
{
    proof {
        lemma_pack_key(hi, lo);
        assert(hi as u128 * KEY_RADIX + lo as u128 <= u128::MAX) by (nonlinear_arith)
            requires
                hi as u128 <= 0xffff_ffff_ffff_ffffu128,
                lo as u128 <= 0xffff_ffff_ffff_ffffu128,
                KEY_RADIX == 0x1_0000_0000_0000_0000u128,
        ;
    }
    (hi as u128) * KEY_RADIX + (lo as u128)
}

} // verus!
