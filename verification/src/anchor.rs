//! The anchor transaction: the system transaction every Taiko L2 block
//! starts with, validated field by field.

use vstd::prelude::*;

use crate::types::{Header, Transaction, TxType};

verus! {

/// Gas limit every anchor transaction must carry exactly.
pub const ANCHOR_GAS_LIMIT: u64 = 250000;

/// Low bits every Taiko L2 contract address ends in.
pub const TAIKO_L2_ADDRESS_SUFFIX: u64 = 0x10001;

/// The only signer anchor transactions are accepted from.
pub const GOLDEN_TOUCH: u64 = 0x7777_3536_7b36;

/// First selector byte of the anchor call.
pub const ANCHOR_SELECTOR_0: u8 = 0xda;
/// Second selector byte of the anchor call.
pub const ANCHOR_SELECTOR_1: u8 = 0x69;
/// Third selector byte of the anchor call.
pub const ANCHOR_SELECTOR_2: u8 = 0xd3;
/// Fourth selector byte of the anchor call.
pub const ANCHOR_SELECTOR_3: u8 = 0xdb;

/// The anchor call's four-byte selector.
pub open spec fn spec_anchor_selector() -> Seq<u8> {
    seq![ANCHOR_SELECTOR_0, ANCHOR_SELECTOR_1, ANCHOR_SELECTOR_2, ANCHOR_SELECTOR_3]
}

/// The Taiko L2 contract address of one chain: the chain id shifted over
/// the fixed suffix.
pub open spec fn spec_taiko_l2_address(chain_id: u64) -> u64 {
    (chain_id << 20) | TAIKO_L2_ADDRESS_SUFFIX
}

/// Compute the Taiko L2 contract address of `chain_id`.
pub fn get_taiko_l2_address(chain_id: u64) -> (r: u64)
    ensures
        r == spec_taiko_l2_address(chain_id),
{
    (chain_id << 20u64) | TAIKO_L2_ADDRESS_SUFFIX
}

/// What makes a transaction the valid anchor of a block under `header`:
/// a fee-market transaction to the chain's L2 contract, carrying the
/// anchor selector, no value, exactly the anchor gas limit, a fee cap
/// equal to the block's base fee, signed by the golden-touch address.
pub open spec fn spec_valid_anchor_tx(tx: Transaction, header: Header) -> bool {
    &&& tx.tx_type is Eip1559
    &&& tx.to is Some
    &&& tx.chain_id is Some
    &&& tx.to.unwrap() == spec_taiko_l2_address(tx.chain_id.unwrap())
    &&& tx.input@.len() >= 4
    &&& tx.input@.subrange(0, 4) == spec_anchor_selector()
    &&& tx.value == 0
    &&& tx.gas_limit == ANCHOR_GAS_LIMIT
    &&& (header.base_fee_per_gas matches Some(b) ==> tx.max_fee_per_gas == b)
    &&& tx.sender == GOLDEN_TOUCH
}

/// Check whether `tx` is a valid anchor transaction for a block under
/// `header`.
pub fn validate_anchor_tx(tx: &Transaction, header: &Header) -> (r: bool)
    ensures
        r == spec_valid_anchor_tx(*tx, *header),
{
    match tx.tx_type {
        TxType::Eip1559 => {}
        _ => {
            return false;
        }
    }
    let to = match tx.to {
        Some(to) => to,
        None => {
            return false;
        }
    };
    let chain_id = match tx.chain_id {
        Some(c) => c,
        None => {
            return false;
        }
    };
    if to != get_taiko_l2_address(chain_id) {
        return false;
    }
    if tx.input.len() < 4 {
        return false;
    }
    if tx.input[0] != ANCHOR_SELECTOR_0 || tx.input[1] != ANCHOR_SELECTOR_1 || tx.input[2]
        != ANCHOR_SELECTOR_2 || tx.input[3] != ANCHOR_SELECTOR_3 {
        proof {
            assert(tx.input@.subrange(0, 4)[0] == tx.input@[0]);
            assert(tx.input@.subrange(0, 4)[1] == tx.input@[1]);
            assert(tx.input@.subrange(0, 4)[2] == tx.input@[2]);
            assert(tx.input@.subrange(0, 4)[3] == tx.input@[3]);
        }
        return false;
    }
    proof {
        assert(tx.input@.subrange(0, 4) =~= spec_anchor_selector());
    }
    if tx.value != 0 {
        return false;
    }
    if tx.gas_limit != ANCHOR_GAS_LIMIT {
        return false;
    }
    match header.base_fee_per_gas {
        Some(base_fee_per_gas) => {
            if tx.max_fee_per_gas != base_fee_per_gas {
                return false;
            }
        }
        None => {}
    }
    tx.sender == GOLDEN_TOUCH
}

} // verus!
