//! Core data model: accounts, transactions, withdrawals, headers, chain
//! rules, payload attributes, and the error taxonomy.
//!
//! Addresses, hashes and storage words are modelled as fixed-width integers;
//! balances and fee totals as `u128`.

use vstd::prelude::*;

verus! {

/// Ordinary gas a block may at most spend on blob data.
pub const MAX_DATA_GAS_PER_BLOCK: u64 = 786432;

/// Blob gas that derivation of the excess targets per block.
pub const TARGET_DATA_GAS_PER_BLOCK: u64 = 393216;

/// Gas of one blob.
pub const DATA_GAS_PER_BLOB: u64 = 131072;

/// Wei in one gwei; withdrawal amounts arrive in gwei.
pub const WEI_PER_GWEI: u128 = 1000000000;

/// Header nonce of a post-merge block.
pub const BEACON_NONCE: u64 = 0;

/// Root of an empty ommer list.
pub const EMPTY_OMMER_ROOT_HASH: u64 = 0x6cc6;
/// Root of an empty transaction list.
pub const EMPTY_TRANSACTIONS: u64 = 0x7bcc;
/// Root of an empty receipt list.
pub const EMPTY_RECEIPTS: u64 = 0x9e5c;

/// Account state as a provider reports it: balance, nonce, and the hash of
/// the account's code.
#[derive(Clone, Copy, Debug, PartialEq, Eq, Structural)]
pub struct AccountInfo {
    pub balance: u128,
    pub nonce: u64,
    pub code_hash: u64,
}

impl AccountInfo {
    /// The account every address starts from: zero balance, zero nonce, no
    /// code.
    pub open spec fn spec_empty() -> AccountInfo {
        AccountInfo { balance: 0, nonce: 0, code_hash: 0 }
    }

    #[verifier::when_used_as_spec(spec_empty)]
    pub fn empty() -> (r: AccountInfo)
        ensures
            r == AccountInfo::spec_empty(),
    {
        AccountInfo { balance: 0, nonce: 0, code_hash: 0 }
    }
}

/// The transaction envelope kinds the builder distinguishes.
#[derive(Clone, Copy, Debug, PartialEq, Eq, Structural)]
pub enum TxType {
    Legacy,
    Eip1559,
    Eip4844,
}

/// A pool transaction with its signer already recovered.
#[derive(Debug)]
pub struct Transaction {
    /// Transaction hash; unique within one pool snapshot.
    pub hash: u64,
    /// Recovered signer.
    pub sender: u64,
    pub nonce: u64,
    pub gas_limit: u64,
    pub max_fee_per_gas: u64,
    pub max_priority_fee_per_gas: u64,
    /// Highest blob-gas price the sender will pay; meaningful for blob
    /// transactions only.
    pub max_fee_per_blob_gas: u64,
    pub value: u128,
    pub to: Option<u64>,
    pub chain_id: Option<u64>,
    pub input: Vec<u8>,
    pub tx_type: TxType,
    /// Blob gas this transaction carries; zero unless `tx_type` is
    /// `TxType::Eip4844`.
    pub blob_gas: u64,
}

/// Ghost shape of a transaction, with the calldata as a sequence.
pub struct TransactionModel {
    pub hash: u64,
    pub sender: u64,
    pub nonce: u64,
    pub gas_limit: u64,
    pub max_fee_per_gas: u64,
    pub max_priority_fee_per_gas: u64,
    pub max_fee_per_blob_gas: u64,
    pub value: u128,
    pub to: Option<u64>,
    pub chain_id: Option<u64>,
    pub input: Seq<u8>,
    pub tx_type: TxType,
    pub blob_gas: u64,
}

impl Clone for Transaction {
    /// A clone carries the same ghost shape.
    fn clone(&self) -> (r: Self)
        ensures
            r.model() == self.model(),
    {
        let input = self.input.clone();
        proof {
            assert forall|i: int| 0 <= i < self.input@.len() implies input@[i] == self.input@[i] by {}
            assert(input@ =~= self.input@);
        }
        Transaction {
            hash: self.hash,
            sender: self.sender,
            nonce: self.nonce,
            gas_limit: self.gas_limit,
            max_fee_per_gas: self.max_fee_per_gas,
            max_priority_fee_per_gas: self.max_priority_fee_per_gas,
            max_fee_per_blob_gas: self.max_fee_per_blob_gas,
            value: self.value,
            to: self.to,
            chain_id: self.chain_id,
            input,
            tx_type: self.tx_type,
            blob_gas: self.blob_gas,
        }
    }
}

impl Transaction {
    /// The transaction's ghost shape.
    pub open spec fn model(&self) -> TransactionModel {
        TransactionModel {
            hash: self.hash,
            sender: self.sender,
            nonce: self.nonce,
            gas_limit: self.gas_limit,
            max_fee_per_gas: self.max_fee_per_gas,
            max_priority_fee_per_gas: self.max_priority_fee_per_gas,
            max_fee_per_blob_gas: self.max_fee_per_blob_gas,
            value: self.value,
            to: self.to,
            chain_id: self.chain_id,
            input: self.input@,
            tx_type: self.tx_type,
            blob_gas: self.blob_gas,
        }
    }

    /// Whether the transaction carries blob data.
    pub open spec fn spec_is_blob(&self) -> bool {
        self.tx_type is Eip4844
    }

    #[verifier::when_used_as_spec(spec_is_blob)]
    pub fn is_blob(&self) -> (r: bool)
        ensures
            r == self.spec_is_blob(),
    {
        match self.tx_type {
            TxType::Eip4844 => true,
            _ => false,
        }
    }

    /// Tip per gas unit the builder collects over the base fee, or `None`
    /// when the transaction cannot pay the base fee at all.
    pub open spec fn spec_effective_tip(&self, base_fee: u64) -> Option<u64> {
        if self.max_fee_per_gas < base_fee {
            None
        } else if self.max_priority_fee_per_gas <= self.max_fee_per_gas - base_fee {
            Some(self.max_priority_fee_per_gas)
        } else {
            Some((self.max_fee_per_gas - base_fee) as u64)
        }
    }

    /// Executable form of [`Self::spec_effective_tip`].
    pub fn effective_tip_per_gas(&self, base_fee: u64) -> (r: Option<u64>)
        ensures
            r == self.spec_effective_tip(base_fee),
    {
        if self.max_fee_per_gas < base_fee {
            None
        } else {
            let cap: u64 = self.max_fee_per_gas - base_fee;
            if self.max_priority_fee_per_gas <= cap {
                Some(self.max_priority_fee_per_gas)
            } else {
                Some(cap)
            }
        }
    }
}

/// A protocol-level balance credit applied once per block.
#[derive(Clone, Copy, Debug, PartialEq, Eq, Structural)]
pub struct Withdrawal {
    pub index: u64,
    pub validator_index: u64,
    pub address: u64,
    /// Amount in gwei.
    pub amount: u64,
}

/// One log record of an executed transaction.
#[derive(Clone, Copy, Debug, PartialEq, Eq, Structural)]
pub struct Log {
    pub address: u64,
    pub data: u64,
}

/// Receipt of one executed transaction, carrying the gas total of the block
/// up to and including it.
#[derive(Clone, Debug)]
pub struct Receipt {
    pub tx_type: TxType,
    pub success: bool,
    pub cumulative_gas_used: u64,
    pub logs: Vec<Log>,
}

/// A protocol-level request gathered by the post-block hook.
#[derive(Clone, Copy, Debug, PartialEq, Eq, Structural)]
pub struct Request {
    pub kind: u64,
    pub payload: u64,
}

/// A block header over the model word width.
#[derive(Debug)]
pub struct Header {
    pub parent_hash: u64,
    pub ommers_hash: u64,
    pub beneficiary: u64,
    pub state_root: u64,
    pub transactions_root: u64,
    pub receipts_root: u64,
    pub withdrawals_root: Option<u64>,
    pub logs_bloom: u64,
    pub difficulty: u128,
    pub number: u64,
    pub gas_limit: u64,
    pub gas_used: u64,
    pub timestamp: u64,
    pub extra_data: Vec<u8>,
    pub mix_hash: u64,
    pub nonce: u64,
    pub base_fee_per_gas: Option<u64>,
    pub blob_gas_used: Option<u64>,
    pub excess_blob_gas: Option<u64>,
    pub parent_beacon_block_root: Option<u64>,
    pub requests_root: Option<u64>,
}

impl Clone for Header {
    /// A cloned header keeps every field, with the extra data kept
    /// byte for byte.
    fn clone(&self) -> (r: Self)
        ensures
            r.parent_hash == self.parent_hash,
            r.ommers_hash == self.ommers_hash,
            r.beneficiary == self.beneficiary,
            r.state_root == self.state_root,
            r.transactions_root == self.transactions_root,
            r.receipts_root == self.receipts_root,
            r.withdrawals_root == self.withdrawals_root,
            r.logs_bloom == self.logs_bloom,
            r.difficulty == self.difficulty,
            r.number == self.number,
            r.gas_limit == self.gas_limit,
            r.gas_used == self.gas_used,
            r.timestamp == self.timestamp,
            r.extra_data@ == self.extra_data@,
            r.mix_hash == self.mix_hash,
            r.nonce == self.nonce,
            r.base_fee_per_gas == self.base_fee_per_gas,
            r.blob_gas_used == self.blob_gas_used,
            r.excess_blob_gas == self.excess_blob_gas,
            r.parent_beacon_block_root == self.parent_beacon_block_root,
            r.requests_root == self.requests_root,
    {
        let extra_data = self.extra_data.clone();
        proof {
            assert forall|i: int|
                0 <= i < self.extra_data@.len() implies extra_data@[i] == self.extra_data@[i] by {}
            assert(extra_data@ =~= self.extra_data@);
        }
        Header {
            parent_hash: self.parent_hash,
            ommers_hash: self.ommers_hash,
            beneficiary: self.beneficiary,
            state_root: self.state_root,
            transactions_root: self.transactions_root,
            receipts_root: self.receipts_root,
            withdrawals_root: self.withdrawals_root,
            logs_bloom: self.logs_bloom,
            difficulty: self.difficulty,
            number: self.number,
            gas_limit: self.gas_limit,
            gas_used: self.gas_used,
            timestamp: self.timestamp,
            extra_data,
            mix_hash: self.mix_hash,
            nonce: self.nonce,
            base_fee_per_gas: self.base_fee_per_gas,
            blob_gas_used: self.blob_gas_used,
            excess_blob_gas: self.excess_blob_gas,
            parent_beacon_block_root: self.parent_beacon_block_root,
            requests_root: self.requests_root,
        }
    }
}

/// A header together with its canonical hash.
#[derive(Clone, Debug)]
pub struct SealedHeader {
    pub header: Header,
    pub hash: u64,
}

/// A finalized block: sealed header, body, and the side lists the header
/// commits to.
#[derive(Clone, Debug)]
pub struct SealedBlock {
    pub header: Header,
    pub hash: u64,
    pub body: Vec<Transaction>,
    pub withdrawals: Option<Vec<Withdrawal>>,
    pub requests: Option<Vec<Request>>,
}

/// Blob contents carried beside a block for one blob transaction.
#[derive(Clone, Debug)]
pub struct BlobSidecar {
    pub tx_hash: u64,
    pub data: Vec<u8>,
}

/// Timestamp-gated feature activations of one chain. Constructed once by the
/// caller and passed by reference; there is no ambient global configuration.
#[derive(Clone, Copy, Debug, PartialEq, Eq, Structural)]
pub struct ChainRules {
    pub chain_id: u64,
    pub shanghai_time: Option<u64>,
    pub cancun_time: Option<u64>,
    pub prague_time: Option<u64>,
}

impl ChainRules {
    /// Whether withdrawals are part of blocks at `timestamp`.
    pub open spec fn spec_is_shanghai_active_at_timestamp(&self, timestamp: u64) -> bool {
        match self.shanghai_time {
            Some(t) => timestamp >= t,
            None => false,
        }
    }

    #[verifier::when_used_as_spec(spec_is_shanghai_active_at_timestamp)]
    pub fn is_shanghai_active_at_timestamp(&self, timestamp: u64) -> (r: bool)
        ensures
            r == self.spec_is_shanghai_active_at_timestamp(timestamp),
    {
        match self.shanghai_time {
            Some(t) => timestamp >= t,
            None => false,
        }
    }

    /// Whether blob transactions are enabled at `timestamp`.
    pub open spec fn spec_is_cancun_active_at_timestamp(&self, timestamp: u64) -> bool {
        match self.cancun_time {
            Some(t) => timestamp >= t,
            None => false,
        }
    }

    #[verifier::when_used_as_spec(spec_is_cancun_active_at_timestamp)]
    pub fn is_cancun_active_at_timestamp(&self, timestamp: u64) -> (r: bool)
        ensures
            r == self.spec_is_cancun_active_at_timestamp(timestamp),
    {
        match self.cancun_time {
            Some(t) => timestamp >= t,
            None => false,
        }
    }

    /// Whether post-block requests are gathered at `timestamp`.
    pub open spec fn spec_is_prague_active_at_timestamp(&self, timestamp: u64) -> bool {
        match self.prague_time {
            Some(t) => timestamp >= t,
            None => false,
        }
    }

    #[verifier::when_used_as_spec(spec_is_prague_active_at_timestamp)]
    pub fn is_prague_active_at_timestamp(&self, timestamp: u64) -> (r: bool)
        ensures
            r == self.spec_is_prague_active_at_timestamp(timestamp),
    {
        match self.prague_time {
            Some(t) => timestamp >= t,
            None => false,
        }
    }
}

/// Caller-supplied inputs of one build attempt.
#[derive(Clone, Debug)]
pub struct PayloadAttributes {
    /// Opaque payload identifier handed back on the built payload.
    pub id: u64,
    pub timestamp: u64,
    pub prev_randao: u64,
    pub suggested_fee_recipient: u64,
    pub withdrawals: Option<Vec<Withdrawal>>,
    pub parent_beacon_block_root: Option<u64>,
}

/// Block environment the execution engine runs under, derived from the parent
/// block and the payload attributes.
#[derive(Clone, Copy, Debug, PartialEq, Eq, Structural)]
pub struct BlockEnv {
    pub number: u64,
    pub coinbase: u64,
    pub timestamp: u64,
    pub gas_limit: u64,
    pub basefee: u64,
    pub prev_randao: u64,
    pub blob_gasprice: Option<u64>,
}

/// Why a state provider could not answer a lookup.
#[derive(Clone, Copy, Debug, PartialEq, Eq, Structural)]
pub enum ProviderError {
    /// The backing store failed; nothing is known about the requested key.
    Backend,
}

/// Validation verdicts of the execution engine on one transaction.
#[derive(Clone, Copy, Debug, PartialEq, Eq, Structural)]
pub enum InvalidTransaction {
    /// The nonce is below the account's current nonce; the transaction may
    /// become valid in another ordering, so its descendants are kept.
    NonceTooLow,
    /// Any other validation failure; the transaction and its descendants are
    /// dropped from the selection.
    Rejected,
}

/// Failure of one engine call.
#[derive(Clone, Copy, Debug, PartialEq, Eq, Structural)]
pub enum EvmError {
    /// The transaction failed validation; the attempt continues.
    Transaction(InvalidTransaction),
    /// An internal engine fault; fatal for the attempt.
    Internal(u64),
}

/// Fatal failure of one build attempt.
#[derive(Clone, Copy, Debug, PartialEq, Eq, Structural)]
pub enum BuildError {
    /// The execution engine failed outside transaction validation.
    EvmExecution(u64),
    /// A state lookup or the state-root computation failed.
    Provider(ProviderError),
    /// A blob transaction was included whose sidecar the pool does not hold.
    MissingSidecar,
    /// A withdrawal credit would overflow the target account's balance.
    BalanceOverflow,
}

} // verus!
