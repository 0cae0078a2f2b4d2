//! Candidate-block construction for a Taiko-style payload builder.
//!
//! The crate builds one candidate block per attempt: it pulls pending
//! transactions from a pool snapshot in priority order, executes them against a
//! read-through state cache under gas and blob-gas budgets, applies system
//! hooks and withdrawals, and seals the result. The read cache is the only
//! state carried across attempts on the same parent block.
//!
//! State lookups and transaction execution are capabilities: traits whose
//! contracts the rest of the crate is verified against, with in-memory
//! implementations provided here.

use vstd::prelude::*;

pub mod types;
pub mod listmap;
pub mod keys;
pub mod bundle;
pub mod roots;
pub mod provider;
pub mod cache;
pub mod sync_cache;
pub mod conversions;
pub mod selector;
pub mod evm;
pub mod pool;
pub mod exec_loop;
pub mod assembler;
pub mod builder;
pub mod anchor;
pub mod engine;
