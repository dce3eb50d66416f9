//! Teaching versions of the chain, from a bare block to a small ledger.
pub mod block_structure;
pub mod hashing;
pub mod simple_chain;
pub mod basic;
pub mod crypto;
pub mod storage;
pub mod vm;
pub mod contracts;
pub mod api;
pub mod ledger;
pub mod security;
pub mod consensus;
pub mod network;
