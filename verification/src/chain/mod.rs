//! Chain data: blocks and transactions, ledgers, and the chain itself.
pub mod types;
pub mod models;
pub mod blockchain;
