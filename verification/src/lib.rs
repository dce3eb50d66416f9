//! A small blockchain toolkit: token, NFT, exchange and governance contracts,
//! blocks, transactions, UTXO and account ledgers, wallets and risk scoring.
#![allow(unused_imports)]

pub mod keymap;
pub mod text;
pub mod num;
pub mod contracts;
pub mod bytes;
pub mod crypto;
pub mod wallet;
pub mod chain;
pub mod tutorial;
pub mod ai;
pub mod clock;
pub mod security;
pub mod vm;
pub mod web_wallet;
pub mod api;
pub mod monitoring;
pub mod network;
pub mod storage;

use vstd::prelude::*;

verus! {

/// The version of this library.
pub const VERSION: &'static str = "0.1.0";

/// The version of this library.
pub fn version() -> (r: &'static str)
    ensures
        r@ == "0.1.0"@,
{
    "0.1.0"
}

} // verus!
