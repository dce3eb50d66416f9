//! Smart contracts: tokens, NFTs, exchanges, governance, staking and games.
pub mod token;
pub mod nft;
pub mod swap;
pub mod dex;
pub mod dao;
pub mod staking;
pub mod game;
pub mod nft_market;
pub mod amm;
