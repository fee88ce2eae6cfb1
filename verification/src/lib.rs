//! Verified core of the SwapTrade contracts: input validation, rate limiting,
//! the liquidity pool and query cache, KYC, staking bonuses, phased
//! governance with voting and multi-sig, NFT valuations and NFT-backed loans,
//! risk analytics, state snapshots and the referral program.

pub mod analytics;
pub mod codec;
pub mod counter;
pub mod governance;
pub mod keyed;
pub mod kyc;
pub mod nft;
pub mod nft_lending;
pub mod referral;
pub mod security_checks;
pub mod staking_bonus;
pub mod state_snapshot;
pub mod sums;
