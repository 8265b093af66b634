//! Reward distribution and escrow accounting.
//!
//! Projects deposit value into per-asset balances, and users later claim
//! amounts attributed to named rewards. A claim is authorised by a bundle that
//! a whitelisted signer has signed and that is valid for one hour. Each
//! reward is paid to a user at most once.

pub mod authorization;
pub mod balance;
pub mod claim;
pub mod claim_record;
pub mod config;
pub mod counter;
pub mod digest;
pub mod errors;
pub mod identity;
pub mod platform;
pub mod store;
pub mod whitelist;
