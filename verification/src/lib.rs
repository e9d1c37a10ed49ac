//! Liquity V2's autonomous interest rate manager: the verified core.
//!
//! Rate-adjustment arithmetic, strategy state and locking, provider reputations,
//! journal bookkeeping, halting rules and the ckETH<>cycles arbitrage arithmetic.
//! Everything that talks to the Internet Computer or Ethereum lives outside this
//! crate and hands plain values in and out.

pub mod uint;
pub mod error;
pub mod constants;
pub mod address;
pub mod evm_rpc;
pub mod types;
pub mod strategy;
pub mod halt;
pub mod journal;
pub mod providers;
pub mod charger;
pub mod gas;
pub mod rpc;
pub mod cleanup;
pub mod transaction;
pub mod signer;
pub mod canister;
