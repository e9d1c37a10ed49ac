//! # Interest Rate Manager's Constants
//!
//! Scaling factors for fixed-point arithmetic, thresholds for the ckETH and
//! cycle balances, retry and provider settings, and Ethereum contract addresses.

use vstd::prelude::*;

use crate::evm_rpc::{principal_from_text, principal_text_bytes, PrincipalId};
use crate::uint::U256;

verus! {

/// Scale used for fixed point arithmetic (10^18)
pub const SCALE: u128 = 1_000_000_000_000_000_000;

/// Returns the scale as a `U256` for fixed-point arithmetic.
pub fn scale() -> (r: U256)
    ensures
        r@ == SCALE,
{
    U256::from_u128(SCALE)
}

/// Chain ID (Ethereum main-net)
pub const CHAIN_ID: u64 = 1;

/// Tolerance margin up formula constant (15%)
const TOLERANCE_MARGIN_UP_RAW: u128 = 150_000_000_000_000_000;

/// Returns the tolerance margin for upward adjustments as a `U256`.
pub fn tolerance_margin_up() -> (r: U256)
    ensures
        r@ == 15 * SCALE / 100,
{
    U256::from_u128(TOLERANCE_MARGIN_UP_RAW)
}

/// Tolerance margin down formula constant (15%)
const TOLERANCE_MARGIN_DOWN_RAW: u128 = 150_000_000_000_000_000;

/// Returns the tolerance margin for downward adjustments as a `U256`.
pub fn tolerance_margin_down() -> (r: U256)
    ensures
        r@ == 15 * SCALE / 100,
{
    U256::from_u128(TOLERANCE_MARGIN_DOWN_RAW)
}

/// Max number of retry attempts
pub const MAX_RETRY_ATTEMPTS: u8 = 2;

/// Max number of troves to fetch in one call
pub const MAX_NUMBER_OF_TROVES: u128 = 75;

/// Returns the maximum number of troves as a `U256`.
pub fn max_number_of_troves() -> (r: U256)
    ensures
        r@ == MAX_NUMBER_OF_TROVES,
{
    U256::from_u128(MAX_NUMBER_OF_TROVES)
}

/// Cycles balance threshold of the canister
pub const CYCLES_THRESHOLD: u64 = 30_000_000_000_000;

/// ckETH token transfer fee
const CKETH_FEE_RAW: u64 = 2_000_000_000_000;

/// Returns the ckETH transfer fee.
pub fn cketh_fee() -> (r: U256)
    ensures
        r@ == 2_000_000_000_000,
{
    U256::from_u64(CKETH_FEE_RAW)
}

/// The amount of Ether used to mint new ckETH tokens when the balance is below
/// the threshold: 0.02 ETH in wei.
const ETHER_RECHARGE_VALUE_RAW: u64 = 20_000_000_000_000_000;

/// Returns the Ether recharge value as a `U256`.
pub fn ether_recharge_value() -> (r: U256)
    ensures
        r@ == 20_000_000_000_000_000,
{
    U256::from_u64(ETHER_RECHARGE_VALUE_RAW)
}

/// Cycles discount percentage (a 3% discount is provided)
pub const CYCLES_DISCOUNT_PERCENTAGE: u64 = 97;

/// ckETH balance threshold of the canister (0.03 ckETH).
/// The recharging cycle mints more ckETH if the balance falls below it.
const CKETH_THRESHOLD_RAW: u64 = 30_000_000_000_000_000;

/// Returns the ckETH balance threshold.
pub fn cketh_threshold() -> (r: U256)
    ensures
        r@ == 30_000_000_000_000_000,
{
    U256::from_u64(CKETH_THRESHOLD_RAW)
}

/// Default max response bytes
pub const DEFAULT_MAX_RESPONSE_BYTES: u64 = 8_000;

/// Exchange rate canister's principal ID in text form.
pub const EXCHANGE_RATE_CANISTER_RAW: &'static str = "uf6dk-hyaaa-aaaaq-qaaaq-cai";

/// The principal of the exchange rate canister, or `None` if its text form above
/// were not a principal.
pub fn exchange_rate_canister() -> (r: Option<PrincipalId>)
    ensures
        r is Some <==> principal_text_bytes(EXCHANGE_RATE_CANISTER_RAW@) is Some,
        r matches Some(p) ==> principal_text_bytes(EXCHANGE_RATE_CANISTER_RAW@) == Some(p.bytes@),
{
    principal_from_text(EXCHANGE_RATE_CANISTER_RAW)
}

/// ckETH smart contract on Ethereum main-net
pub const CKETH_HELPER: &'static str = "0x18901044688D3756C35Ed2b36D93e6a5B8e00E68";

/// ckETH ledger canister's principal ID in text form.
pub const CKETH_LEDGER_RAW: &'static str = "ss2fx-dyaaa-aaaar-qacoq-cai";

/// The principal of the ckETH ledger canister, or `None` if its text form above
/// were not a principal.
pub fn cketh_ledger() -> (r: Option<PrincipalId>)
    ensures
        r is Some <==> principal_text_bytes(CKETH_LEDGER_RAW@) is Some,
        r matches Some(p) ==> principal_text_bytes(CKETH_LEDGER_RAW@) == Some(p.bytes@),
{
    principal_from_text(CKETH_LEDGER_RAW)
}

/// Number of providers to use
pub const PROVIDER_COUNT: u8 = 3;

/// Number of providers needed to reach consensus
pub const PROVIDER_THRESHOLD: u8 = 2;

/// Timeout for strategy locks: one hour, in the seconds that the lock reads
pub const STRATEGY_LOCK_TIMEOUT: u64 = 3_600;

/// Minimum expected cycles for the ckETH<>Cycles arbitrage opportunity
pub const MINIMUM_ATTACHED_CYCLES: u64 = 1_000_000_000_000;

} // verus!
