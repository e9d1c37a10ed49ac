//! Commonly used types

use vstd::prelude::*;

use crate::address::Address;
use crate::evm_rpc::PrincipalId;
use crate::address::{address_to_string, checksummed_text};
use crate::strategy::stable::StableStrategy;
use crate::uint::{decimal_text, to_decimal_string, U256};

verus! {

/// Derivation path for the tECDSA signatures
pub type DerivationPath = Vec<Vec<u8>>;

/// A trove (or a batch of troves) as the multi trove getter lists it:
/// the batch manager it delegates to, its annual interest rate and its debt.
#[derive(Clone, Copy, Debug, PartialEq, Eq, Structural)]
pub struct DebtPerInterestRate {
    /// Batch manager of the trove (zero when not delegated)
    pub interest_batch_manager: Address,
    /// Annual interest rate (scaled by 10^18)
    pub interest_rate: U256,
    /// Debt
    pub debt: U256,
}

/// Strategy input provided by the caller during the initialization phase
#[derive(Clone, Debug)]
pub struct StrategyInput {
    /// Key of the strategy in the strategy store
    pub key: u32,
    /// Minimum target for this strategy (big-endian bytes of the natural number)
    pub target_min: Vec<u8>,
    /// Manager contract address for this strategy
    pub manager: String,
    /// Multi trove getter contract address for this strategy
    pub multi_trove_getter: String,
    /// Collateral index (big-endian bytes of the natural number)
    pub collateral_index: Vec<u8>,
    /// EVM RPC Canister's principal
    pub rpc_principal: PrincipalId,
    /// Upfront fee period constant denominated in seconds (big-endian bytes of the
    /// natural number)
    pub upfront_fee_period: Vec<u8>,
    /// Collateral registry contract address
    pub collateral_registry: String,
    /// Hint helper contract address.
    pub hint_helper: String,
}

/// Strategy data returned by query methods
#[derive(Clone, Debug)]
pub struct StrategyQueryData {
    /// Trove manager contract address for this strategy
    pub trove_manager: String,
    /// Batch manager contract address for this strategy
    pub batch_manager: String,
    /// Lock for the strategy. Determines if the strategy is currently being executed.
    pub locked: bool,
    /// Latest rate determined by the canister in the previous cycle
    pub latest_rate: String,
    /// Minimum target for this strategy
    pub target_min: String,
    /// The EOA's public key
    pub eoa_pk: Option<String>,
    /// Timestamp of the last time the strategy had updated the batch's interest rate.
    /// Denominated in seconds.
    pub last_update: u64,
}

/// Response for the ckETH<>Cycles swaps
#[derive(Clone, Copy, Debug, PartialEq, Eq, Structural)]
pub struct SwapResponse {
    /// The amount of accepted cycles
    /// The canister only accepts the amount of cycles that it can compensate for with ckETH.
    pub accepted_cycles: U256,
    /// The amount of ckETH that is returned to the caller.
    pub returning_ether: U256,
}

/// ICRC-1 subaccount type
pub type Subaccount = [u8; 32];

/// Account representation of ledgers supporting the ICRC1 standard
#[derive(Clone, Debug)]
pub struct Account {
    /// Principal ID of the account owner
    pub owner: PrincipalId,
    /// Optional subaccount for the owner principal
    pub subaccount: Option<Subaccount>,
}

/// The HTTPS response format for RPC requests.
#[derive(Clone, Debug)]
pub struct EthCallResponse {
    /// Request id
    pub id: u64,
    /// JSON-RPC version
    pub jsonrpc: String,
    /// Result, hex encoded
    pub result: String,
}

/// The query form of a stored strategy: amounts in decimal, addresses
/// checksummed.
impl From<StableStrategy> for StrategyQueryData {
    fn from(value: StableStrategy) -> (r: StrategyQueryData)
        ensures
            r.latest_rate@ == decimal_text(value.data.latest_rate@),
            r.target_min@ == decimal_text(value.settings.target_min@),
            value.settings.eoa_pk is None ==> r.eoa_pk is None,
            value.settings.eoa_pk matches Some(a) ==> (r.eoa_pk matches Some(t) && t@ == checksummed_text(a.hi, a.lo)),
            r.last_update == value.data.last_update,
            r.trove_manager@ == checksummed_text(value.settings.manager.hi, value.settings.manager.lo),
            r.batch_manager@ == checksummed_text(value.settings.batch_manager.hi, value.settings.batch_manager.lo),
            r.locked == value.lock.is_locked,
    {
        StrategyQueryData {
            latest_rate: to_decimal_string(value.data.latest_rate),
            target_min: to_decimal_string(value.settings.target_min),
            eoa_pk: match value.settings.eoa_pk {
                Some(pk) => Some(address_to_string(&pk)),
                None => None,
            },
            last_update: value.data.last_update,
            trove_manager: address_to_string(&value.settings.manager),
            batch_manager: address_to_string(&value.settings.batch_manager),
            locked: value.lock.is_locked,
        }
    }
}

/// The text fields are computed by trusted formatting, so the conversion is stated
/// in the contract of `from`, not here.
impl vstd::std_specs::convert::FromSpecImpl<StableStrategy> for StrategyQueryData {
    open spec fn obeys_from_spec() -> bool {
        false
    }

    open spec fn from_spec(v: StableStrategy) -> StrategyQueryData {
        arbitrary()
    }
}

} // verus!
