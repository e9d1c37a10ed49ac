//! The decisions of the canister's public methods: access control, minting a
//! strategy, setting its batch manager, the queries over the strategies, and the
//! checks that open a ckETH<>Cycles swap. The methods themselves (their I/O, the
//! timers and the calls to other canisters) are driven from outside.

use vstd::prelude::*;
use vstd::string::StringExecFns;

use std::collections::HashMap;

use crate::address::{address_to_string, checksummed_text, parsed_address, Address};
use crate::charger::{check_threshold, lock_step, SwapLock};
use crate::constants::{CYCLES_THRESHOLD, MAX_RETRY_ATTEMPTS, MINIMUM_ATTACHED_CYCLES};
use crate::error::{ManagerError, ManagerResult};
use crate::evm_rpc::Service;
use crate::rpc::{nat_to_u256, only_controller, string_to_address};
use crate::signer::{address_text_of_point, sec1_uncompressed, try_pubkey_bytes_to_address};
use crate::strategy::data::StrategyData;
use crate::strategy::settings::{same_path, StrategySettings};
use crate::strategy::stable::{same_strategy, store_updated, StableStrategy, StrategyStore};
use crate::types::{DerivationPath, StrategyInput, StrategyQueryData};
use crate::uint::{be_value, decimal_text, to_decimal_string, U256};

verus! {

broadcast use vstd::std_specs::hash::group_hash_axioms;

/// The big-endian bytes of a `u32`.
pub open spec fn u32_be_bytes(key: u32) -> Seq<u8> {
    seq![(key / 16777216) as u8, (key / 65536 % 256) as u8, (key / 256 % 256) as u8, (key % 256) as u8]
}

/// The derivation path of a strategy's EOA: one component, the strategy key's
/// big-endian bytes.
pub fn strategy_derivation_path(key: u32) -> (r: DerivationPath)
    ensures
        r@.len() == 1,
        r@[0]@ == u32_be_bytes(key),
{
    let component: Vec<u8> = vec![
        (key / 16777216) as u8,
        (key / 65536 % 256) as u8,
        (key / 256 % 256) as u8,
        (key % 256) as u8,
    ];
    let mut path: DerivationPath = Vec::new();
    path.push(component);
    proof {
        assert(path@[0]@ =~= u32_be_bytes(key));
    }
    path
}

/// The first part of minting a strategy, before its EOA's public key is fetched:
/// only a controller may mint, the key must be unused, and the manager address
/// must parse; the manager is then added to the list of managers. Returns the
/// derivation path of the strategy's EOA.
pub fn begin_mint_strategy(
    store: &StrategyStore,
    managers: &mut Vec<Address>,
    strategy: &StrategyInput,
    caller_is_controller: bool,
) -> (r: ManagerResult<DerivationPath>)
    ensures
        !caller_is_controller ==> (r matches Err(e) && e is Unauthorized) && final(managers)@ == old(managers)@,
        caller_is_controller && store@.contains_key(strategy.key) ==> (r matches Err(ManagerError::Custom(m)) && m@
            == "This key is already being used."@) && final(managers)@ == old(managers)@,
        caller_is_controller && !store@.contains_key(strategy.key) && parsed_address(strategy.manager@) is None ==> (
        r matches Err(e) && e is DecodingError) && final(managers)@ == old(managers)@,
        caller_is_controller && !store@.contains_key(strategy.key) ==> (parsed_address(strategy.manager@) matches Some(
            (hi, lo),
        ) ==> {
            &&& r matches Ok(path) && path@.len() == 1 && path@[0]@ == u32_be_bytes(strategy.key)
            &&& final(managers)@ == old(managers)@.push(Address { hi, lo })
        }),
{
    if let Err(e) = only_controller(caller_is_controller) {
        return Err(e);
    }
    if store.contains_key(&strategy.key) {
        return Err(ManagerError::Custom("This key is already being used.".to_owned()));
    }
    let manager = match string_to_address(strategy.manager.clone()) {
        Ok(a) => a,
        Err(e) => return Err(e),
    };
    managers.push(manager);
    Ok(strategy_derivation_path(strategy.key))
}

/// The settings a minted strategy starts with.
pub open spec fn minted_settings(
    s: StrategySettings,
    strategy: StrategyInput,
    manager: Address,
    eoa: Address,
    path: DerivationPath,
) -> bool {
    &&& s.key == strategy.key
    &&& s.manager == manager
    &&& parsed_address(strategy.collateral_registry@) == Some((s.collateral_registry.hi, s.collateral_registry.lo))
    &&& parsed_address(strategy.multi_trove_getter@) == Some((s.multi_trove_getter.hi, s.multi_trove_getter.lo))
    &&& parsed_address(strategy.hint_helper@) == Some((s.hint_helper.hi, s.hint_helper.lo))
    &&& s.upfront_fee_period@ == be_value(strategy.upfront_fee_period@)
    &&& s.collateral_index@ == be_value(strategy.collateral_index@)
    &&& s.eoa_pk == Some(eoa)
    &&& same_path(s.derivation_path, path)
    &&& s.target_min@ == be_value(strategy.target_min@)
    &&& s.rpc_canister.0.bytes@ == strategy.rpc_principal.bytes@
    &&& s.batch_manager == Address::zero_spec()
    &&& s.sorted_troves == Address::zero_spec()
}

/// Whether the input's addresses parse and its numbers fit in 256 bits.
pub open spec fn input_valid(strategy: StrategyInput) -> bool {
    &&& parsed_address(strategy.collateral_registry@) is Some
    &&& parsed_address(strategy.multi_trove_getter@) is Some
    &&& parsed_address(strategy.hint_helper@) is Some
    &&& strategy.target_min@.len() <= 32
    &&& strategy.upfront_fee_period@.len() <= 32
    &&& strategy.collateral_index@.len() <= 32
}

/// The inputs on which the second part of minting succeeds: the public key
/// parses, the address derived from it reads back, the input is valid and the
/// key is free.
pub open spec fn mint_accepted(store: Map<u32, StableStrategy>, strategy: StrategyInput, public_key: Seq<u8>) -> bool {
    &&& sec1_uncompressed(public_key) matches Some(point) && parsed_address(address_text_of_point(point)) is Some
    &&& input_valid(strategy)
    &&& !store.contains_key(strategy.key)
}

/// The second part of minting a strategy, once its EOA's public key is known: the
/// EOA's address is derived from the key, the input's addresses and numbers are
/// converted, and the strategy is registered with fresh data and a free lock.
/// Returns the EOA's checksummed address.
///
/// Fails, registering nothing, when the key does not parse, when an address or a
/// number of the input does not convert (`DecodingError`), or when the key is
/// taken by then.
pub fn complete_mint_strategy(
    store: &mut StrategyStore,
    strategy: StrategyInput,
    manager: Address,
    derivation_path: DerivationPath,
    public_key_bytes: &Vec<u8>,
) -> (r: ManagerResult<String>)
    ensures
        r is Err ==> final(store)@ == old(store)@,
        sec1_uncompressed(public_key_bytes@) is None ==> (r matches Err(e) && e is DecodingError),
        sec1_uncompressed(public_key_bytes@) matches Some(point) && parsed_address(address_text_of_point(point))
            is None ==> (r matches Err(e) && e is DecodingError),
        !input_valid(strategy) ==> r is Err,
        sec1_uncompressed(public_key_bytes@) matches Some(point) && parsed_address(address_text_of_point(point))
            is Some && !input_valid(strategy) ==> (r matches Err(e) && e is DecodingError),
        old(store)@.contains_key(strategy.key) ==> r is Err,
        mint_accepted(old(store)@, strategy, public_key_bytes@) ==> r is Ok,
        sec1_uncompressed(public_key_bytes@) matches Some(point) && parsed_address(address_text_of_point(point))
            is Some && input_valid(strategy) && old(store)@.contains_key(strategy.key) ==> (r matches Err(
            ManagerError::Custom(m),
        ) && m@ == "This strategy key is already mined."@),
        r matches Ok(text) ==> {
            &&& sec1_uncompressed(public_key_bytes@) is Some
            &&& parsed_address(address_text_of_point(sec1_uncompressed(public_key_bytes@)->0)) matches Some((hi, lo))
            &&& text@ == checksummed_text(hi, lo)
            &&& final(store)@.dom() == old(store)@.dom().insert(strategy.key)
            &&& minted_settings(final(store)@[strategy.key].settings, strategy, manager, Address { hi, lo }, derivation_path)
            &&& final(store)@[strategy.key].data.latest_rate@ == 0
            &&& final(store)@[strategy.key].data.last_update == 0
            &&& final(store)@[strategy.key].data.eoa_nonce == 0
            &&& final(store)@[strategy.key].data.last_ok_exit == 0
            &&& !final(store)@[strategy.key].lock.is_locked
            &&& forall|k: u32| k != strategy.key && old(store)@.contains_key(k) ==> final(store)@[k] == old(store)@[k]
        },
{
    let pk_text = match try_pubkey_bytes_to_address(public_key_bytes.as_slice()) {
        Some(t) => t,
        None => return Err(ManagerError::DecodingError("failed to parse the public key as SEC1".to_owned())),
    };
    let eoa_pk = match string_to_address(pk_text) {
        Ok(a) => a,
        Err(e) => return Err(e),
    };
    let rpc_canister = Service(strategy.rpc_principal);
    let collateral_registry_address = match string_to_address(strategy.collateral_registry) {
        Ok(a) => a,
        Err(e) => return Err(e),
    };
    let multi_trove_getter_address = match string_to_address(strategy.multi_trove_getter) {
        Ok(a) => a,
        Err(e) => return Err(e),
    };
    let hint_helper_address = match string_to_address(strategy.hint_helper) {
        Ok(a) => a,
        Err(e) => return Err(e),
    };
    let target_min_u256 = match nat_to_u256(&strategy.target_min) {
        Ok(v) => v,
        Err(e) => return Err(e),
    };
    let upfront_fee_period_u256 = match nat_to_u256(&strategy.upfront_fee_period) {
        Ok(v) => v,
        Err(e) => return Err(e),
    };
    let collateral_index_u256 = match nat_to_u256(&strategy.collateral_index) {
        Ok(v) => v,
        Err(e) => return Err(e),
    };
    let mut settings = StrategySettings::default();
    settings.key(strategy.key);
    settings.manager(manager);
    settings.collateral_registry(collateral_registry_address);
    settings.multi_trove_getter(multi_trove_getter_address);
    settings.hint_helper(hint_helper_address);
    settings.upfront_fee_period(upfront_fee_period_u256);
    settings.collateral_index(collateral_index_u256);
    settings.eoa_pk(Some(eoa_pk));
    settings.derivation_path(derivation_path);
    settings.target_min(target_min_u256);
    settings.rpc_canister(rpc_canister);
    let mut stable = StableStrategy::default();
    stable.settings(settings);
    stable.data(StrategyData::default());
    match stable.mint(store) {
        Ok(()) => {},
        Err(e) => return Err(e),
    }
    Ok(address_to_string(&eoa_pk))
}

/// Sets the batch manager of a strategy and its current rate (given as the
/// big-endian bytes of a natural number).
///
/// The batch manager is only set while it is unset (the zero address). Only a
/// controller may call it; fails with `DecodingError` when the address does not
/// parse, with `NonExistentValue` when there is no such strategy, with `Custom`
/// when the strategy already has a batch manager (nothing changes then), and
/// with `DecodingError` when the rate does not fit in 256 bits, in which case the
/// batch manager is set all the same.
pub fn set_batch_manager(
    store: &mut StrategyStore,
    caller_is_controller: bool,
    key: u32,
    batch_manager: String,
    current_rate: &Vec<u8>,
) -> (r: ManagerResult<()>)
    ensures
        !caller_is_controller ==> (r matches Err(e) && e is Unauthorized) && final(store)@ == old(store)@,
        caller_is_controller && parsed_address(batch_manager@) is None ==> (r matches Err(e) && e is DecodingError)
            && final(store)@ == old(store)@,
        caller_is_controller && parsed_address(batch_manager@) is Some && !old(store)@.contains_key(key) ==> (
        r matches Err(e) && e is NonExistentValue) && final(store)@ == old(store)@,
        caller_is_controller && parsed_address(batch_manager@) is Some && old(store)@.contains_key(key)
            && old(store)@[key].settings.batch_manager != Address::zero_spec() ==> (r matches Err(
            ManagerError::Custom(m),
        ) && m@ == "Batch manager is already set."@) && final(store)@ == old(store)@,
        caller_is_controller && old(store)@.contains_key(key) && old(store)@[key].settings.batch_manager
            == Address::zero_spec() ==> (parsed_address(batch_manager@) matches Some((hi, lo)) ==> {
            &&& final(store)@.dom() == old(store)@.dom()
            &&& forall|k: u32| k != key && old(store)@.contains_key(k) ==> final(store)@[k] == old(store)@[k]
            &&& same_strategy(
                final(store)@[key],
                StableStrategy {
                    settings: StrategySettings { batch_manager: Address { hi, lo }, ..old(store)@[key].settings },
                    data: if current_rate@.len() <= 32 {
                        StrategyData {
                            latest_rate: final(store)@[key].data.latest_rate,
                            ..old(store)@[key].data
                        }
                    } else {
                        old(store)@[key].data
                    },
                    lock: old(store)@[key].lock,
                },
            )
            &&& current_rate@.len() <= 32 ==> r is Ok && final(store)@[key].data.latest_rate@ == be_value(current_rate@)
            &&& current_rate@.len() > 32 ==> (r matches Err(e) && e is DecodingError)
        }),
{
    if let Err(e) = only_controller(caller_is_controller) {
        return Err(e);
    }
    let batch_manager_address = match string_to_address(batch_manager) {
        Ok(a) => a,
        Err(e) => return Err(e),
    };
    let mut strategy = match store.get(&key) {
        Some(s) => s.clone(),
        None => return Err(ManagerError::NonExistentValue),
    };
    if !strategy.settings.batch_manager.is_zero() {
        return Err(ManagerError::Custom("Batch manager is already set.".to_owned()));
    }
    strategy.settings.batch_manager = batch_manager_address;
    let ghost before = store@;
    store.insert(key, strategy.clone());
    let rate = match nat_to_u256(current_rate) {
        Ok(v) => v,
        Err(e) => {
            proof {
                assert(store@.dom() =~= old(store)@.dom());
            }
            return Err(e);
        },
    };
    strategy.data.latest_rate = rate;
    store.insert(key, strategy);
    proof {
        assert(store@.dom() =~= old(store)@.dom());
    }
    Ok(())
}

/// The query form of every strategy, in the order given.
pub fn get_strategies(strategies: &Vec<StableStrategy>) -> (r: Vec<StrategyQueryData>)
    ensures
        r@.len() == strategies@.len(),
        forall|i: int|
            0 <= i < r@.len() ==> {
                &&& (#[trigger] r@[i]).latest_rate@ == decimal_text(strategies@[i].data.latest_rate@)
                &&& r@[i].target_min@ == decimal_text(strategies@[i].settings.target_min@)
                &&& r@[i].last_update == strategies@[i].data.last_update
                &&& r@[i].locked == strategies@[i].lock.is_locked
                &&& r@[i].trove_manager@ == checksummed_text(
                    strategies@[i].settings.manager.hi,
                    strategies@[i].settings.manager.lo,
                )
                &&& r@[i].batch_manager@ == checksummed_text(
                    strategies@[i].settings.batch_manager.hi,
                    strategies@[i].settings.batch_manager.lo,
                )
                &&& strategies@[i].settings.eoa_pk is None ==> r@[i].eoa_pk is None
                &&& strategies@[i].settings.eoa_pk matches Some(a) ==> (r@[i].eoa_pk matches Some(t) && t@
                    == checksummed_text(a.hi, a.lo))
            },
{
    let mut r: Vec<StrategyQueryData> = Vec::new();
    let n = strategies.len();
    for i in 0..n
        invariant
            n == strategies@.len(),
            r@.len() == i,
            forall|j: int|
                0 <= j < i ==> {
                    &&& (#[trigger] r@[j]).latest_rate@ == decimal_text(strategies@[j].data.latest_rate@)
                    &&& r@[j].target_min@ == decimal_text(strategies@[j].settings.target_min@)
                    &&& r@[j].last_update == strategies@[j].data.last_update
                    &&& r@[j].locked == strategies@[j].lock.is_locked
                    &&& r@[j].trove_manager@ == checksummed_text(
                        strategies@[j].settings.manager.hi,
                        strategies@[j].settings.manager.lo,
                    )
                    &&& r@[j].batch_manager@ == checksummed_text(
                        strategies@[j].settings.batch_manager.hi,
                        strategies@[j].settings.batch_manager.lo,
                    )
                    &&& strategies@[j].settings.eoa_pk is None ==> r@[j].eoa_pk is None
                    &&& strategies@[j].settings.eoa_pk matches Some(a) ==> (r@[j].eoa_pk matches Some(t) && t@
                        == checksummed_text(a.hi, a.lo))
                },
    {
        let copy = strategies[i].clone();
        r.push(StrategyQueryData::from(copy));
    }
    r
}

/// The checksummed EOA address of the strategy under `index`, if there is such a
/// strategy and it has an EOA.
pub fn get_strategy_address(store: &StrategyStore, index: u32) -> (r: Option<String>)
    ensures
        !store@.contains_key(index) ==> r is None,
        store@.contains_key(index) && store@[index].settings.eoa_pk is None ==> r is None,
        store@.contains_key(index) ==> (store@[index].settings.eoa_pk matches Some(a) ==> (r matches Some(t) && t@
            == checksummed_text(a.hi, a.lo))),
{
    match store.get(&index) {
        Some(strategy) => match strategy.settings.eoa_pk {
            Some(pk) => Some(address_to_string(&pk)),
            None => None,
        },
        None => None,
    }
}

/// The error when fewer cycles than the minimum were attached to a swap.
pub open spec fn too_few_cycles_text(available: u64) -> Seq<char> {
    "The attached cycles amount ("@ + decimal_text(available as nat) + ") is less than the minimum accepted amount ("@
        + decimal_text(MINIMUM_ATTACHED_CYCLES as nat) + ")"@
}

/// Opens a ckETH<>Cycles swap: the caller must attach at least
/// `MINIMUM_ATTACHED_CYCLES`, the swap lock must be free (it is then taken), and
/// the canister's cycle balance must not exceed `CYCLES_THRESHOLD`. The checks
/// come in this order; the first that fails gives the error.
pub fn begin_swap(available_cycles: u64, lock: &mut SwapLock, shared: &mut bool, canister_balance: u64) -> (r:
    ManagerResult<()>)
    ensures
        available_cycles < MINIMUM_ATTACHED_CYCLES ==> {
            &&& r matches Err(ManagerError::Custom(m)) && m@ == too_few_cycles_text(available_cycles)
            &&& *final(lock) == *old(lock)
            &&& *final(shared) == *old(shared)
        },
        available_cycles >= MINIMUM_ATTACHED_CYCLES && lock_step(old(lock).0, *old(shared)) is None ==> {
            &&& r matches Err(e) && e is Locked
            &&& *final(lock) == *old(lock)
            &&& *final(shared) == *old(shared)
        },
        available_cycles >= MINIMUM_ATTACHED_CYCLES && lock_step(old(lock).0, *old(shared)) is Some ==> {
            &&& final(lock).0
            &&& *final(shared)
            &&& canister_balance <= CYCLES_THRESHOLD ==> r is Ok
            &&& canister_balance > CYCLES_THRESHOLD ==> (r matches Err(e) && e is CyclesBalanceAboveRechargingThreshold)
        },
{
    if available_cycles < MINIMUM_ATTACHED_CYCLES {
        let text = "The attached cycles amount (".to_owned().concat(
            to_decimal_string(U256::from_u64(available_cycles)).as_str(),
        ).concat(") is less than the minimum accepted amount (").concat(
            to_decimal_string(U256::from_u64(MINIMUM_ATTACHED_CYCLES)).as_str(),
        ).concat(")");
        return Err(ManagerError::Custom(text));
    }
    if let Err(e) = lock.lock(shared) {
        return Err(e);
    }
    check_threshold(canister_balance)
}

/// The note of the `turn`-th attempt of the daily ckETH recharge.
pub open spec fn recharge_turn_text(turn: u8) -> Seq<char> {
    "Turn "@ + decimal_text(turn as nat) + "/"@ + decimal_text(MAX_RETRY_ATTEMPTS as nat)
}

/// The note of the `turn`-th attempt of the daily ckETH recharge.
pub fn recharge_turn_note(turn: u8) -> (r: String)
    ensures
        r@ == recharge_turn_text(turn),
{
    "Turn ".to_owned().concat(to_decimal_string(U256::from_u64(turn as u64)).as_str()).concat("/").concat(
        to_decimal_string(U256::from_u64(MAX_RETRY_ATTEMPTS as u64)).as_str(),
    )
}

} // verus!
