use std::collections::HashMap;

use ir_manager::address::Address;
use ir_manager::canister::{
    begin_mint_strategy, begin_swap, complete_mint_strategy, get_strategies, get_strategy_address, recharge_turn_note,
    set_batch_manager, strategy_derivation_path,
};
use ir_manager::charger::SwapLock;
use ir_manager::error::ManagerError;
use ir_manager::evm_rpc::PrincipalId;
use ir_manager::signer::{pubkey_bytes_to_address, try_pubkey_bytes_to_address};
use ir_manager::strategy::stable::StrategyStore;
use ir_manager::types::StrategyInput;
use ir_manager::uint::U256;

/// The compressed public key of the secret key 1 (the curve's generator).
fn generator_key() -> Vec<u8> {
    hex::decode("0279BE667EF9DCBBAC55A06295CE870B07029BFCDB2DCE28D959F2815B16F81798").unwrap()
}

const GENERATOR_ADDRESS: &str = "0x7E5F4552091A69125d5DfCb7b8C2659029395Bdf";

fn input(key: u32) -> StrategyInput {
    StrategyInput {
        key,
        target_min: vec![0x01, 0x00],
        manager: "0x1111111111111111111111111111111111111111".to_string(),
        multi_trove_getter: "0x2222222222222222222222222222222222222222".to_string(),
        collateral_index: vec![2],
        rpc_principal: PrincipalId { bytes: vec![1, 2, 3] },
        upfront_fee_period: vec![0x09, 0x3a, 0x80],
        collateral_registry: "0x3333333333333333333333333333333333333333".to_string(),
        hint_helper: "0x4444444444444444444444444444444444444444".to_string(),
    }
}

#[test]
fn public_keys_give_checksummed_addresses() {
    assert_eq!(pubkey_bytes_to_address(&generator_key()), GENERATOR_ADDRESS);
    assert_eq!(try_pubkey_bytes_to_address(&generator_key()).as_deref(), Some(GENERATOR_ADDRESS));
    assert_eq!(try_pubkey_bytes_to_address(&[1, 2, 3]), None);
}

#[test]
fn derivation_path_is_the_key_in_big_endian() {
    assert_eq!(strategy_derivation_path(0x01020304), vec![vec![1, 2, 3, 4]]);
}

#[test]
fn minting_registers_the_strategy() {
    let mut store: StrategyStore = HashMap::new();
    let mut managers = Vec::new();
    let path = begin_mint_strategy(&store, &mut managers, &input(5), true).unwrap();
    assert_eq!(path, vec![vec![0, 0, 0, 5]]);
    assert_eq!(managers.len(), 1);
    let eoa = complete_mint_strategy(&mut store, input(5), managers[0], path, &generator_key()).unwrap();
    assert_eq!(eoa, GENERATOR_ADDRESS);
    let stored = &store[&5];
    assert_eq!(stored.settings.target_min, U256::from_u64(256));
    assert_eq!(stored.settings.upfront_fee_period, U256::from_u64(604_800));
    assert_eq!(stored.settings.collateral_index, U256::from_u64(2));
    assert_eq!(stored.settings.rpc_canister.0.bytes, vec![1, 2, 3]);
    assert!(!stored.lock.is_locked);
    assert_eq!(get_strategy_address(&store, 5).as_deref(), Some(GENERATOR_ADDRESS));
    assert_eq!(get_strategy_address(&store, 6), None);

    match begin_mint_strategy(&store, &mut managers, &input(5), true) {
        Err(ManagerError::Custom(m)) => assert_eq!(m, "This key is already being used."),
        _ => panic!("expected the key to be taken"),
    }
    assert!(matches!(begin_mint_strategy(&store, &mut managers, &input(6), false), Err(ManagerError::Unauthorized)));
}

#[test]
fn minting_with_a_bad_address_fails() {
    let mut store: StrategyStore = HashMap::new();
    let mut bad = input(1);
    bad.hint_helper = "0x44".to_string();
    let result = complete_mint_strategy(&mut store, bad, Address { hi: 0, lo: 0 }, vec![], &generator_key());
    assert!(matches!(result, Err(ManagerError::DecodingError(_))));
    assert!(store.is_empty());
}

#[test]
fn batch_manager_and_rate_are_set() {
    let mut store: StrategyStore = HashMap::new();
    let mut managers = Vec::new();
    let path = begin_mint_strategy(&store, &mut managers, &input(5), true).unwrap();
    complete_mint_strategy(&mut store, input(5), managers[0], path, &generator_key()).unwrap();
    set_batch_manager(&mut store, true, 5, "0x5555555555555555555555555555555555555555".to_string(), &vec![3]).unwrap();
    assert_eq!(store[&5].settings.batch_manager, Address { hi: 0x55555555, lo: 0x55555555555555555555555555555555 });
    assert_eq!(store[&5].data.latest_rate, U256::from_u64(3));
    assert!(matches!(
        set_batch_manager(&mut store, true, 9, "0x5555555555555555555555555555555555555555".to_string(), &vec![3]),
        Err(ManagerError::NonExistentValue)
    ));
    match set_batch_manager(&mut store, true, 5, "0x6666666666666666666666666666666666666666".to_string(), &vec![9]) {
        Err(ManagerError::Custom(m)) => assert_eq!(m, "Batch manager is already set."),
        _ => panic!("a set batch manager is not replaced"),
    }
    assert_eq!(store[&5].settings.batch_manager, Address { hi: 0x55555555, lo: 0x55555555555555555555555555555555 });
    assert_eq!(store[&5].data.latest_rate, U256::from_u64(3));
    let queries = get_strategies(&store.values().map(|s| s.clone()).collect());
    assert_eq!(queries.len(), 1);
    assert_eq!(queries[0].latest_rate, "3");
    assert_eq!(queries[0].target_min, "256");
    assert_eq!(queries[0].batch_manager, "0x5555555555555555555555555555555555555555");
    assert_eq!(queries[0].eoa_pk.as_deref(), Some(GENERATOR_ADDRESS));
}

#[test]
fn swaps_need_cycles_a_free_lock_and_a_low_balance() {
    let mut shared = false;
    let mut lock = SwapLock::default();
    match begin_swap(5, &mut lock, &mut shared, 0) {
        Err(ManagerError::Custom(m)) => assert_eq!(
            m,
            "The attached cycles amount (5) is less than the minimum accepted amount (1000000000000)"
        ),
        _ => panic!("expected the minimum cycles error"),
    }
    assert!(!shared);
    assert!(begin_swap(1_000_000_000_000, &mut lock, &mut shared, 0).is_ok());
    let mut other = SwapLock::default();
    assert!(matches!(begin_swap(1_000_000_000_000, &mut other, &mut shared, 0), Err(ManagerError::Locked)));
    lock.unlock(&mut shared);
    assert!(matches!(
        begin_swap(1_000_000_000_000, &mut other, &mut shared, 40_000_000_000_000),
        Err(ManagerError::CyclesBalanceAboveRechargingThreshold)
    ));
}

#[test]
fn recharge_notes_count_turns() {
    assert_eq!(recharge_turn_note(1), "Turn 1/2");
}
