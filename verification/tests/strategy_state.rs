use ir_manager::address::Address;
use ir_manager::evm_rpc::Service;
use ir_manager::strategy::data::{StrategyData, StrategyDataQuery};
use ir_manager::strategy::lock::{Lock, StableLock};
use ir_manager::strategy::settings::StrategySettings;
use ir_manager::uint::U256;

fn repeat_byte(b: u8) -> Address {
    let hi = u32::from_be_bytes([b; 4]);
    let lo = u128::from_be_bytes([b; 16]);
    Address { hi, lo }
}

#[test]
fn test_strategy_data_setters() {
    let mut data = StrategyData::default();

    let latest_rate = U256::from_u64(12345u64);
    let last_update = 1700000000u64;
    let eoa_nonce = 42u64;

    data.latest_rate(latest_rate).last_update(last_update).eoa_nonce(eoa_nonce);

    assert_eq!(data.latest_rate, latest_rate);
    assert_eq!(data.last_update, last_update);
    assert_eq!(data.eoa_nonce, eoa_nonce);
}

#[test]
fn test_strategy_settings_setters() {
    let mut settings = StrategySettings::default();

    let key = 42;
    let batch_manager = repeat_byte(0x11);
    let hint_helper = repeat_byte(0x22);
    let manager = repeat_byte(0x33);
    let collateral_registry = repeat_byte(0x44);
    let multi_trove_getter = repeat_byte(0x55);
    let collateral_index = U256::from_u64(100u64);
    let derivation_path = vec![vec![1u8, 2u8, 3u8]];
    let target_min = U256::from_u64(500u64);
    let upfront_fee_period = U256::from_u64(3600u64);
    let eoa_pk = Some(repeat_byte(0x66));
    let rpc_service = Service::default();

    settings
        .key(key)
        .batch_manager(batch_manager)
        .hint_helper(hint_helper)
        .manager(manager)
        .collateral_registry(collateral_registry)
        .multi_trove_getter(multi_trove_getter)
        .collateral_index(collateral_index)
        .derivation_path(derivation_path.clone())
        .target_min(target_min)
        .upfront_fee_period(upfront_fee_period)
        .eoa_pk(eoa_pk)
        .rpc_canister(rpc_service.clone());

    assert_eq!(settings.key, key);
    assert_eq!(settings.batch_manager, batch_manager);
    assert_eq!(settings.hint_helper, hint_helper);
    assert_eq!(settings.manager, manager);
    assert_eq!(settings.collateral_registry, collateral_registry);
    assert_eq!(settings.multi_trove_getter, multi_trove_getter);
    assert_eq!(settings.collateral_index, collateral_index);
    assert_eq!(settings.derivation_path, derivation_path);
    assert_eq!(settings.target_min, target_min);
    assert_eq!(settings.upfront_fee_period, upfront_fee_period);
    assert_eq!(settings.eoa_pk, eoa_pk);
}

#[test]
fn record_last_ok_exit_stores_seconds() {
    let mut data = StrategyData::default();
    data.record_last_ok_exit(1_700_000_000_123_456_789);
    assert_eq!(data.last_ok_exit, 1_700_000_000);
}

/// One hour of lock timeout, in nanoseconds, plus the second that makes it expire.
const HOUR_NS: u64 = 3_600 * 1_000_000_000;

#[test]
fn lock_excludes_a_second_holder_until_released() {
    let now = 10_000_000_000_000;
    let mut lock = Lock::default();
    assert!(lock.try_lock(now).is_ok());
    assert!(lock.is_locked);
    let mut other = lock;
    assert!(other.try_lock(now + 1).is_err());
    lock.try_unlock(true, now + 2);
    assert!(!lock.is_locked);
    assert!(lock.try_lock(now + 3).is_ok());
}

#[test]
fn an_abandoned_lock_can_be_taken_again() {
    let now = 10_000_000_000_000;
    let mut lock = Lock::default();
    assert!(lock.try_lock(now).is_ok());
    let mut other = lock;
    assert!(other.try_lock(now + HOUR_NS).is_err());
    assert!(other.try_lock(now + HOUR_NS + 1_000_000_000).is_ok());
}

#[test]
fn lock_abandoned_for_over_an_hour_is_recovered() {
    let mut lock = Lock::default();
    assert!(lock.try_lock(0).is_ok());
    assert!(lock.try_lock(3_600 * 1_000_000_000).is_err());
    assert!(lock.try_lock(3_601 * 1_000_000_000).is_ok());
    assert_eq!(lock.last_locked_at, Some(3_601));
}

#[test]
fn lock_round_trips_through_its_stored_form() {
    let lock = Lock { is_locked: true, last_locked_at: Some(5) };
    let stable = StableLock::from(lock);
    assert_eq!(Lock::from(stable), lock);
}

#[test]
fn data_query_writes_dates() {
    let mut data = StrategyData::default();
    data.latest_rate(U256::from_u64(7)).last_update(1_700_000_000).eoa_nonce(3);
    let query = StrategyDataQuery::try_from(data).unwrap();
    assert_eq!(query.latest_rate, U256::from_u64(7));
    assert_eq!(query.last_update, "14-11-2023 22:13:20");
    assert_eq!(query.last_ok_exit, "01-01-1970 00:00:00");
    assert_eq!(query.eoa_nonce, 3);
}
