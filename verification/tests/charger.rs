use ir_manager::charger::{
    balance_from_response, can_fund_deposit, check_threshold, cketh_balance_units, ether_cycles_rate, needs_cketh_recharge,
    deposit_outcome, deposit_step, next_eoa_turn, no_funded_eoa, plan_cketh_swap, rotate_strategies, swap_rate,
    DepositAction, SwapLock,
};
use ir_manager::address::Address;
use ir_manager::error::ManagerError;
use ir_manager::evm_rpc::SendRawTransactionStatus;
use ir_manager::strategy::stable::StableStrategy;
use ir_manager::uint::U256;

#[test]
fn threshold_allows_swaps_up_to_thirty_trillion_cycles() {
    assert!(check_threshold(30_000_000_000_000).is_ok());
    assert!(matches!(
        check_threshold(30_000_000_000_001),
        Err(ManagerError::CyclesBalanceAboveRechargingThreshold)
    ));
}

#[test]
fn recharge_and_deposit_thresholds() {
    assert!(needs_cketh_recharge(U256::from_u64(29_999_999_999_999_999)));
    assert!(!needs_cketh_recharge(U256::from_u64(30_000_000_000_000_000)));
    assert!(!can_fund_deposit(U256::from_u64(20_000_000_000_000_000)));
    assert!(can_fund_deposit(U256::from_u64(20_000_000_000_000_001)));
}

#[test]
fn swap_lock_admits_one_swap_at_a_time() {
    let mut shared = false;
    let mut first = SwapLock::default();
    let mut second = SwapLock::default();
    assert!(first.lock(&mut shared).is_ok());
    assert!(shared);
    assert!(matches!(second.lock(&mut shared), Err(ManagerError::Locked)));
    assert!(matches!(first.lock(&mut shared), Err(ManagerError::Locked)));
    first.unlock(&mut shared);
    assert!(!shared);
    assert!(second.lock(&mut shared).is_ok());
}

#[test]
fn ending_a_swap_releases_only_a_lock_it_holds() {
    let mut shared = false;
    let mut holder = SwapLock::default();
    let mut refused = SwapLock::default();
    assert!(holder.lock(&mut shared).is_ok());
    assert!(refused.lock(&mut shared).is_err());
    refused.end_swap(&mut shared);
    assert!(shared);
    assert!(!refused.0);
    holder.end_swap(&mut shared);
    assert!(!shared);
    assert!(!holder.0);
}

#[test]
fn swap_pays_at_most_what_the_cycles_buy() {
    // rate 1000 * 97 / 100 = 970; 5 cycles buy 5 * 970 * 10^18.
    let balance = U256::from_u128(10_000 * 1_000_000_000_000_000_000);
    let swap = plan_cketh_swap(1000, 5, balance).unwrap();
    assert_eq!(swap.returning_ether, U256::from_u128(4_850 * 1_000_000_000_000_000_000));
    assert_eq!(swap.accepted_cycles, U256::from_u64(5));
}

#[test]
fn swap_sends_the_whole_balance_when_it_is_smaller() {
    let balance = U256::from_u128(2_000 * 1_000_000_000_000_000_000);
    let swap = plan_cketh_swap(1000, 5, balance).unwrap();
    assert_eq!(swap.returning_ether, balance);
    assert_eq!(swap.accepted_cycles, U256::from_u64(2));
}

#[test]
fn swap_at_a_zero_rate_fails() {
    match plan_cketh_swap(1, 5, U256::from_u64(1)) {
        Err(ManagerError::Arithmetic(m)) => assert_eq!(m, "\"The calculated ETH/CXDR rate is zero.\""),
        _ => panic!("expected an arithmetic error"),
    }
}

#[test]
fn exchange_rate_divides_by_the_decimals() {
    assert_eq!(ether_cycles_rate(900, 9).unwrap(), 100);
    match ether_cycles_rate(900, 0) {
        Err(ManagerError::Arithmetic(m)) => assert_eq!(m, "\"ETH/CXDR decimals value was zero.\""),
        _ => panic!("expected an arithmetic error"),
    }
}

#[test]
fn cketh_balance_is_scaled_down() {
    assert_eq!(
        cketh_balance_units(U256::from_u128(3_500_000_000_000_000_000)),
        U256::from_u64(3)
    );
}

#[test]
fn balance_reads_the_hex_quantity() {
    assert_eq!(balance_from_response("0x10").unwrap(), U256::from_u64(16));
    assert_eq!(balance_from_response("0xde0b6b3a7640000").unwrap(), U256::from_u64(1_000_000_000_000_000_000));
    assert_eq!(balance_from_response("0x0").unwrap(), U256::zero());
    assert!(matches!(balance_from_response("\u{1}\u{2}"), Err(ManagerError::DecodingError(_))));
    assert!(matches!(balance_from_response("0x"), Err(ManagerError::DecodingError(_))));
    assert!(matches!(balance_from_response("0xzz"), Err(ManagerError::DecodingError(_))));
    assert!(matches!(balance_from_response("10"), Err(ManagerError::DecodingError(_))));
}

#[test]
fn eoa_turns_rotate() {
    let mut strategies = Vec::new();
    for key in 0..4u32 {
        let mut s = StableStrategy::default();
        s.settings.key = key;
        strategies.push(s);
    }
    let rotated = rotate_strategies(&strategies, 1);
    let keys: Vec<u32> = rotated.iter().map(|s| s.settings.key).collect();
    assert_eq!(keys, vec![1, 2, 3, 0]);
    // The EOA at position 2 of the rotated list (strategy 3) paid; next comes strategy 0.
    assert_eq!(next_eoa_turn(2, 1, 4), 0);
    assert_eq!(next_eoa_turn(0, 1, 4), 2);
    // Beyond 255 strategies the position is computed in full and kept in the
    // counter's low 8 bits.
    assert_eq!(next_eoa_turn(299, 0, 300), 0);
    assert_eq!(next_eoa_turn(10, 250, 300), 261u32 as u8);
    assert_eq!(next_eoa_turn(290, 200, 300), 191);
}

#[test]
fn swap_rate_applies_the_discount() {
    assert_eq!(swap_rate(1000).unwrap(), 970);
    assert!(matches!(swap_rate(1), Err(ManagerError::Arithmetic(_))));
}

fn with_eoa(eoa: Option<Address>) -> StableStrategy {
    let mut s = StableStrategy::default();
    s.settings.eoa_pk = eoa;
    s
}

#[test]
fn deposit_steps_pass_over_unusable_eoas_and_take_the_first_funded_one() {
    let eoa = Address { hi: 1, lo: 2 };
    assert_eq!(deposit_step(&with_eoa(None), None, 0, 0, 3), DepositAction::TryNext);
    let s = with_eoa(Some(eoa));
    assert_eq!(deposit_step(&s, None, 0, 0, 3), DepositAction::FetchBalance(eoa));
    assert_eq!(deposit_step(&s, Some(Err(ManagerError::NonExistentValue)), 0, 0, 3), DepositAction::TryNext);
    let low = U256::from_u128(20_000_000_000_000_000);
    assert_eq!(deposit_step(&s, Some(Ok(low)), 0, 0, 3), DepositAction::TryNext);
    let high = U256::from_u128(20_000_000_000_000_001);
    assert_eq!(deposit_step(&s, Some(Ok(high)), 1, 1, 3), DepositAction::Deposit { eoa, next_turn: 0 });
    assert_eq!(deposit_step(&s, Some(Ok(high)), 0, 1, 3), DepositAction::Deposit { eoa, next_turn: 2 });
}

#[test]
fn a_deposit_succeeds_only_when_accepted() {
    assert!(deposit_outcome(Ok(SendRawTransactionStatus::Accepted(None))).is_ok());
    match deposit_outcome(Ok(SendRawTransactionStatus::NonceTooLow)) {
        Err(ManagerError::Custom(m)) => assert_eq!(m, "The deposit transaction was not accepted."),
        _ => panic!("a refused deposit is an error"),
    }
    assert!(matches!(deposit_outcome(Err(ManagerError::Locked)), Err(ManagerError::Locked)));
    match no_funded_eoa() {
        Err(ManagerError::Custom(m)) => assert_eq!(m, "No EOA had enough balance."),
        _ => panic!("expected the no-balance error"),
    }
}
