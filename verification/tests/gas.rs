use ir_manager::error::ManagerError;
use ir_manager::gas::{estimate_transaction_fees, median_index, parse_gas_estimate, FeeHistory};
use ir_manager::uint::U256;

fn u(v: u64) -> U256 {
    U256::from_u64(v)
}

#[test]
fn median_index_of_lengths() {
    assert_eq!(median_index(1), 0);
    assert_eq!(median_index(9), 4);
    assert_eq!(median_index(10), 4);
}

#[test]
fn fees_come_from_the_median_reward_and_latest_base_fee() {
    let history = FeeHistory {
        oldest_block: u(100),
        base_fee_per_gas: vec![u(7), u(2_000_000_000)],
        reward: vec![vec![u(50)], vec![u(10)], vec![u(40)], vec![u(30)], vec![u(20)]],
    };
    let fees = estimate_transaction_fees(5, &history).unwrap();
    assert_eq!(fees.max_priority_fee_per_gas, 30);
    assert_eq!(fees.max_fee_per_gas, 2_000_000_030);
}

#[test]
fn fees_have_a_floor() {
    let history = FeeHistory { oldest_block: u(1), base_fee_per_gas: vec![u(10)], reward: vec![vec![u(1)]] };
    let fees = estimate_transaction_fees(1, &history).unwrap();
    assert_eq!(fees.max_priority_fee_per_gas, 1);
    assert_eq!(fees.max_fee_per_gas, 1_500_000_000);
}

#[test]
fn missing_rewards_count_as_zero() {
    let history = FeeHistory { oldest_block: u(1), base_fee_per_gas: vec![u(3_000_000_000)], reward: vec![] };
    let fees = estimate_transaction_fees(9, &history).unwrap();
    assert_eq!(fees.max_priority_fee_per_gas, 0);
    assert_eq!(fees.max_fee_per_gas, 3_000_000_000);
}

#[test]
fn fee_history_without_base_fee_fails() {
    let history = FeeHistory { oldest_block: u(1), base_fee_per_gas: vec![], reward: vec![] };
    assert!(matches!(estimate_transaction_fees(9, &history), Err(ManagerError::NonExistentValue)));
}

#[test]
fn base_fee_beyond_u128_fails_with_the_conversion_text() {
    let big = U256 { l0: 0, l1: 0, l2: 1, l3: 0 };
    let history = FeeHistory { oldest_block: u(1), base_fee_per_gas: vec![big], reward: vec![] };
    match estimate_transaction_fees(9, &history) {
        Err(ManagerError::DecodingError(m)) => assert_eq!(
            m,
            "TryFromBigIntError {\n    original: 340282366920938463463374607431768211456,\n}"
        ),
        _ => panic!("expected a decoding error"),
    }
}

#[test]
fn gas_estimate_reads_hexadecimal() {
    assert_eq!(parse_gas_estimate("0x5208").unwrap(), u(21_000));
    assert_eq!(parse_gas_estimate("0xabc").unwrap(), u(0xabc));
    assert_eq!(parse_gas_estimate("0xFF").unwrap(), u(255));
}

#[test]
fn gas_estimate_errors() {
    match parse_gas_estimate("0x") {
        Err(ManagerError::DecodingError(m)) => assert_eq!(m, "The result field of the RPC's response is empty"),
        _ => panic!("expected a decoding error"),
    }
    assert!(matches!(parse_gas_estimate("0xzz"), Err(ManagerError::DecodingError(_))));
}
