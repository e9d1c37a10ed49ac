use ir_manager::constants::{
    cketh_fee, cketh_ledger, cketh_threshold, ether_recharge_value, exchange_rate_canister, max_number_of_troves, scale,
    tolerance_margin_down, tolerance_margin_up, SCALE,
};
use ir_manager::uint::U256;

fn text_of(bytes: &[u8]) -> String {
    candid::Principal::from_slice(bytes).to_text()
}

#[test]
fn cketh_ledger_is_correct() {
    assert_eq!(
        text_of(&cketh_ledger().unwrap().bytes),
        "ss2fx-dyaaa-aaaar-qacoq-cai".to_string()
    );
}

#[test]
fn exchange_rate_canister_is_correct() {
    assert_eq!(
        text_of(&exchange_rate_canister().unwrap().bytes),
        "uf6dk-hyaaa-aaaaq-qaaaq-cai".to_string()
    );
}

#[test]
fn scale_is_e18() {
    assert_eq!(SCALE, 10_u128.pow(18));
}

#[test]
fn scaled_constants_have_their_values() {
    assert_eq!(scale(), U256::from_u128(1_000_000_000_000_000_000));
    assert_eq!(tolerance_margin_up(), U256::from_u128(150_000_000_000_000_000));
    assert_eq!(tolerance_margin_down(), U256::from_u128(150_000_000_000_000_000));
    assert_eq!(max_number_of_troves(), U256::from_u64(75));
    assert_eq!(cketh_fee(), U256::from_u64(2_000_000_000_000));
    assert_eq!(ether_recharge_value(), U256::from_u64(20_000_000_000_000_000));
    assert_eq!(cketh_threshold(), U256::from_u64(30_000_000_000_000_000));
}
