use std::collections::HashMap;

use ir_manager::address::Address;
use ir_manager::error::ManagerError;
use ir_manager::evm_rpc::{BlockTag, SendRawTransactionStatus};
use ir_manager::journal::{JournalCollection, LogType};
use ir_manager::strategy::data::StrategyData;
use ir_manager::strategy::executable::{
    approximate_hint_trials, build_execution_context, collect_troves_page, maximum_redeemable_against_collateral,
    rate_adjustment_args, target_percentage, wrapping_total, ExecutableStrategy, RateProposal,
};
use ir_manager::strategy::lock::Lock;
use ir_manager::strategy::run::{finish_attempt, load_strategy};
use ir_manager::strategy::settings::StrategySettings;
use ir_manager::strategy::stable::{StableStrategy, StrategyStore};
use ir_manager::types::DebtPerInterestRate;
use ir_manager::uint::U256;

fn notes() -> JournalCollection {
    JournalCollection::open(None, 0)
}

const E18: u128 = 1_000_000_000_000_000_000;
const BPS: u128 = 100_000_000_000_000;

fn u(v: u128) -> U256 {
    U256::from_u128(v)
}

fn batch() -> Address {
    Address { hi: 0xbbbb, lo: 1 }
}

fn other() -> Address {
    Address { hi: 0, lo: 0 }
}

fn trove(manager: Address, rate: u128, debt: u128) -> DebtPerInterestRate {
    DebtPerInterestRate { interest_batch_manager: manager, interest_rate: u(rate), debt: u(debt) }
}

fn strategy(latest_rate: u128) -> ExecutableStrategy {
    let mut settings = StrategySettings::default();
    settings.key(7).batch_manager(batch()).upfront_fee_period(u(7 * 24 * 3600));
    let mut data = StrategyData::default();
    data.latest_rate(u(latest_rate));
    ExecutableStrategy::new(settings, data, Lock::default())
}

#[test]
fn debt_in_front_sums_the_troves_before_the_batch() {
    let mut s = strategy(0);
    let troves = vec![trove(other(), 10, 100), trove(other(), 20, 50), trove(batch(), 30, 70), trove(other(), 40, 5)];
    assert_eq!(s.get_current_debt_in_front(&troves), Some(u(150)));
    assert_eq!(s.data.latest_rate, u(30));
    let mut t = strategy(3);
    assert_eq!(t.get_current_debt_in_front(&vec![trove(other(), 1, 1)]), None);
    assert_eq!(t.data.latest_rate, u(3));
}

#[test]
fn new_rate_is_one_bps_above_the_trove_where_the_target_is_passed() {
    let s = strategy(0);
    // Target: 50% of 1000 = 500.
    let troves = vec![trove(other(), 10 * BPS, 300), trove(batch(), 15 * BPS, 999), trove(other(), 20 * BPS, 300)];
    let rate = s.calculate_new_rate(&mut notes(), &troves, u(E18 / 2), u(1000), 0).unwrap();
    assert_eq!(rate, u(21 * BPS));
}

#[test]
fn new_rate_follows_the_last_trove_when_the_target_is_never_passed() {
    let s = strategy(0);
    let troves = vec![trove(other(), 10 * BPS, 100), trove(other(), 20 * BPS, 100)];
    assert_eq!(s.calculate_new_rate(&mut notes(), &troves, u(E18 / 2), u(1000), 0).unwrap(), u(21 * BPS));
    let own_last = vec![trove(other(), 10 * BPS, 100), trove(batch(), 20 * BPS, 100)];
    assert_eq!(s.calculate_new_rate(&mut notes(), &own_last, u(E18 / 2), u(1000), 0).unwrap(), U256::zero());
}

#[test]
fn zero_target_is_refused() {
    let s = strategy(0);
    match s.calculate_new_rate(&mut notes(), &vec![trove(other(), 1, 1)], U256::zero(), u(1000), 0) {
        Err(ManagerError::Custom(m)) => assert_eq!(m, "The target amount is zero. Not proceeding."),
        _ => panic!("expected the zero target error"),
    }
}

#[test]
fn tolerance_checks_around_the_target() {
    let s = strategy(0);
    // Target 500; increase below 425, first decrease above 575.
    assert!(s.increase_check(&mut notes(), u(424), u(1000), u(E18 / 2), 0));
    assert!(!s.increase_check(&mut notes(), u(425), u(1000), u(E18 / 2), 0));
    assert!(s.first_decrease_check(&mut notes(), u(576), u(1000), u(E18 / 2), 0));
    assert!(!s.first_decrease_check(&mut notes(), u(575), u(1000), u(E18 / 2), 0));
}

#[test]
fn second_decrease_check_weighs_the_fee() {
    let s = strategy(10 * BPS);
    // After the fee period the decrease always goes ahead.
    assert_eq!(s.second_decrease_check(&mut notes(), u(11), u(10), u(5 * BPS), u(1), 0).unwrap(), true);
    // Half-way: (100 - 50) * (10 - 5) bps = 250 bps against 100 * average.
    assert_eq!(s.second_decrease_check(&mut notes(), u(5), u(10), u(5 * BPS), u(2 * BPS), 0).unwrap(), true);
    assert_eq!(s.second_decrease_check(&mut notes(), u(5), u(10), u(5 * BPS), u(3 * BPS), 0).unwrap(), false);
    assert!(matches!(s.second_decrease_check(&mut notes(), u(0), u(0), u(5 * BPS), u(1), 0), Err(ManagerError::Arithmetic(_))));
}

#[test]
fn redeemable_debt_and_target_percentage() {
    // 20% of the unbacked debt: 20% of the system debt.
    assert_eq!(maximum_redeemable_against_collateral(u(200), u(1000), u(5000)).unwrap(), u(1000));
    // Below 1%: 1% of the system debt.
    assert_eq!(maximum_redeemable_against_collateral(u(1), u(1000), u(5000)).unwrap(), u(50));
    assert!(matches!(maximum_redeemable_against_collateral(u(1), u(0), u(5000)), Err(ManagerError::Arithmetic(_))));
    // 2 * 10% * 0.5% / (0.5% + 0.5%) = 10%.
    assert_eq!(target_percentage(u(E18 / 10), u(5_000_000_000_000_000)).unwrap(), u(E18 / 10));
}

#[test]
fn execution_context_keeps_active_troves() {
    let mut settings = StrategySettings::default();
    settings.target_min(u(E18 / 10));
    let mut data = StrategyData::default();
    data.last_update(100);
    let troves = vec![trove(other(), 0, 5), trove(other(), 3, 0), trove(other(), 3, 5)];
    let ctx = build_execution_context(
        &settings,
        &data,
        1_000_000_000_000,
        BlockTag::Latest,
        &troves,
        u(5000),
        u(200),
        u(5_000_000_000_000_000),
        u(1000),
    )
    .unwrap();
    assert_eq!(ctx.troves, vec![trove(other(), 3, 5)]);
    assert_eq!(ctx.troves_count, u(1));
    assert_eq!(ctx.time_since_last_update, u(900));
    assert_eq!(ctx.maximum_redeemable_against_collateral, u(1000));
    assert_eq!(ctx.target_percentage, u(E18 / 10));
}

#[test]
fn trove_pages_end_at_an_empty_trove() {
    let mut troves = Vec::new();
    assert_eq!(collect_troves_page(&mut troves, vec![trove(other(), 1, 1)], u(9)).unwrap(), Some(u(9)));
    assert_eq!(collect_troves_page(&mut troves, vec![trove(other(), 0, 0)], u(10)).unwrap(), None);
    assert_eq!(troves.len(), 2);
    assert!(matches!(collect_troves_page(&mut troves, vec![], u(11)), Err(ManagerError::NonExistentValue)));
}

#[test]
fn proposal_and_decision() {
    let mut s = strategy(0);
    let troves = vec![trove(other(), 10 * BPS, 300), trove(batch(), 15 * BPS, 999), trove(other(), 20 * BPS, 300)];
    let ctx = build_execution_context(
        &s.settings,
        &s.data,
        0,
        BlockTag::Latest,
        &troves,
        u(10_000),
        u(100),
        u(5_000_000_000_000_000),
        u(1000),
    )
    .unwrap();
    // Maximum redeemable: 10% of 10000 = 1000; target percentage zero (target_min 0).
    match s.propose_rate(&mut notes(), &ctx, 0) {
        Err(ManagerError::Custom(_)) => {},
        _ => panic!("a zero target is refused"),
    }
    let mut s2 = strategy(0);
    s2.settings.target_min(u(E18 / 4));
    let ctx2 = build_execution_context(
        &s2.settings,
        &s2.data,
        0,
        BlockTag::Latest,
        &troves,
        u(10_000),
        u(100),
        u(5_000_000_000_000_000),
        u(1000),
    )
    .unwrap();
    // Target percentage 2 * 25% * 0.5% / 1% = 25%; target 250 of 1000; debt in front 300.
    match s2.propose_rate(&mut notes(), &ctx2, 0).unwrap() {
        RateProposal::Candidate { new_rate, debt_in_front } => {
            assert_eq!(new_rate, u(11 * BPS));
            assert_eq!(debt_in_front, u(300));
            // 300 is above the upper bound 287 and no fee is due: the decrease goes ahead.
            let decision = s2.decide_rate_adjustment(&mut notes(), &ctx2, debt_in_front, new_rate, u(0), 0).unwrap();
            assert_eq!(decision, Some((new_rate, u(0))));
            // Within the bounds [212, 287] nothing changes.
            assert_eq!(s2.decide_rate_adjustment(&mut notes(), &ctx2, u(250), new_rate, u(0), 0).unwrap(), None);
            // Below 212 the rate goes up.
            assert_eq!(s2.decide_rate_adjustment(&mut notes(), &ctx2, u(100), new_rate, u(5), 0).unwrap(), Some((new_rate, u(5))));
        },
        other => panic!("unexpected proposal {:?}", other),
    }
}

#[test]
fn rate_adjustment_arguments() {
    let args = rate_adjustment_args(u(5 * BPS), (u(1), u(2)), u(10));
    assert_eq!(args.new_annual_interest_rate, 5 * BPS);
    assert_eq!(args.upper_hint, u(1));
    assert_eq!(args.lower_hint, u(2));
    assert_eq!(args.max_upfront_fee, u(1_000_000_000_000_010));
    assert_eq!(approximate_hint_trials(u(100)), u(100));
    assert_eq!(approximate_hint_trials(u(99)), u(90));
}

fn store_with(s: &ExecutableStrategy) -> StrategyStore {
    let mut store: StrategyStore = HashMap::new();
    store.insert(s.settings.key, StableStrategy::from(s));
    store
}

#[test]
fn accepted_transaction_advances_the_nonce() {
    let mut s = strategy(0);
    let mut store = store_with(&s);
    let mut j = notes();
    let r = s.handle_transaction_response(
        &mut store,
        &mut j,
        SendRawTransactionStatus::Accepted(None),
        u(9 * BPS),
        1_700_000_000_000_000_000,
    );
    assert_eq!(r.unwrap(), true);
    assert_eq!(s.data.eoa_nonce, 1);
    assert_eq!(s.data.last_update, 1_700_000_000);
    assert_eq!(store[&7].data.latest_rate, u(9 * BPS));
    assert_eq!(note_texts(&j), vec!["The rate adjustment transaction was successful. Transaction hash: None".to_string()]);
    assert_eq!(j.entries[0].log_type, LogType::RateAdjustment);
    assert_eq!(s.handle_transaction_response(&mut store, &mut j, SendRawTransactionStatus::NonceTooLow, u(1), 0).unwrap(), false);
    assert_eq!(
        note_texts(&j)[1],
        "The rate adjustment transaction failed due to wrong nonce. Adjusting the nonce..."
    );
    let mut k = notes();
    assert!(s
        .handle_transaction_response(&mut store, &mut k, SendRawTransactionStatus::Accepted(Some("0xab".to_string())), u(1), 0)
        .unwrap());
    assert_eq!(note_texts(&k), vec!["The rate adjustment transaction was successful. Transaction hash: Some(\"0xab\")".to_string()]);
    match s.handle_transaction_response(&mut store, &mut j, SendRawTransactionStatus::InsufficientFunds, u(1), 0) {
        Err(ManagerError::Custom(m)) => assert_eq!(m, "Not enough balance to cover the gas fee."),
        _ => panic!("expected the funds error"),
    }
}

#[test]
fn strategy_lock_is_recorded_in_the_store() {
    let mut s = strategy(0);
    let mut store = store_with(&s);
    let now = 5_000_000_000_000;
    assert!(s.lock(&mut store, now).is_ok());
    assert!(store[&7].lock.is_locked);
    let mut rival = ExecutableStrategy::from(&store[&7]);
    assert!(matches!(rival.lock(&mut store, now), Err(ManagerError::Locked)));
    s.unlock(&mut store, now);
    assert!(!store[&7].lock.is_locked);
}

#[test]
fn runner_journals_every_attempt() {
    let s = strategy(0);
    let store = store_with(&s);
    let mut store = store;
    let mut journal = JournalCollection::open(Some(7), 0);
    let mut loaded = load_strategy(&store, 7, &mut journal, 0).unwrap();
    assert_eq!(journal.entries[0].note.as_deref(), Some("Executable strategy is created."));
    assert!(load_strategy(&store, 8, &mut journal, 0).is_none());
    assert!(matches!(journal.entries[1].entry, Err(ManagerError::NonExistentValue)));

    assert!(loaded.lock(&mut store, 2_000_000_000_000).is_ok());
    let stop = finish_attempt(&mut loaded, &mut store, &mut journal, 1, Err(ManagerError::Locked), 2_000_000_000_000);
    assert!(!stop);
    assert!(!store[&7].lock.is_locked);
    assert_eq!(journal.entries[2].log_type, LogType::ExecutionResult);
    assert_eq!(
        journal.entries[2].note.as_deref(),
        Some("Strategy execution attempt is finished. Attempts remaining: 1")
    );
    let stop = finish_attempt(&mut loaded, &mut store, &mut journal, 2, Ok(()), 3_000_000_000_000);
    assert!(stop);
    assert_eq!(store[&7].data.last_ok_exit, 3_000);
    assert_eq!(
        journal.entries[3].note.as_deref(),
        Some("Strategy execution attempt is finished. Attempts remaining: 0")
    );
}

#[test]
fn totals_add_and_wrap() {
    assert_eq!(wrapping_total(&vec![]), U256::zero());
    let values = vec![U256::from_u64(1), U256::from_u64(2), U256::from_u128(3 * E18)];
    assert_eq!(wrapping_total(&values), U256::from_u128(3 * E18 + 3));
    assert_eq!(wrapping_total(&vec![U256::max(), U256::from_u64(2)]), U256::from_u64(1));
}

fn note_texts(journal: &JournalCollection) -> Vec<String> {
    journal.entries.iter().map(|e| e.note.clone().unwrap_or_default()).collect()
}

#[test]
fn rate_checks_write_their_notes() {
    let s = strategy(10 * BPS);
    let mut j = notes();
    assert!(s.increase_check(&mut j, u(424), u(1000), u(E18 / 2), 0));
    assert!(s.first_decrease_check(&mut j, u(576), u(1000), u(E18 / 2), 0));
    assert_eq!(note_texts(&j), vec!["increase check: 424 < 425".to_string(), "first decrease check: 576 > 575".to_string()]);

    let mut j = notes();
    assert_eq!(s.second_decrease_check(&mut j, u(11), u(10), u(5 * BPS), u(1), 0).unwrap(), true);
    assert_eq!(note_texts(&j), vec!["second decrease check passed: time exceeded period".to_string()]);

    let mut j = notes();
    assert_eq!(s.second_decrease_check(&mut j, u(5), u(10), u(5 * BPS), u(2 * BPS), 0).unwrap(), true);
    assert_eq!(
        note_texts(&j),
        vec![
            "second decrease check: time since last update 5 upfront fee period 10 latest rate 1000000000000000 new rate 500000000000000 average rate 200000000000000 scaled r 50".to_string(),
            "second decrease check passed: rate condition".to_string(),
        ]
    );

    let mut j = notes();
    assert_eq!(s.second_decrease_check(&mut j, u(5), u(10), u(5 * BPS), u(3 * BPS), 0).unwrap(), false);
    assert_eq!(j.entries.len(), 1);

    let mut j = notes();
    assert!(s.second_decrease_check(&mut j, u(0), u(0), u(5 * BPS), u(1), 0).is_err());
    assert!(j.entries.is_empty());
}

#[test]
fn rate_calculation_writes_its_notes() {
    let s = strategy(0);
    let mut j = notes();
    let troves = vec![trove(other(), 10 * BPS, 300), trove(batch(), 15 * BPS, 999), trove(other(), 20 * BPS, 300)];
    assert_eq!(s.calculate_new_rate(&mut j, &troves, u(E18 / 2), u(1000), 0).unwrap(), u(21 * BPS));
    assert_eq!(
        note_texts(&j),
        vec![
            "Calculated target debt in front: 500, number of troves in this collateral market (including the batch): 3".to_string(),
            "Positioning the batch after trove with debt 300".to_string(),
        ]
    );
    let mut j = notes();
    let troves = vec![trove(other(), 10 * BPS, 100), trove(other(), 20 * BPS, 100)];
    s.calculate_new_rate(&mut j, &troves, u(E18 / 2), u(1000), 0).unwrap();
    assert_eq!(note_texts(&j)[1], "Not enough debt in the market, moving the batch to the end.");
    assert_eq!(j.entries.len(), 2);
}
