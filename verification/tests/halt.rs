use ir_manager::halt::{
    complete_halt, is_explicitly_functional, is_functional, is_older_than, schedule_halt, seconds_to_millis,
    update_halt_status, Halt, HaltStatus, HALT_DELAY,
};
use ir_manager::strategy::stable::StableStrategy;

/// A present-day canister time, in seconds.
const NOW_SECS: u64 = 1_700_000_000;
const NOW_NS: u64 = NOW_SECS * 1_000_000_000;

fn strategy(last_ok_exit: u64, last_update: u64) -> StableStrategy {
    let mut s = StableStrategy::default();
    s.data.last_ok_exit = last_ok_exit;
    s.data.last_update = last_update;
    s
}

#[test]
fn a_new_canister_is_functional() {
    let halt = Halt::default();
    assert!(is_functional(&halt));
    assert!(is_explicitly_functional(&halt));
}

#[test]
fn a_recent_exit_keeps_the_canister_functional() {
    let mut halt = Halt::default();
    let strategies = vec![strategy(NOW_SECS - 100, NOW_SECS - 100)];
    update_halt_status(&mut halt, &strategies, NOW_NS);
    assert_eq!(halt.status, HaltStatus::Functional);
}

#[test]
fn no_strategy_schedules_a_halt() {
    let mut halt = Halt::default();
    update_halt_status(&mut halt, &vec![], NOW_NS);
    assert!(matches!(halt.status, HaltStatus::HaltingInProgress { .. }));
    assert!(is_functional(&halt));
    assert!(!is_explicitly_functional(&halt));
}

#[test]
fn stale_strategies_schedule_a_halt_seven_days_ahead() {
    let mut halt = Halt::default();
    let strategies = vec![strategy(1_000_000_000, NOW_SECS - 100), strategy(1_000_000_000, NOW_SECS - 100)];
    update_halt_status(&mut halt, &strategies, NOW_NS);
    match halt.status {
        HaltStatus::HaltingInProgress { halts_at } => assert_eq!(halts_at, NOW_SECS * 1000 + 604_800_000),
        _ => panic!("expected a scheduled halt"),
    }
    assert_eq!(HALT_DELAY, 604_800_000);
    assert_eq!(halt.message.as_deref(), Some("No strategy has had a successful exit in the past 7 days."));
}

#[test]
fn a_halted_canister_is_not_functional() {
    let mut halt = Halt::default();
    schedule_halt(&mut halt, "stale".to_string(), NOW_NS);
    complete_halt(&mut halt, "halted".to_string(), NOW_NS);
    assert!(matches!(halt.status, HaltStatus::Halted { .. }));
    assert!(!is_functional(&halt));
}

#[test]
fn no_strategy_gives_the_exit_message() {
    let mut halt = Halt::default();
    assert!(update_halt_status(&mut halt, &vec![], NOW_NS));
    assert_eq!(halt.message.as_deref(), Some("No strategy has had a successful exit in the past 7 days."));
}

#[test]
fn recent_exits_and_updates_prevent_a_halt_at_a_present_day_clock() {
    let mut halt = Halt::default();
    let strategies = vec![strategy(NOW_SECS - 3 * 86_400, NOW_SECS - 2 * 86_400)];
    assert!(!update_halt_status(&mut halt, &strategies, NOW_NS));
    assert_eq!(halt.status, HaltStatus::Functional);
    assert!(halt.message.is_none());
}

#[test]
fn no_rate_update_in_ninety_days_gives_the_update_message() {
    let mut halt = Halt::default();
    let strategies = vec![strategy(NOW_SECS - 86_400, NOW_SECS - 91 * 86_400)];
    assert!(update_halt_status(&mut halt, &strategies, NOW_NS));
    assert_eq!(halt.message.as_deref(), Some("No strategy has updated a rate in the past 90 days."));
}

#[test]
fn a_recent_rate_update_prevents_the_update_halt() {
    let mut halt = Halt::default();
    let strategies = vec![strategy(NOW_SECS - 86_400, NOW_SECS - 89 * 86_400)];
    assert!(!update_halt_status(&mut halt, &strategies, NOW_NS));
    assert_eq!(halt.status, HaltStatus::Functional);
}

#[test]
fn the_halt_clock_reads_milliseconds() {
    assert!(is_older_than(1, 0, 2_000_000));
    assert!(!is_older_than(0, 0, 2_000_000));
    assert!(!is_older_than(2, 0, 2_000_000));
    assert!(is_older_than(1, 1, 86_400_000 * 1_000_000 + 2_000_000));
    assert!(!is_older_than(2, 1, 86_400_000 * 1_000_000 + 2_000_000));
    let mut halt = Halt::default();
    complete_halt(&mut halt, "halted".to_string(), 5_000_000_000);
    assert_eq!(halt.status, HaltStatus::Halted { halted_at: 5_000 });
    assert_eq!(seconds_to_millis(7), 7_000);
    assert_eq!(seconds_to_millis(u64::MAX), u64::MAX);
}
