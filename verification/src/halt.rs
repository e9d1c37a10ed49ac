//! Halting service to address canister failure.
//!
//! Once a day the canister checks whether any strategy has exited successfully in
//! the past 7 days, or updated a rate in the past 90 days. If none has, a halt is
//! scheduled: the canister keeps working for 7 more days and then stops for good.

use vstd::prelude::*;

use crate::strategy::stable::StableStrategy;

verus! {

/// Halt struct containing reasoning and status
#[derive(Clone, Debug)]
pub struct Halt {
    /// The current halt status
    pub status: HaltStatus,
    /// The halt message (if the canister status is not `Functional`)
    pub message: Option<String>,
}

/// Halt Status enum determining the stage the canister is at
#[derive(Clone, Copy, Debug, PartialEq, Eq, Structural)]
pub enum HaltStatus {
    /// Functioning as expected
    Functional,
    /// Fully halted
    Halted {
        /// Time at which the canister was halted, in milliseconds
        halted_at: u64,
    },
    /// Has a timer scheduled to fully halt the canister soon.
    /// In this stage the canister continues to function normally.
    HaltingInProgress {
        /// Time at which the canister halts, in milliseconds
        halts_at: u64,
    },
}

impl Default for Halt {
    fn default() -> (r: Halt)
        ensures
            r.status == HaltStatus::Functional,
            r.message is None,
    {
        Halt { status: HaltStatus::Functional, message: None }
    }
}

/// Delay between scheduling a halt and the halt, in the unit of `halts_at`
/// (7 days in milliseconds).
pub const HALT_DELAY: u64 = 604_800_000;

/// Length of a day in milliseconds.
pub const DAY_MS: u64 = 86_400_000;

/// Days without a successful exit after which a halt is scheduled.
pub const EXIT_WINDOW_DAYS: u64 = 7;

/// Days without a rate update after which a halt is scheduled.
pub const UPDATE_WINDOW_DAYS: u64 = 90;

/// The time the halting service reads from the canister time `now_ns`: whole
/// milliseconds.
pub open spec fn halt_clock(now_ns: u64) -> int {
    (now_ns / 1_000_000) as int
}

/// `timestamp` (in milliseconds) is older than `days` days: a zero timestamp
/// (never set) is not.
pub open spec fn older_than(timestamp: u64, days: u64, now_ns: u64) -> bool {
    timestamp != 0 && timestamp < halt_clock(now_ns) - days * DAY_MS
}

/// The subtraction in `is_older_than` does not underflow for this timestamp
/// (it would panic; a zero timestamp never reaches it): the clock has run for
/// at least `days` days.
pub open spec fn age_computable(timestamp: u64, days: u64, now_ns: u64) -> bool {
    timestamp != 0 ==> days * DAY_MS <= halt_clock(now_ns)
}

/// A strategy timestamp, kept in seconds, in milliseconds; one too large for a
/// `u64` of milliseconds (over 500 million years) reads as `u64::MAX`.
pub open spec fn millis_of(seconds: u64) -> u64 {
    if seconds <= u64::MAX / 1000 {
        (seconds * 1000) as u64
    } else {
        u64::MAX
    }
}

/// The strategy timestamp `seconds` in milliseconds, as `millis_of` says.
pub fn seconds_to_millis(seconds: u64) -> (r: u64)
    ensures
        r == millis_of(seconds),
{
    if seconds <= u64::MAX / 1000 {
        seconds * 1000
    } else {
        u64::MAX
    }
}

/// Number of strategies whose selected timestamp is older than `days` days.
pub open spec fn count_older(timestamps: Seq<u64>, days: u64, now_ns: u64) -> nat
    decreases timestamps.len(),
{
    if timestamps.len() == 0 {
        0
    } else {
        count_older(timestamps.drop_last(), days, now_ns) + if older_than(timestamps.last(), days, now_ns) {
            1nat
        } else {
            0nat
        }
    }
}

/// The last successful exits of the strategies, in milliseconds.
pub open spec fn exit_times(strategies: Seq<StableStrategy>) -> Seq<u64> {
    strategies.map_values(|s: StableStrategy| millis_of(s.data.last_ok_exit))
}

/// The last rate updates of the strategies, in milliseconds.
pub open spec fn update_times(strategies: Seq<StableStrategy>) -> Seq<u64> {
    strategies.map_values(|s: StableStrategy| millis_of(s.data.last_update))
}

/// Every timestamp is older than `days` days (true of no timestamps).
pub open spec fn all_older(timestamps: Seq<u64>, days: u64, now_ns: u64) -> bool {
    forall|i: int| 0 <= i < timestamps.len() ==> older_than(#[trigger] timestamps[i], days, now_ns)
}

/// Every timestamp can be aged without underflow.
pub open spec fn all_computable(timestamps: Seq<u64>, days: u64, now_ns: u64) -> bool {
    forall|i: int| 0 <= i < timestamps.len() ==> age_computable(#[trigger] timestamps[i], days, now_ns)
}

/// Returns `true` if the canister is not set to `Halted`.
pub fn is_functional(halt: &Halt) -> (r: bool)
    ensures
        r == !(halt.status is Halted),
{
    match halt.status {
        HaltStatus::Functional | HaltStatus::HaltingInProgress { .. } => true,
        HaltStatus::Halted { .. } => false,
    }
}

/// Returns `true` if the canister status is explicitly set to `Functional`.
pub fn is_explicitly_functional(halt: &Halt) -> (r: bool)
    ensures
        r == (halt.status == HaltStatus::Functional),
{
    match halt.status {
        HaltStatus::Functional => true,
        _ => false,
    }
}

/// The largest number of days that `chrono::TimeDelta::days` accepts (it panics
/// beyond it).
pub const MAX_DELTA_DAYS: u64 = 106_751_991_167;

/// Checks if the timestamp (milliseconds) is older than the given number of days
/// at canister time `now_ns`, read in milliseconds. A zero timestamp is never
/// older. The length of the window is
/// `chrono::TimeDelta::days(days).num_milliseconds()`, that is `days * 86_400_000`.
pub fn is_older_than(timestamp: u64, days: u64, now_ns: u64) -> (r: bool)
    requires
        days <= MAX_DELTA_DAYS,
        age_computable(timestamp, days, now_ns),
    ensures
        r == older_than(timestamp, days, now_ns),
{
    if timestamp == 0 {
        return false;
    }
    let current_time_ms = now_ns / 1_000_000;
    let threshold = current_time_ms - days * DAY_MS;
    timestamp < threshold
}

/// Counts the timestamps older than `days` days.
fn count_older_than(timestamps: &Vec<u64>, days: u64, now_ns: u64) -> (r: usize)
    requires
        days <= MAX_DELTA_DAYS,
        all_computable(timestamps@, days, now_ns),
    ensures
        r == count_older(timestamps@, days, now_ns),
        r == timestamps@.len() <==> all_older(timestamps@, days, now_ns),
{
    let mut count: usize = 0;
    let n = timestamps.len();
    let mut i: usize = 0;
    while i < n
        invariant
            n == timestamps@.len(),
            0 <= i <= n,
            days <= MAX_DELTA_DAYS,
            all_computable(timestamps@, days, now_ns),
            count == count_older(timestamps@.subrange(0, i as int), days, now_ns),
            count <= i,
            count == i <==> all_older(timestamps@.subrange(0, i as int), days, now_ns),
        decreases n - i,
    {
        proof {
            assert(timestamps@.subrange(0, i + 1).drop_last() =~= timestamps@.subrange(0, i as int));
            assert(timestamps@.subrange(0, i + 1).last() == timestamps@[i as int]);
            if all_older(timestamps@.subrange(0, i + 1), days, now_ns) {
                assert forall|k: int| 0 <= k < i implies older_than(
                    #[trigger] timestamps@.subrange(0, i as int)[k],
                    days,
                    now_ns,
                ) by {
                    assert(timestamps@.subrange(0, i + 1)[k] == timestamps@.subrange(0, i as int)[k]);
                }
                assert(timestamps@.subrange(0, i + 1)[i as int] == timestamps@[i as int]);
            }
        }
        if is_older_than(timestamps[i], days, now_ns) {
            count = count + 1;
        }
        proof {
            if count == i + 1 {
                assert forall|k: int| 0 <= k < i + 1 implies older_than(
                    #[trigger] timestamps@.subrange(0, i + 1)[k],
                    days,
                    now_ns,
                ) by {
                    if k < i {
                        assert(timestamps@.subrange(0, i + 1)[k] == timestamps@.subrange(0, i as int)[k]);
                    }
                }
            }
        }
        i = i + 1;
    }
    proof {
        assert(timestamps@.subrange(0, n as int) =~= timestamps@);
    }
    count
}

/// The halt state after scheduling a halt at canister time `now_ns`.
pub open spec fn scheduled_halt(message: Seq<char>, now_ns: u64) -> (HaltStatus, Seq<char>) {
    (HaltStatus::HaltingInProgress { halts_at: (halt_clock(now_ns) + HALT_DELAY) as u64 }, message)
}

/// Schedules a halt: the canister goes on working until `halts_at`, 7 days (in
/// milliseconds) after `now_ns` read in milliseconds; the caller sets the timer
/// that then calls `complete_halt`.
pub fn schedule_halt(halt: &mut Halt, message: String, now_ns: u64)
    ensures
        final(halt).status == scheduled_halt(message@, now_ns).0,
        final(halt).message matches Some(m) && m@ == message@,
{
    let current_time_ms = now_ns / 1_000_000;
    let halts_at = current_time_ms + HALT_DELAY;
    *halt = Halt { status: HaltStatus::HaltingInProgress { halts_at }, message: Some(message) };
}

/// Fully halts the canister at canister time `now_ns`, recorded in milliseconds
/// (the end of the delay set by `schedule_halt`).
pub fn complete_halt(halt: &mut Halt, message: String, now_ns: u64)
    ensures
        final(halt).status == (HaltStatus::Halted { halted_at: (now_ns / 1_000_000) as u64 }),
        final(halt).message matches Some(m) && m@ == message@,
{
    *halt = Halt { status: HaltStatus::Halted { halted_at: now_ns / 1_000_000 }, message: Some(message) };
}

/// Checks whether any strategy had a successful exit in the past 7 days; if none
/// had (or there are no strategies), schedules a halt and returns `true`.
pub fn check_strategy_exits(halt: &mut Halt, strategies: &Vec<StableStrategy>, now_ns: u64) -> (r: bool)
    requires
        all_computable(exit_times(strategies@), EXIT_WINDOW_DAYS, now_ns),
    ensures
        r == all_older(exit_times(strategies@), EXIT_WINDOW_DAYS, now_ns),
        r ==> final(halt).status == scheduled_halt(Seq::empty(), now_ns).0,
        r ==> (final(halt).message matches Some(m) && m@
            == "No strategy has had a successful exit in the past 7 days."@),
        !r ==> *final(halt) == *old(halt),
{
    let mut timestamps: Vec<u64> = Vec::new();
    let n = strategies.len();
    for i in 0..n
        invariant
            n == strategies@.len(),
            timestamps@ == exit_times(strategies@).subrange(0, i as int),
    {
        timestamps.push(seconds_to_millis(strategies[i].data.last_ok_exit));
        proof {
            assert(exit_times(strategies@).subrange(0, i + 1) =~= exit_times(strategies@).subrange(
                0,
                i as int,
            ).push(millis_of(strategies@[i as int].data.last_ok_exit)));
        }
    }
    proof {
        assert(exit_times(strategies@).subrange(0, n as int) =~= exit_times(strategies@));
    }
    let unsuccessful = count_older_than(&timestamps, EXIT_WINDOW_DAYS, now_ns);
    if unsuccessful == n {
        schedule_halt(halt, "No strategy has had a successful exit in the past 7 days.".to_string(), now_ns);
        return true;
    }
    false
}

/// Checks whether any strategy updated a rate in the past 90 days; if none did
/// (or there are no strategies), schedules a halt and returns `true`.
pub fn check_strategy_updates(halt: &mut Halt, strategies: &Vec<StableStrategy>, now_ns: u64) -> (r: bool)
    requires
        all_computable(update_times(strategies@), UPDATE_WINDOW_DAYS, now_ns),
    ensures
        r == all_older(update_times(strategies@), UPDATE_WINDOW_DAYS, now_ns),
        r ==> final(halt).status == scheduled_halt(Seq::empty(), now_ns).0,
        r ==> (final(halt).message matches Some(m) && m@
            == "No strategy has updated a rate in the past 90 days."@),
        !r ==> *final(halt) == *old(halt),
{
    let mut timestamps: Vec<u64> = Vec::new();
    let n = strategies.len();
    for i in 0..n
        invariant
            n == strategies@.len(),
            timestamps@ == update_times(strategies@).subrange(0, i as int),
    {
        timestamps.push(seconds_to_millis(strategies[i].data.last_update));
        proof {
            assert(update_times(strategies@).subrange(0, i + 1) =~= update_times(strategies@).subrange(
                0,
                i as int,
            ).push(millis_of(strategies@[i as int].data.last_update)));
        }
    }
    proof {
        assert(update_times(strategies@).subrange(0, n as int) =~= update_times(strategies@));
    }
    let stale = count_older_than(&timestamps, UPDATE_WINDOW_DAYS, now_ns);
    if stale == n {
        schedule_halt(halt, "No strategy has updated a rate in the past 90 days.".to_string(), now_ns);
        return true;
    }
    false
}

/// The daily halt check: schedules a halt if no strategy had a successful exit
/// in the past 7 days, or else if no strategy updated a rate in the past 90 days.
/// Only runs while the canister is explicitly functional. Strategy timestamps
/// are kept in seconds and are compared in milliseconds. Returns whether a halt
/// was scheduled, with the message of the check that scheduled it.
pub fn update_halt_status(halt: &mut Halt, strategies: &Vec<StableStrategy>, now_ns: u64) -> (r: bool)
    requires
        old(halt).status == HaltStatus::Functional,
        all_computable(exit_times(strategies@), EXIT_WINDOW_DAYS, now_ns),
        !all_older(exit_times(strategies@), EXIT_WINDOW_DAYS, now_ns) ==> all_computable(
            update_times(strategies@),
            UPDATE_WINDOW_DAYS,
            now_ns,
        ),
    ensures
        r == (all_older(exit_times(strategies@), EXIT_WINDOW_DAYS, now_ns) || all_older(
            update_times(strategies@),
            UPDATE_WINDOW_DAYS,
            now_ns,
        )),
        r ==> final(halt).status == scheduled_halt(Seq::empty(), now_ns).0,
        all_older(exit_times(strategies@), EXIT_WINDOW_DAYS, now_ns) ==> (final(halt).message matches Some(m) && m@
            == "No strategy has had a successful exit in the past 7 days."@),
        !all_older(exit_times(strategies@), EXIT_WINDOW_DAYS, now_ns) && all_older(
            update_times(strategies@),
            UPDATE_WINDOW_DAYS,
            now_ns,
        ) ==> (final(halt).message matches Some(m) && m@ == "No strategy has updated a rate in the past 90 days."@),
        !r ==> *final(halt) == *old(halt),
{
    check_strategy_exits(halt, strategies, now_ns) || check_strategy_updates(halt, strategies, now_ns)
}

/// A scheduled halt leaves the canister functional until the halt completes, and
/// the daily check does not run again meanwhile.
pub proof fn lemma_scheduled_halt_still_functional(message: Seq<char>, now_ns: u64)
    ensures
        !(scheduled_halt(message, now_ns).0 is Halted),
        scheduled_halt(message, now_ns).0 != HaltStatus::Functional,
{
}

/// With no strategies at all, the daily check always schedules a halt.
pub proof fn lemma_no_strategies_halts(now_ns: u64)
    ensures
        all_older(exit_times(Seq::<StableStrategy>::empty()), EXIT_WINDOW_DAYS, now_ns),
{
}

/// A strategy that exited successfully within the past 7 days keeps the exit
/// check from scheduling a halt.
pub proof fn lemma_recent_exit_prevents_halt(strategies: Seq<StableStrategy>, i: int, now_ns: u64)
    requires
        0 <= i < strategies.len(),
        !older_than(millis_of(strategies[i].data.last_ok_exit), EXIT_WINDOW_DAYS, now_ns),
    ensures
        !all_older(exit_times(strategies), EXIT_WINDOW_DAYS, now_ns),
{
    assert(exit_times(strategies)[i] == millis_of(strategies[i].data.last_ok_exit));
}

/// A strategy that updated a rate within the past 90 days keeps the update check
/// from scheduling a halt.
pub proof fn lemma_recent_update_prevents_halt(strategies: Seq<StableStrategy>, i: int, now_ns: u64)
    requires
        0 <= i < strategies.len(),
        !older_than(millis_of(strategies[i].data.last_update), UPDATE_WINDOW_DAYS, now_ns),
    ensures
        !all_older(update_times(strategies), UPDATE_WINDOW_DAYS, now_ns),
{
    assert(update_times(strategies)[i] == millis_of(strategies[i].data.last_update));
}

/// Once the clock has run for 90 days, every strategy's timestamps can be aged
/// against both windows, so the daily check can always run.
pub proof fn lemma_daily_check_runs(strategies: Seq<StableStrategy>, now_ns: u64)
    requires
        halt_clock(now_ns) >= UPDATE_WINDOW_DAYS * DAY_MS,
    ensures
        all_computable(exit_times(strategies), EXIT_WINDOW_DAYS, now_ns),
        all_computable(update_times(strategies), UPDATE_WINDOW_DAYS, now_ns),
{
}

} // verus!
