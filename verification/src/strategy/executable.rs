//! Runtime strategy execution: locking, the rate adjustment rules and the
//! bookkeeping of rate adjustment transactions.
//!
//! Execution phases: lock acquisition, state collection, rate calculation,
//! condition validation, transaction submission, state persistence. The
//! collection of state and the submission of transactions talk to Ethereum and
//! are driven from outside; every decision between them is made here.

use vstd::prelude::*;

use crate::address::Address;
use crate::constants::{scale, tolerance_margin_down, tolerance_margin_up, MAX_RETRY_ATTEMPTS, SCALE};
use crate::evm_rpc::{BlockTag, SendRawTransactionStatus};
use crate::error::{arithmetic_err, debug_text, plain_debug_char, quoted, ManagerError, ManagerResult};
use crate::journal::{entry_appended, lemma_notes_chain, lemma_notes_none, notes_appended, JournalCollection, LogType};
use crate::types::DebtPerInterestRate;
use crate::uint::{
    base1, base2, checked_add, checked_div, checked_mul, checked_sub, decimal_text, div, modulus, saturate,
    saturating_add, saturating_mul, sqrt_floor, to_decimal_string, wrapping_add, wrapping_mul, wrapping_sub, U256,
};

use super::data::StrategyData;
use super::lock::{lock_readable, try_lock_spec, try_unlock_spec, Lock, StableLock};
use super::settings::{same_settings, StrategySettings};
use super::stable::{same_strategy, store_updated, StableStrategy, StrategyStore};

verus! {

broadcast use vstd::std_specs::hash::group_hash_axioms;

/// A strategy taken out of the store for one execution.
#[derive(Debug)]
pub struct ExecutableStrategy {
    /// Core configuration that remains constant during execution
    pub settings: StrategySettings,
    /// Mutable state that changes during execution
    pub data: StrategyData,
    /// Atomic execution lock
    pub lock: Lock,
    /// Whether this instance acquired the lock (for a clean release)
    pub acquired_lock: bool,
}

/// The stored form of an executable strategy.
pub open spec fn stable_form(e: ExecutableStrategy) -> StableStrategy {
    StableStrategy {
        settings: e.settings,
        data: e.data,
        lock: StableLock { is_locked: e.lock.is_locked, last_locked_at: e.lock.last_locked_at },
    }
}

impl ExecutableStrategy {
    /// Whether this instance acquired its lock.
    pub open spec fn holds_lock(&self) -> bool {
        self.acquired_lock
    }

    /// Creates a new executable strategy instance.
    pub fn new(settings: StrategySettings, data: StrategyData, lock: Lock) -> (r: ExecutableStrategy)
        ensures
            r.settings == settings,
            r.data == data,
            r.lock == lock,
            !r.holds_lock(),
    {
        ExecutableStrategy { settings, data, lock, acquired_lock: false }
    }

    /// Writes the strategy back to the store under its key.
    pub fn apply_change(&self, store: &mut StrategyStore)
        ensures
            store_updated(old(store)@, final(store)@, self.settings.key, stable_form(*self)),
    {
        let stable = StableStrategy::from(self);
        store.insert(self.settings.key, stable);
    }

    /// Acquires the execution lock at canister time `now_ns` and records it in the
    /// store; fails with `ManagerError::Locked`, changing nothing, if the lock is
    /// held and has not timed out.
    pub fn lock(&mut self, store: &mut StrategyStore, now_ns: u64) -> (r: ManagerResult<()>)
        requires
            lock_readable(old(self).lock, now_ns),
        ensures
            final(self).settings == old(self).settings,
            final(self).data == old(self).data,
            final(self).lock == try_lock_spec(old(self).lock, now_ns).0,
            r is Ok == try_lock_spec(old(self).lock, now_ns).1,
            r is Ok ==> final(self).holds_lock() && store_updated(
                old(store)@,
                final(store)@,
                old(self).settings.key,
                stable_form(*final(self)),
            ),
            r is Err ==> {
                &&& r matches Err(e) && e is Locked
                &&& final(self).holds_lock() == old(self).holds_lock()
                &&& final(store)@ == old(store)@
            },
    {
        match self.lock.try_lock(now_ns) {
            Ok(()) => {
                self.acquired_lock = true;
                self.apply_change(store);
                Ok(())
            },
            Err(e) => Err(e),
        }
    }

    /// Releases the execution lock (if this instance acquired it, or if it timed
    /// out) and writes the strategy back to the store.
    pub fn unlock(&mut self, store: &mut StrategyStore, now_ns: u64)
        requires
            lock_readable(old(self).lock, now_ns),
        ensures
            final(self).settings == old(self).settings,
            final(self).data == old(self).data,
            final(self).holds_lock() == old(self).holds_lock(),
            final(self).lock == try_unlock_spec(old(self).lock, old(self).holds_lock(), now_ns),
            store_updated(old(store)@, final(store)@, old(self).settings.key, stable_form(*final(self))),
    {
        self.lock.try_unlock(self.acquired_lock, now_ns);
        self.apply_change(store);
    }
}

/// Conversion from the stored strategy (the lock not yet acquired).
impl From<&StableStrategy> for ExecutableStrategy {
    fn from(value: &StableStrategy) -> (r: ExecutableStrategy)
        ensures
            same_settings(r.settings, value.settings),
            r.data == value.data,
            r.lock == (Lock { is_locked: value.lock.is_locked, last_locked_at: value.lock.last_locked_at }),
            !r.holds_lock(),
    {
        ExecutableStrategy::new(value.settings.clone(), value.data, Lock::from(value.lock))
    }
}

/// The conversion copies the settings, so it is stated by `same_settings` in the
/// contract of `from`, not as an equality here.
impl vstd::std_specs::convert::FromSpecImpl<&StableStrategy> for ExecutableStrategy {
    open spec fn obeys_from_spec() -> bool {
        false
    }

    open spec fn from_spec(v: &StableStrategy) -> ExecutableStrategy {
        ExecutableStrategy {
            settings: v.settings,
            data: v.data,
            lock: Lock { is_locked: v.lock.is_locked, last_locked_at: v.lock.last_locked_at },
            acquired_lock: false,
        }
    }
}

/// Conversion to the stored form.
impl From<&ExecutableStrategy> for StableStrategy {
    fn from(value: &ExecutableStrategy) -> (r: StableStrategy)
        ensures
            same_strategy(r, stable_form(*value)),
    {
        StableStrategy {
            settings: value.settings.clone(),
            data: value.data,
            lock: StableLock::from(value.lock),
        }
    }
}

/// The conversion copies the settings, so it is stated by `same_strategy` in the
/// contract of `from`, not as an equality here.
impl vstd::std_specs::convert::FromSpecImpl<&ExecutableStrategy> for StableStrategy {
    open spec fn obeys_from_spec() -> bool {
        false
    }

    open spec fn from_spec(v: &ExecutableStrategy) -> StableStrategy {
        stable_form(*v)
    }
}

/// `x` reduced modulo 2^256, as the wrapping operators give it.
pub open spec fn wrap(x: nat) -> nat {
    (x as int % modulus()) as nat
}

/// The debt that should stand in front of the batch:
/// `target_percentage * maximum_redeemable / SCALE` (the product wrapping).
pub open spec fn target_debt(target_percentage: nat, maximum_redeemable: nat) -> nat {
    wrap(target_percentage * maximum_redeemable) / (SCALE as nat)
}

/// Below this debt in front, the rate is increased: the target debt less the
/// downward tolerance margin of 15%.
pub open spec fn increase_threshold(target_percentage: nat, maximum_redeemable: nat) -> nat {
    wrap(target_debt(target_percentage, maximum_redeemable) * 850_000_000_000_000_000) / (SCALE as nat)
}

/// Above this debt in front, a decrease is considered: the target debt plus the
/// upward tolerance margin of 15%.
pub open spec fn decrease_threshold(target_percentage: nat, maximum_redeemable: nat) -> nat {
    wrap(target_debt(target_percentage, maximum_redeemable) * 1_150_000_000_000_000_000) / (SCALE as nat)
}

/// One basis point (0.01%) of an annual rate scaled by 10^18.
pub open spec fn one_bps() -> nat {
    100_000_000_000_000
}

/// Walk over the troves in ascending rate order, skipping the strategy's own
/// batch, adding up their debts (starting from `counted`) until the sum exceeds
/// `target`.
pub enum TroveScan {
    /// The running sum overflowed 2^256
    Overflow,
    /// The sum first exceeded the target at a trove with this rate and debt
    Exceeded(nat, nat),
    /// The sum never exceeded the target
    NotExceeded,
}

/// The outcome of the walk described at `TroveScan`.
pub open spec fn scan_troves(
    troves: Seq<DebtPerInterestRate>,
    batch: Address,
    target: nat,
    counted: nat,
) -> TroveScan
    decreases troves.len(),
{
    if troves.len() == 0 {
        TroveScan::NotExceeded
    } else {
        let t = troves[0];
        if t.interest_batch_manager == batch {
            scan_troves(troves.drop_first(), batch, target, counted)
        } else if counted + t.debt@ >= modulus() {
            TroveScan::Overflow
        } else if counted + t.debt@ > target {
            TroveScan::Exceeded(t.interest_rate@, t.debt@)
        } else {
            scan_troves(troves.drop_first(), batch, target, counted + t.debt@)
        }
    }
}

/// The rate that `calculate_new_rate` proposes when it succeeds: one basis point
/// above the first trove at which the debt of the other troves in front exceeds
/// the target; if that never happens, one basis point above the last trove,
/// unless the last trove is the strategy's batch itself (then zero).
pub open spec fn proposed_rate(
    troves: Seq<DebtPerInterestRate>,
    batch: Address,
    target_percentage: nat,
    maximum_redeemable: nat,
) -> nat {
    match scan_troves(troves, batch, target_debt(target_percentage, maximum_redeemable), 0) {
        TroveScan::Exceeded(rate, _) => saturate(rate + one_bps()),
        _ => if troves.last().interest_batch_manager != batch {
            saturate(troves.last().interest_rate@ + one_bps())
        } else {
            0
        },
    }
}

/// Saturating sum of the debts of the first `n` troves.
pub open spec fn debt_before(troves: Seq<DebtPerInterestRate>, n: int) -> nat
    decreases n,
{
    if n <= 0 {
        0
    } else {
        saturate(debt_before(troves, n - 1) + troves[n - 1].debt@)
    }
}

/// `i` is the position of the first trove of the batch `batch`.
pub open spec fn first_of_batch(troves: Seq<DebtPerInterestRate>, batch: Address, i: int) -> bool {
    &&& 0 <= i < troves.len()
    &&& troves[i].interest_batch_manager == batch
    &&& forall|j: int| 0 <= j < i ==> troves[j].interest_batch_manager != batch
}

/// Outcome of the second decrease check: `None` where an arithmetic step fails.
///
/// The decrease goes ahead when the time since the last update exceeds the
/// upfront fee period, or when `(1 - r) * (latest_rate - new_rate)` exceeds the
/// average rate, with `r` the elapsed fraction of the period in hundredths.
pub open spec fn second_decrease_outcome(
    time_since_last_update: nat,
    upfront_fee_period: nat,
    latest_rate: nat,
    new_rate: nat,
    average_rate: nat,
) -> Option<bool> {
    if time_since_last_update > upfront_fee_period {
        Some(true)
    } else if time_since_last_update * 100 >= modulus() || upfront_fee_period == 0 {
        None
    } else {
        let r = time_since_last_update * 100 / upfront_fee_period;
        if r > 100 || new_rate > latest_rate {
            None
        } else if (100 - r) * (latest_rate - new_rate) >= modulus() || average_rate * 100 >= modulus() {
            None
        } else {
            Some((100 - r) * (latest_rate - new_rate) > average_rate * 100)
        }
    }
}

/// The note of the increase check.
pub open spec fn increase_note(debt_in_front: nat, threshold: nat) -> Seq<char> {
    "increase check: "@ + decimal_text(debt_in_front) + " < "@ + decimal_text(threshold)
}

/// The note of the first decrease check.
pub open spec fn first_decrease_note(debt_in_front: nat, threshold: nat) -> Seq<char> {
    "first decrease check: "@ + decimal_text(debt_in_front) + " > "@ + decimal_text(threshold)
}

/// The note of the second decrease check once its time ratio `r` is known.
pub open spec fn second_decrease_detail(
    time_since_last_update: nat,
    upfront_fee_period: nat,
    latest_rate: nat,
    new_rate: nat,
    average_rate: nat,
    r: nat,
) -> Seq<char> {
    "second decrease check: time since last update "@ + decimal_text(time_since_last_update)
        + " upfront fee period "@ + decimal_text(upfront_fee_period) + " latest rate "@ + decimal_text(latest_rate)
        + " new rate "@ + decimal_text(new_rate) + " average rate "@ + decimal_text(average_rate) + " scaled r "@
        + decimal_text(r)
}

/// The notes the second decrease check writes: that it passed on time; or,
/// once the time ratio is computed, its figures, and that it passed on the rate
/// condition when it did.
pub open spec fn second_decrease_notes(
    time_since_last_update: nat,
    upfront_fee_period: nat,
    latest_rate: nat,
    new_rate: nat,
    average_rate: nat,
) -> Seq<Seq<char>> {
    if time_since_last_update > upfront_fee_period {
        seq!["second decrease check passed: time exceeded period"@]
    } else if time_since_last_update * 100 >= modulus() || upfront_fee_period == 0 {
        Seq::empty()
    } else {
        let r = (time_since_last_update * 100 / upfront_fee_period) as nat;
        seq![
            second_decrease_detail(
                time_since_last_update,
                upfront_fee_period,
                latest_rate,
                new_rate,
                average_rate,
                r,
            ),
        ] + if second_decrease_outcome(
            time_since_last_update,
            upfront_fee_period,
            latest_rate,
            new_rate,
            average_rate,
        ) == Some(true) {
            seq!["second decrease check passed: rate condition"@]
        } else {
            Seq::empty()
        }
    }
}

/// The note of the target debt of the rate calculation.
pub open spec fn target_note(target: nat, troves_count: nat) -> Seq<char> {
    "Calculated target debt in front: "@ + decimal_text(target)
        + ", number of troves in this collateral market (including the batch): "@ + decimal_text(troves_count)
}

/// The note of the trove the batch is placed after.
pub open spec fn position_note(debt: nat) -> Seq<char> {
    "Positioning the batch after trove with debt "@ + decimal_text(debt)
}

/// The notes the rate calculation writes: the target debt, then where the batch
/// goes, where it goes after a trove or to the end of the market.
pub open spec fn rate_notes(
    troves: Seq<DebtPerInterestRate>,
    batch: Address,
    target_percentage: nat,
    maximum_redeemable: nat,
) -> Seq<Seq<char>> {
    let target = target_debt(target_percentage, maximum_redeemable);
    let first = seq![target_note(target, troves.len())];
    if target == 0 {
        first
    } else {
        match scan_troves(troves, batch, target, 0) {
            TroveScan::Overflow => first,
            TroveScan::Exceeded(_, debt) => first + seq![position_note(debt)],
            TroveScan::NotExceeded => if troves.last().interest_batch_manager != batch {
                first + seq!["Not enough debt in the market, moving the batch to the end."@]
            } else {
                first
            },
        }
    }
}

/// The notes of the rate checks for a candidate: the increase check; where it
/// fails, the first decrease check; where that passes, the second one.
pub open spec fn decision_notes(
    debt_in_front: nat,
    target_percentage: nat,
    maximum_redeemable: nat,
    time_since_last_update: nat,
    upfront_fee_period: nat,
    latest_rate: nat,
    new_rate: nat,
    upfront_fee: nat,
) -> Seq<Seq<char>> {
    let inc = increase_threshold(target_percentage, maximum_redeemable);
    let dec = decrease_threshold(target_percentage, maximum_redeemable);
    seq![increase_note(debt_in_front, inc)] + if debt_in_front < inc {
        Seq::empty()
    } else {
        seq![first_decrease_note(debt_in_front, dec)] + if debt_in_front > dec {
            second_decrease_notes(time_since_last_update, upfront_fee_period, latest_rate, new_rate, upfront_fee)
        } else {
            Seq::empty()
        }
    }
}

/// The start of the note of an accepted rate adjustment.
pub open spec fn accepted_note_prefix() -> Seq<char> {
    "The rate adjustment transaction was successful. Transaction hash: "@
}

/// The transaction hash holds only characters that `Debug` writes as they are.
pub open spec fn hash_is_plain(hash: Option<String>) -> bool {
    hash matches Some(h) ==> forall|i: int| 0 <= i < h@.len() ==> plain_debug_char(#[trigger] h@[i])
}

/// The `Debug` text of a transaction hash made of plain characters.
pub open spec fn hash_text(hash: Option<String>) -> Seq<char> {
    match hash {
        None => "None"@,
        Some(h) => "Some("@ + quoted(h@) + ")"@,
    }
}

/// The debt of the first `n` troves that are not the strategy's own batch,
/// whatever batch manager (or none) they have.
pub open spec fn debt_of_others(troves: Seq<DebtPerInterestRate>, batch: Address, n: int) -> nat
    decreases n,
{
    if n <= 0 {
        0
    } else {
        debt_of_others(troves, batch, n - 1) + if troves[n - 1].interest_batch_manager != batch {
            troves[n - 1].debt@
        } else {
            0nat
        }
    }
}

/// Splitting off the first trove of the count.
proof fn lemma_debt_of_others_first(troves: Seq<DebtPerInterestRate>, batch: Address, n: int)
    requires
        0 <= n < troves.len(),
    ensures
        debt_of_others(troves, batch, n + 1) == (if troves[0].interest_batch_manager != batch {
            troves[0].debt@
        } else {
            0nat
        }) + debt_of_others(troves.drop_first(), batch, n),
    decreases n,
{
    let rest = troves.drop_first();
    if n > 0 {
        lemma_debt_of_others_first(troves, batch, n - 1);
        assert(rest[n - 1] == troves[n]);
        assert(debt_of_others(troves, batch, n + 1) == debt_of_others(troves, batch, n) + (if troves[n].interest_batch_manager
            != batch {
            troves[n].debt@
        } else {
            0nat
        }));
        assert(debt_of_others(rest, batch, n) == debt_of_others(rest, batch, n - 1) + (if rest[n - 1].interest_batch_manager
            != batch {
            rest[n - 1].debt@
        } else {
            0nat
        }));
    } else {
        assert(debt_of_others(troves, batch, 0) == 0);
        assert(debt_of_others(rest, batch, 0) == 0);
        assert(debt_of_others(troves, batch, 1) == debt_of_others(troves, batch, 0) + (if troves[0].interest_batch_manager
            != batch {
            troves[0].debt@
        } else {
            0nat
        }));
    }
}

/// `debt_of_others` never decreases with `n`.
proof fn lemma_debt_of_others_mono(troves: Seq<DebtPerInterestRate>, batch: Address, m: int, n: int)
    requires
        0 <= m <= n,
    ensures
        debt_of_others(troves, batch, m) <= debt_of_others(troves, batch, n),
    decreases n - m,
{
    if m < n {
        lemma_debt_of_others_mono(troves, batch, m, n - 1);
    }
}

/// The walk from `counted` stops at trove `i` when the debts counted from
/// `counted` pass the target there for the first time.
proof fn lemma_scan_stops_at(
    troves: Seq<DebtPerInterestRate>,
    batch: Address,
    target: nat,
    counted: nat,
    i: int,
)
    requires
        0 <= i < troves.len(),
        troves[i].interest_batch_manager != batch,
        counted + debt_of_others(troves, batch, i) <= target,
        counted + debt_of_others(troves, batch, i + 1) > target,
        counted + debt_of_others(troves, batch, i + 1) < modulus(),
    ensures
        scan_troves(troves, batch, target, counted) == TroveScan::Exceeded(troves[i].interest_rate@, troves[i].debt@),
    decreases i,
{
    let t = troves[0];
    if i == 0 {
        assert(debt_of_others(troves, batch, 1) == t.debt@);
    } else {
        lemma_debt_of_others_first(troves, batch, i);
        lemma_debt_of_others_first(troves, batch, i - 1);
        let rest = troves.drop_first();
        assert(rest[i - 1] == troves[i]);
        lemma_debt_of_others_mono(rest, batch, i - 1, i);
        if t.interest_batch_manager == batch {
            lemma_scan_stops_at(rest, batch, target, counted, i - 1);
        } else {
            lemma_scan_stops_at(rest, batch, target, counted + t.debt@, i - 1);
        }
    }
}

/// The new rate is one basis point above the rate of the first trove at which the
/// debt in front of it passes the target, counting the debt of every trove that
/// is not the strategy's own batch, also the troves of other batch managers.
pub proof fn lemma_new_rate_passes_the_target(
    troves: Seq<DebtPerInterestRate>,
    batch: Address,
    target_percentage: nat,
    maximum_redeemable: nat,
    i: int,
)
    requires
        0 <= i < troves.len(),
        troves[i].interest_batch_manager != batch,
        target_debt(target_percentage, maximum_redeemable) > 0,
        debt_of_others(troves, batch, i) <= target_debt(target_percentage, maximum_redeemable),
        debt_of_others(troves, batch, i + 1) > target_debt(target_percentage, maximum_redeemable),
        debt_of_others(troves, batch, i + 1) < modulus(),
    ensures
        proposed_rate(troves, batch, target_percentage, maximum_redeemable) == saturate(
            troves[i].interest_rate@ + one_bps(),
        ),
        rate_notes(troves, batch, target_percentage, maximum_redeemable) == seq![
            target_note(target_debt(target_percentage, maximum_redeemable), troves.len()),
            position_note(troves[i].debt@),
        ],
{
    lemma_scan_stops_at(troves, batch, target_debt(target_percentage, maximum_redeemable), 0, i);
}

/// Computes `target_percentage * maximum_redeemable / SCALE`, the product
/// wrapping modulo 2^256 as `U256` multiplication does.
fn compute_target_debt(target_percentage: U256, maximum_redeemable: U256) -> (r: U256)
    ensures
        r@ == target_debt(target_percentage@, maximum_redeemable@),
{
    div(wrapping_mul(target_percentage, maximum_redeemable), scale())
}

impl ExecutableStrategy {
    /// Calculates the debt in front of the strategy's batch: the saturating sum of
    /// the debts of the troves before the first trove of the batch. Records that
    /// trove's rate as the latest rate. `None`, with nothing changed, if no trove
    /// belongs to the batch.
    pub fn get_current_debt_in_front(&mut self, troves: &Vec<DebtPerInterestRate>) -> (r: Option<U256>)
        ensures
            final(self).settings == old(self).settings,
            final(self).lock == old(self).lock,
            final(self).acquired_lock == old(self).acquired_lock,
            r is None <==> forall|j: int|
                0 <= j < troves@.len() ==> troves@[j].interest_batch_manager != old(self).settings.batch_manager,
            r is None ==> final(self).data == old(self).data,
            r matches Some(d) ==> exists|i: int|
                {
                    &&& first_of_batch(troves@, old(self).settings.batch_manager, i)
                    &&& d@ == debt_before(troves@, i)
                    &&& final(self).data == (StrategyData { latest_rate: troves@[i].interest_rate, ..old(self).data })
                },
    {
        let mut counted_debt = U256::zero();
        let n = troves.len();
        let mut i: usize = 0;
        while i < n
            invariant
                n == troves@.len(),
                0 <= i <= n,
                *self == *old(self),
                counted_debt@ == debt_before(troves@, i as int),
                forall|j: int| 0 <= j < i ==> troves@[j].interest_batch_manager != self.settings.batch_manager,
            decreases n - i,
        {
            let trove = &troves[i];
            if trove.interest_batch_manager == self.settings.batch_manager {
                self.data.latest_rate(trove.interest_rate);
                assert(first_of_batch(troves@, old(self).settings.batch_manager, i as int));
                return Some(counted_debt);
            }
            counted_debt = saturating_add(counted_debt, trove.debt);
            i = i + 1;
        }
        None
    }

    /// Calculates the new interest rate: see `proposed_rate`.
    ///
    /// Errors: `Custom` when the target debt is zero; `Arithmetic` when the running
    /// sum of debts overflows.
    pub fn calculate_new_rate(
        &self,
        journal: &mut JournalCollection,
        troves: &Vec<DebtPerInterestRate>,
        target_percentage: U256,
        maximum_redeemable_against_collateral: U256,
        now_ns: u64,
    ) -> (r: ManagerResult<U256>)
        requires
            troves@.len() > 0 || target_debt(target_percentage@, maximum_redeemable_against_collateral@) == 0,
        ensures
            notes_appended(
                *old(journal),
                *final(journal),
                rate_notes(
                    troves@,
                    self.settings.batch_manager,
                    target_percentage@,
                    maximum_redeemable_against_collateral@,
                ),
                now_ns,
            ),
            ({
                let target = target_debt(target_percentage@, maximum_redeemable_against_collateral@);
                let scan = scan_troves(troves@, self.settings.batch_manager, target, 0);
                match r {
                    Ok(rate) => target != 0 && !(scan is Overflow) && rate@ == proposed_rate(
                        troves@,
                        self.settings.batch_manager,
                        target_percentage@,
                        maximum_redeemable_against_collateral@,
                    ),
                    Err(ManagerError::Custom(m)) => target == 0 && m@
                        == "The target amount is zero. Not proceeding."@,
                    Err(ManagerError::Arithmetic(_)) => target != 0 && scan is Overflow,
                    Err(_) => false,
                }
            }),
    {
        let batch = self.settings.batch_manager;
        let target = compute_target_debt(target_percentage, maximum_redeemable_against_collateral);
        let n = troves.len();
        let target_text = "Calculated target debt in front: ".to_owned().concat(to_decimal_string(target).as_str()).concat(
            ", number of troves in this collateral market (including the batch): ",
        ).concat(to_decimal_string(U256::from_u64(n as u64)).as_str());
        journal.append_info(target_text.as_str(), now_ns);
        let ghost after_target = *journal;
        let ghost first = seq![target_note(target@, troves@.len())];
        if target.is_zero() {
            return Err(ManagerError::Custom("The target amount is zero. Not proceeding.".to_string()));
        }
        let ghost t = target@;
        let mut counted_debt = U256::zero();
        let mut new_rate = U256::zero();
        let mut i: usize = 0;
        proof {
            assert(troves@.subrange(0, n as int) =~= troves@);
        }
        while i < n
            invariant_except_break
                n == troves@.len(),
                0 <= i <= n,
                t == target@,
                t == target_debt(target_percentage@, maximum_redeemable_against_collateral@),
                t != 0,
                batch == self.settings.batch_manager,
                new_rate@ == 0,
                *journal == after_target,
                notes_appended(*old(journal), after_target, first, now_ns),
                first == seq![target_note(t, troves@.len())],
                scan_troves(troves@, batch, t, 0) == scan_troves(
                    troves@.subrange(i as int, n as int),
                    batch,
                    t,
                    counted_debt@,
                ),
            ensures
                ({
                    let scan = scan_troves(troves@, batch, t, 0);
                    &&& scan is Overflow ==> false
                    &&& scan matches TroveScan::Exceeded(rate, _) ==> new_rate@ == saturate(rate + one_bps())
                    &&& scan matches TroveScan::Exceeded(_, debt) ==> notes_appended(
                        after_target,
                        *journal,
                        seq![position_note(debt)],
                        now_ns,
                    )
                    &&& !(scan is Exceeded) ==> new_rate@ == 0 && *journal == after_target
                }),
            decreases n - i,
        {
            let trove = &troves[i];
            proof {
                let rest = troves@.subrange(i as int, n as int);
                assert(rest[0] == troves@[i as int]);
                assert(rest.drop_first() =~= troves@.subrange(i + 1, n as int));
            }
            if trove.interest_batch_manager != batch {
                match checked_add(counted_debt, trove.debt) {
                    Some(c) => {
                        counted_debt = c;
                    },
                    None => {
                        proof {
                            let rest = troves@.subrange(i as int, n as int);
                            assert(scan_troves(rest, batch, t, counted_debt@) is Overflow);
                            lemma_notes_none(after_target, now_ns);
                            lemma_notes_chain(*old(journal), after_target, *journal, first, Seq::empty(), now_ns);
                            assert(first + Seq::<Seq<char>>::empty() =~= first);
                        }
                        return Err(arithmetic_err("Counted debt overflowed."));
                    },
                }
                if counted_debt.gt(&target) {
                    new_rate = saturating_add(trove.interest_rate, U256::from_u128(100_000_000_000_000));
                    let note = "Positioning the batch after trove with debt ".to_owned().concat(
                        to_decimal_string(trove.debt).as_str(),
                    );
                    journal.append_info(note.as_str(), now_ns);
                    break;
                }
            }
            i = i + 1;
        }
        proof {
            if i == n {
                assert(troves@.subrange(n as int, n as int).len() == 0);
            }
        }
        if new_rate.is_zero() && troves[n - 1].interest_batch_manager != batch {
            new_rate = saturating_add(troves[n - 1].interest_rate, U256::from_u128(100_000_000_000_000));
            journal.append_info("Not enough debt in the market, moving the batch to the end.", now_ns);
        } else {
            proof {
                lemma_notes_none(*journal, now_ns);
            }
        }
        proof {
            let scan = scan_troves(troves@, batch, t, 0);
            match scan {
                TroveScan::Exceeded(_, debt) => {
                    assert(new_rate@ != 0);
                    lemma_notes_chain(*old(journal), after_target, *journal, first, seq![position_note(debt)], now_ns);
                },
                _ => {
                    lemma_notes_chain(*old(journal), after_target, *journal, first, if troves@.last().interest_batch_manager != batch {
                        seq!["Not enough debt in the market, moving the batch to the end."@]
                    } else {
                        Seq::empty()
                    }, now_ns);
                    assert(first + Seq::<Seq<char>>::empty() =~= first);
                },
            }
        }
        Ok(new_rate)
    }

    /// Rate increase condition: the debt in front is below the target debt less
    /// the downward tolerance margin. Notes both figures in the journal.
    pub fn increase_check(
        &self,
        journal: &mut JournalCollection,
        debt_in_front: U256,
        maximum_redeemable_against_collateral: U256,
        target_percentage: U256,
        now_ns: u64,
    ) -> (r: bool)
        ensures
            r == (debt_in_front@ < increase_threshold(target_percentage@, maximum_redeemable_against_collateral@)),
            notes_appended(
                *old(journal),
                *final(journal),
                seq![
                    increase_note(
                        debt_in_front@,
                        increase_threshold(target_percentage@, maximum_redeemable_against_collateral@),
                    ),
                ],
                now_ns,
            ),
    {
        let target = compute_target_debt(target_percentage, maximum_redeemable_against_collateral);
        let margin = wrapping_sub(scale(), tolerance_margin_down());
        proof {
            vstd::arithmetic::div_mod::lemma_small_mod(850_000_000_000_000_000nat, modulus() as nat);
        }
        let threshold = div(wrapping_mul(target, margin), scale());
        let note = "increase check: ".to_owned().concat(to_decimal_string(debt_in_front).as_str()).concat(" < ").concat(
            to_decimal_string(threshold).as_str(),
        );
        journal.append_info(note.as_str(), now_ns);
        debt_in_front.lt(&threshold)
    }

    /// First decrease condition: the debt in front is above the target debt plus
    /// the upward tolerance margin. Notes both figures in the journal.
    pub fn first_decrease_check(
        &self,
        journal: &mut JournalCollection,
        debt_in_front: U256,
        maximum_redeemable_against_collateral: U256,
        target_percentage: U256,
        now_ns: u64,
    ) -> (r: bool)
        ensures
            r == (debt_in_front@ > decrease_threshold(target_percentage@, maximum_redeemable_against_collateral@)),
            notes_appended(
                *old(journal),
                *final(journal),
                seq![
                    first_decrease_note(
                        debt_in_front@,
                        decrease_threshold(target_percentage@, maximum_redeemable_against_collateral@),
                    ),
                ],
                now_ns,
            ),
    {
        let target = compute_target_debt(target_percentage, maximum_redeemable_against_collateral);
        let margin = wrapping_add(scale(), tolerance_margin_up());
        proof {
            vstd::arithmetic::div_mod::lemma_small_mod(1_150_000_000_000_000_000nat, modulus() as nat);
        }
        let threshold = div(wrapping_mul(target, margin), scale());
        let note = "first decrease check: ".to_owned().concat(to_decimal_string(debt_in_front).as_str()).concat(
            " > ",
        ).concat(to_decimal_string(threshold).as_str());
        journal.append_info(note.as_str(), now_ns);
        debt_in_front.gt(&threshold)
    }

    /// Second decrease condition: see `second_decrease_outcome`; an arithmetic
    /// failure is an `Arithmetic` error. Notes its steps in the journal (see
    /// `second_decrease_notes`).
    pub fn second_decrease_check(
        &self,
        journal: &mut JournalCollection,
        time_since_last_update: U256,
        upfront_fee_period: U256,
        new_rate: U256,
        average_rate: U256,
        now_ns: u64,
    ) -> (r: ManagerResult<bool>)
        ensures
            notes_appended(
                *old(journal),
                *final(journal),
                second_decrease_notes(
                    time_since_last_update@,
                    upfront_fee_period@,
                    self.data.latest_rate@,
                    new_rate@,
                    average_rate@,
                ),
                now_ns,
            ),
            match second_decrease_outcome(
                time_since_last_update@,
                upfront_fee_period@,
                self.data.latest_rate@,
                new_rate@,
                average_rate@,
            ) {
                Some(b) => r == Ok::<bool, ManagerError>(b),
                None => r matches Err(ManagerError::Arithmetic(_)),
            },
    {
        proof {
            lemma_notes_none(*journal, now_ns);
        }
        if time_since_last_update.gt(&upfront_fee_period) {
            journal.append_info("second decrease check passed: time exceeded period", now_ns);
            return Ok(true);
        }
        let scale_hundred = U256::from_u64(100);
        let scaled_time = match checked_mul(time_since_last_update, scale_hundred) {
            Some(v) => v,
            None => return Err(arithmetic_err("Overflow in time scaling")),
        };
        let r = match checked_div(scaled_time, upfront_fee_period) {
            Some(v) => v,
            None => return Err(arithmetic_err("Upfront fee period was 0.")),
        };
        let note = "second decrease check: time since last update ".to_owned().concat(
            to_decimal_string(time_since_last_update).as_str(),
        ).concat(" upfront fee period ").concat(to_decimal_string(upfront_fee_period).as_str()).concat(
            " latest rate ",
        ).concat(to_decimal_string(self.data.latest_rate).as_str()).concat(" new rate ").concat(
            to_decimal_string(new_rate).as_str(),
        ).concat(" average rate ").concat(to_decimal_string(average_rate).as_str()).concat(" scaled r ").concat(
            to_decimal_string(r).as_str(),
        );
        journal.append_info(note.as_str(), now_ns);
        let scaled_diff = match checked_sub(scale_hundred, r) {
            Some(v) => v,
            None => return Err(arithmetic_err("Error in r subtraction")),
        };
        let rate_diff = match checked_sub(self.data.latest_rate, new_rate) {
            Some(v) => v,
            None => return Err(arithmetic_err("Error in rate difference calculation")),
        };
        let scaled_product = match checked_mul(scaled_diff, rate_diff) {
            Some(v) => v,
            None => return Err(arithmetic_err("Overflow in scaled product")),
        };
        let scaled_average = match checked_mul(average_rate, scale_hundred) {
            Some(v) => v,
            None => return Err(arithmetic_err("Error in scaling average rate")),
        };
        if scaled_product.gt(&scaled_average) {
            let ghost before = *journal;
            journal.append_info("second decrease check passed: rate condition", now_ns);
            proof {
                lemma_notes_chain(*old(journal), before, *journal, seq![note@], seq![
                    "second decrease check passed: rate condition"@,
                ], now_ns);
            }
            return Ok(true);
        }
        Ok(false)
    }
}

/// State collected before the rate calculation.
#[derive(Clone, Debug)]
pub struct ExecutionContext {
    /// Block at which all chain state was read
    pub block_tag: BlockTag,
    /// Troves with both a debt and a rate, in ascending rate order
    pub troves: Vec<DebtPerInterestRate>,
    /// The debt that redemptions can take from this collateral branch
    pub maximum_redeemable_against_collateral: U256,
    /// Target share of that debt to keep in front of the batch (scaled by 10^18)
    pub target_percentage: U256,
    /// Seconds since the last rate update
    pub time_since_last_update: U256,
    /// Number of troves in `troves`
    pub troves_count: U256,
}

/// The debt that redemptions can take from this branch: the branch's share of the
/// unbacked debt applied to the system debt, with the share floored at 1%.
pub open spec fn maximum_redeemable_spec(unbacked_portion: nat, total_unbacked: nat, entire_system_debt: nat) -> nat {
    if saturate(unbacked_portion * 100) / total_unbacked < 1 {
        entire_system_debt / 100
    } else {
        saturate(unbacked_portion * entire_system_debt) / total_unbacked
    }
}

/// The target percentage: `2 * target_min * fee / (fee + 0.5%)`, each product
/// saturating.
pub open spec fn target_percentage_spec(target_min: nat, redemption_fee: nat) -> nat {
    saturate(saturate(target_min * 2) * redemption_fee) / saturate(redemption_fee + 5_000_000_000_000_000)
}

/// A trove counts for the strategy when it has both a debt and a rate.
pub open spec fn is_active_trove(t: DebtPerInterestRate) -> bool {
    t.debt@ != 0 && t.interest_rate@ != 0
}

/// Computes the debt that redemptions can take from this branch (see
/// `maximum_redeemable_spec`); an `Arithmetic` error when the total unbacked debt
/// is zero.
pub fn maximum_redeemable_against_collateral(
    unbacked_portion: U256,
    total_unbacked: U256,
    entire_system_debt: U256,
) -> (r: ManagerResult<U256>)
    ensures
        total_unbacked@ == 0 ==> r matches Err(ManagerError::Arithmetic(_)),
        total_unbacked@ != 0 ==> (r matches Ok(v) && v@ == maximum_redeemable_spec(
            unbacked_portion@,
            total_unbacked@,
            entire_system_debt@,
        )),
{
    if total_unbacked.is_zero() {
        return Err(arithmetic_err("total unbacked was 0."));
    }
    let split = div(saturating_mul(unbacked_portion, U256::from_u64(100)), total_unbacked);
    if split.lt(&U256::from_u64(1)) {
        Ok(div(entire_system_debt, U256::from_u64(100)))
    } else {
        Ok(div(saturating_mul(unbacked_portion, entire_system_debt), total_unbacked))
    }
}

/// Computes the target percentage (see `target_percentage_spec`). A zero
/// denominator would be reported as an error; the denominator is at least 0.5% and
/// never zero, so the result is always `Ok`.
pub fn target_percentage(target_min: U256, redemption_fee: U256) -> (r: ManagerResult<U256>)
    ensures
        r matches Ok(v) && v@ == target_percentage_spec(target_min@, redemption_fee@),
{
    let numerator = saturating_mul(saturating_mul(target_min, U256::from_u64(2)), redemption_fee);
    let denominator = saturating_add(redemption_fee, U256::from_u64(5_000_000_000_000_000));
    match checked_div(numerator, denominator) {
        Some(v) => Ok(v),
        None => Err(arithmetic_err("Target percentage's denominator was zero.")),
    }
}

/// Where no product saturates, the target percentage is
/// `2 * target_min * fee / (fee + 0.5%)`, rounded down.
pub proof fn lemma_target_percentage_formula(target_min: nat, fee: nat)
    requires
        target_min * 2 * fee < modulus(),
        fee + 5_000_000_000_000_000 < modulus(),
    ensures
        target_percentage_spec(target_min, fee) == (2 * target_min * fee) / (fee + 5_000_000_000_000_000),
{
    if fee > 0 {
        assert(target_min * 2 <= target_min * 2 * fee) by (nonlinear_arith)
            requires
                fee > 0,
        ;
    } else {
        assert(target_min * 2 * fee == 0) by (nonlinear_arith)
            requires
                fee == 0,
        ;
    }
    assert(2 * target_min * fee == target_min * 2 * fee) by (nonlinear_arith);
}

/// `a1 / b1 <= a2 / b2` (rounded down) where `a1 / b1 <= a2 / b2` exactly.
proof fn lemma_div_ordered_cross(a1: nat, b1: nat, a2: nat, b2: nat)
    requires
        b1 > 0,
        b2 > 0,
        a1 * b2 <= a2 * b1,
    ensures
        a1 / b1 <= a2 / b2,
{
    let q1 = a1 / b1;
    vstd::arithmetic::div_mod::lemma_fundamental_div_mod(a1 as int, b1 as int);
    assert(q1 * b1 <= a1) by {
        vstd::arithmetic::div_mod::lemma_mod_bound(a1 as int, b1 as int);
    }
    assert(q1 * b2 <= a2) by (nonlinear_arith)
        requires
            q1 * b1 <= a1,
            a1 * b2 <= a2 * b1,
            b1 > 0,
            b2 > 0,
    {
        assert(q1 * b1 * b2 <= a1 * b2);
        assert(q1 * b2 * b1 <= a2 * b1);
    }
    vstd::arithmetic::div_mod::lemma_div_is_ordered((q1 * b2) as int, a2 as int, b2 as int);
    vstd::arithmetic::div_mod::lemma_div_multiples_vanish(q1 as int, b2 as int);
}

/// A higher redemption fee (the proxy for redemption risk) never lowers the
/// target percentage, where no product saturates.
pub proof fn lemma_target_percentage_rises_with_fee(target_min: nat, fee1: nat, fee2: nat)
    requires
        fee1 <= fee2,
        target_min * 2 * fee2 < modulus(),
        fee2 + 5_000_000_000_000_000 < modulus(),
    ensures
        target_percentage_spec(target_min, fee1) <= target_percentage_spec(target_min, fee2),
{
    assert(target_min * 2 * fee1 <= target_min * 2 * fee2) by (nonlinear_arith)
        requires
            fee1 <= fee2,
    ;
    lemma_target_percentage_formula(target_min, fee1);
    lemma_target_percentage_formula(target_min, fee2);
    let c: nat = 5_000_000_000_000_000;
    let a1 = 2 * target_min * fee1;
    let a2 = 2 * target_min * fee2;
    assert(a1 * (fee2 + c) <= a2 * (fee1 + c)) by (nonlinear_arith)
        requires
            a1 == 2 * target_min * fee1,
            a2 == 2 * target_min * fee2,
            fee1 <= fee2,
            c == 5_000_000_000_000_000,
    ;
    lemma_div_ordered_cross(a1, (fee1 + c) as nat, a2, (fee2 + c) as nat);
}

/// The plain sum of the values.
pub open spec fn sum_of(values: Seq<U256>) -> int
    decreases values.len(),
{
    if values.len() == 0 {
        0
    } else {
        sum_of(values.drop_last()) + values.last()@
    }
}

/// The total of per-manager amounts (the entire system debt, the total
/// unbacked portion), added with `U256`'s wrapping `+=`: the sum modulo 2^256.
pub fn wrapping_total(values: &Vec<U256>) -> (r: U256)
    ensures
        r@ as int == sum_of(values@) % modulus(),
{
    let mut total = U256::zero();
    let mut i: usize = 0;
    while i < values.len()
        invariant
            i <= values@.len(),
            total@ as int == sum_of(values@.subrange(0, i as int)) % modulus(),
        decreases values@.len() - i,
    {
        let next = wrapping_add(total, values[i]);
        proof {
            let prefix = values@.subrange(0, i + 1);
            assert(prefix.drop_last() =~= values@.subrange(0, i as int));
            crate::uint::lemma_view_bound(values@[i as int]);
            vstd::arithmetic::div_mod::lemma_add_mod_noop(
                sum_of(values@.subrange(0, i as int)),
                values@[i as int]@ as int,
                modulus(),
            );
            vstd::arithmetic::div_mod::lemma_small_mod(values@[i as int]@ as nat, modulus() as nat);
        }
        total = next;
        i = i + 1;
    }
    proof {
        assert(values@.subrange(0, values@.len() as int) =~= values@);
    }
    total
}

/// Appends one page of troves, as the multi trove getter returns it, to the
/// troves collected so far. `Ok(Some(next))` asks for the next page from
/// `next` (the getter's current id); `Ok(None)` ends the collection, which
/// happens when the page's last entry has neither debt nor rate. An empty page is
/// `NonExistentValue`, with nothing appended.
pub fn collect_troves_page(
    troves: &mut Vec<DebtPerInterestRate>,
    page: Vec<DebtPerInterestRate>,
    current_id: U256,
) -> (r: ManagerResult<Option<U256>>)
    ensures
        page@.len() == 0 ==> (r matches Err(e) && e is NonExistentValue) && final(troves)@ == old(troves)@,
        page@.len() > 0 ==> final(troves)@ == old(troves)@ + page@,
        page@.len() > 0 ==> ({
            let last = page@.last();
            if last.debt@ == 0 && last.interest_rate@ == 0 {
                r matches Ok(n) && n is None
            } else {
                r matches Ok(n) && n == Some(current_id)
            }
        }),
{
    let n = page.len();
    if n == 0 {
        return Err(ManagerError::NonExistentValue);
    }
    let last = page[n - 1];
    let mut i: usize = 0;
    while i < n
        invariant
            n == page@.len(),
            0 <= i <= n,
            troves@ == old(troves)@ + page@.subrange(0, i as int),
        decreases n - i,
    {
        troves.push(page[i]);
        proof {
            assert(page@.subrange(0, i + 1) =~= page@.subrange(0, i as int).push(page@[i as int]));
        }
        i = i + 1;
    }
    proof {
        assert(page@.subrange(0, n as int) =~= page@);
    }
    if last.debt.is_zero() && last.interest_rate.is_zero() {
        Ok(None)
    } else {
        Ok(Some(current_id))
    }
}

/// Keeps the troves that have both a debt and a rate, in order.
pub fn retain_active_troves(troves: &Vec<DebtPerInterestRate>) -> (r: Vec<DebtPerInterestRate>)
    ensures
        r@ == troves@.filter(|t: DebtPerInterestRate| is_active_trove(t)),
{
    let mut r: Vec<DebtPerInterestRate> = Vec::new();
    let n = troves.len();
    let mut i: usize = 0;
    while i < n
        invariant
            n == troves@.len(),
            0 <= i <= n,
            r@ == troves@.subrange(0, i as int).filter(|t: DebtPerInterestRate| is_active_trove(t)),
        decreases n - i,
    {
        let t = troves[i];
        proof {
            let f = |t: DebtPerInterestRate| is_active_trove(t);
            assert(troves@.subrange(0, i + 1).drop_last() =~= troves@.subrange(0, i as int));
            reveal_with_fuel(Seq::<_>::filter, 1);
        }
        if !t.debt.is_zero() && !t.interest_rate.is_zero() {
            r.push(t);
        }
        i = i + 1;
    }
    proof {
        assert(troves@.subrange(0, n as int) =~= troves@);
    }
    r
}

/// Builds the execution context from the chain state read at `block_tag`:
/// keeps the active troves, counts them, and computes the maximum redeemable debt
/// and the target percentage. `now_ns` is the canister time in nanoseconds; a last
/// update in the future (the elapsed time would underflow) is excluded.
/// Fails with `Arithmetic` when the total unbacked debt is zero.
pub fn build_execution_context(
    settings: &StrategySettings,
    data: &StrategyData,
    now_ns: u64,
    block_tag: BlockTag,
    troves: &Vec<DebtPerInterestRate>,
    entire_system_debt: U256,
    unbacked_portion: U256,
    redemption_fee: U256,
    total_unbacked: U256,
) -> (r: ManagerResult<ExecutionContext>)
    requires
        data.last_update <= now_ns / 1_000_000_000,
    ensures
        total_unbacked@ == 0 ==> r matches Err(ManagerError::Arithmetic(_)),
        total_unbacked@ != 0 ==> (r matches Ok(ctx) && {
            &&& ctx.block_tag == block_tag
            &&& ctx.troves@ == troves@.filter(|t: DebtPerInterestRate| is_active_trove(t))
            &&& ctx.troves_count@ == ctx.troves@.len()
            &&& ctx.time_since_last_update@ == now_ns / 1_000_000_000 - data.last_update
            &&& ctx.maximum_redeemable_against_collateral@ == maximum_redeemable_spec(
                unbacked_portion@,
                total_unbacked@,
                entire_system_debt@,
            )
            &&& ctx.target_percentage@ == target_percentage_spec(settings.target_min@, redemption_fee@)
        }),
{
    let time_since_last_update = U256::from_u64(now_ns / 1_000_000_000 - data.last_update);
    let active = retain_active_troves(troves);
    let troves_count = U256::from_u64(active.len() as u64);
    if total_unbacked.is_zero() {
        return Err(arithmetic_err("total unbacked was 0."));
    }
    let maximum_redeemable = maximum_redeemable_against_collateral(
        unbacked_portion,
        total_unbacked,
        entire_system_debt,
    )?;
    let target = target_percentage(settings.target_min, redemption_fee)?;
    Ok(ExecutionContext {
        block_tag,
        troves: active,
        maximum_redeemable_against_collateral: maximum_redeemable,
        target_percentage: target,
        time_since_last_update,
        troves_count,
    })
}

/// What the first half of a strategy run decided.
#[derive(Clone, Copy, Debug, PartialEq, Eq, Structural)]
pub enum RateProposal {
    /// No trove delegates to the strategy's batch manager; nothing to do
    NoDelegation,
    /// The calculated rate equals the current rate; nothing to do
    SameRate,
    /// The calculated rate is zero; nothing to do
    ZeroRate,
    /// A new rate to weigh against the upfront fee it would cost
    Candidate {
        /// The calculated rate
        new_rate: U256,
        /// The debt in front of the batch
        debt_in_front: U256,
    },
}

/// Arguments of the batch manager's `setNewRate` call.
#[derive(Clone, Copy, Debug, PartialEq, Eq, Structural)]
pub struct SetNewRateArgs {
    /// The new annual interest rate
    pub new_annual_interest_rate: u128,
    /// Upper insert hint
    pub upper_hint: U256,
    /// Lower insert hint
    pub lower_hint: U256,
    /// Largest upfront fee accepted
    pub max_upfront_fee: U256,
}

/// Number of attempts to send a rate adjustment: at least two, so that a wrong
/// nonce can be corrected once.
pub fn max_send_attempts() -> (r: u8)
    ensures
        r == if MAX_RETRY_ATTEMPTS >= 2 { MAX_RETRY_ATTEMPTS } else { 2 },
{
    if MAX_RETRY_ATTEMPTS >= 2 {
        MAX_RETRY_ATTEMPTS
    } else {
        2
    }
}

/// Arguments of the rate adjustment call: the new rate, the insert hints, and the
/// predicted upfront fee raised by 0.001 (10^15) as the largest fee accepted. The
/// rate must fit in 128 bits.
pub fn rate_adjustment_args(new_rate: U256, hints: (U256, U256), max_upfront_fee: U256) -> (r: SetNewRateArgs)
    requires
        new_rate@ < base2(),
    ensures
        r.new_annual_interest_rate == new_rate@,
        r.upper_hint == hints.0,
        r.lower_hint == hints.1,
        r.max_upfront_fee@ == saturate(max_upfront_fee@ + 1_000_000_000_000_000),
{
    SetNewRateArgs {
        new_annual_interest_rate: new_rate.to_u128(),
        upper_hint: hints.0,
        lower_hint: hints.1,
        max_upfront_fee: saturating_add(max_upfront_fee, U256::from_u128(1_000_000_000_000_000)),
    }
}

/// `root` is the floor of the square root of `x`.
pub open spec fn is_floor_sqrt(root: nat, x: nat) -> bool {
    root * root <= x < (root + 1) * (root + 1)
}

/// Number of trials for the approximate insert hint: ten times the square root of
/// the number of troves (the product wrapping).
pub fn approximate_hint_trials(troves_count: U256) -> (r: U256)
    ensures
        exists|root: nat| #[trigger] is_floor_sqrt(root, troves_count@) && r@ == wrap(10 * root),
{
    let root = sqrt_floor(troves_count);
    let r = wrapping_mul(U256::from_u64(10), root);
    assert(is_floor_sqrt(root@, troves_count@));
    r
}

impl ExecutableStrategy {
    /// First half of a run: finds the debt in front of the batch (recording the
    /// batch's current rate) and calculates the new rate; stops when no trove
    /// delegates to the batch, or when the new rate is the current one or zero.
    pub fn propose_rate(
        &mut self,
        journal: &mut JournalCollection,
        context: &ExecutionContext,
        now_ns: u64,
    ) -> (r: ManagerResult<RateProposal>)
        ensures
            (forall|j: int|
                0 <= j < context.troves@.len() ==> context.troves@[j].interest_batch_manager
                    != old(self).settings.batch_manager) ==> *final(journal) == *old(journal),
            (exists|i: int| first_of_batch(context.troves@, old(self).settings.batch_manager, i)) ==> notes_appended(
                *old(journal),
                *final(journal),
                rate_notes(
                    context.troves@,
                    old(self).settings.batch_manager,
                    context.target_percentage@,
                    context.maximum_redeemable_against_collateral@,
                ),
                now_ns,
            ),
            final(self).settings == old(self).settings,
            final(self).lock == old(self).lock,
            final(self).acquired_lock == old(self).acquired_lock,
            (forall|j: int|
                0 <= j < context.troves@.len() ==> context.troves@[j].interest_batch_manager
                    != old(self).settings.batch_manager) ==> (r matches Ok(p) && p is NoDelegation && final(self).data
                == old(self).data),
            (exists|i: int| first_of_batch(context.troves@, old(self).settings.batch_manager, i)) ==> ({
                let i = choose|i: int| first_of_batch(context.troves@, old(self).settings.batch_manager, i);
                let target = target_debt(
                    context.target_percentage@,
                    context.maximum_redeemable_against_collateral@,
                );
                let scan = scan_troves(context.troves@, old(self).settings.batch_manager, target, 0);
                let rate = proposed_rate(
                    context.troves@,
                    old(self).settings.batch_manager,
                    context.target_percentage@,
                    context.maximum_redeemable_against_collateral@,
                );
                &&& final(self).data == (StrategyData { latest_rate: context.troves@[i].interest_rate, ..old(self).data })
                &&& target == 0 ==> (r matches Err(ManagerError::Custom(_)))
                &&& (target != 0 && scan is Overflow) ==> (r matches Err(ManagerError::Arithmetic(_)))
                &&& (target != 0 && !(scan is Overflow)) ==> {
                    &&& rate == context.troves@[i].interest_rate@ ==> (r matches Ok(p) && p is SameRate)
                    &&& (rate != context.troves@[i].interest_rate@ && rate == 0) ==> (r matches Ok(p) && p is ZeroRate)
                    &&& (rate != context.troves@[i].interest_rate@ && rate != 0) ==> (r matches Ok(p)
                        && p matches RateProposal::Candidate { new_rate, debt_in_front }
                        && new_rate@ == rate && debt_in_front@ == debt_before(context.troves@, i))
                }
            }),
    {
        let debt_in_front = match self.get_current_debt_in_front(&context.troves) {
            Some(d) => d,
            None => return Ok(RateProposal::NoDelegation),
        };
        proof {
            let i = choose|i: int| first_of_batch(context.troves@, old(self).settings.batch_manager, i);
            let k = choose|k: int|
                {
                    &&& first_of_batch(context.troves@, old(self).settings.batch_manager, k)
                    &&& debt_in_front@ == debt_before(context.troves@, k)
                    &&& self.data == (StrategyData { latest_rate: context.troves@[k].interest_rate, ..old(self).data })
                };
            assert(i == k) by {
                if i < k {
                    assert(context.troves@[i].interest_batch_manager != old(self).settings.batch_manager);
                } else if k < i {
                    assert(context.troves@[k].interest_batch_manager != old(self).settings.batch_manager);
                }
            }
        }
        let new_rate = self.calculate_new_rate(
            journal,
            &context.troves,
            context.target_percentage,
            context.maximum_redeemable_against_collateral,
            now_ns,
        )?;
        if new_rate.eq(&self.data.latest_rate) {
            return Ok(RateProposal::SameRate);
        } else if new_rate.is_zero() {
            return Ok(RateProposal::ZeroRate);
        }
        Ok(RateProposal::Candidate { new_rate, debt_in_front })
    }

    /// Second half of a run: with the predicted upfront fee of the candidate rate,
    /// decides whether to adjust. The rate goes up when the increase check holds,
    /// and down when both decrease checks hold (the second one is only evaluated
    /// after the first). `Some((new_rate, upfront_fee))` asks for the adjustment.
    pub fn decide_rate_adjustment(
        &self,
        journal: &mut JournalCollection,
        context: &ExecutionContext,
        debt_in_front: U256,
        new_rate: U256,
        upfront_fee: U256,
        now_ns: u64,
    ) -> (r: ManagerResult<Option<(U256, U256)>>)
        ensures
            notes_appended(
                *old(journal),
                *final(journal),
                decision_notes(
                    debt_in_front@,
                    context.target_percentage@,
                    context.maximum_redeemable_against_collateral@,
                    context.time_since_last_update@,
                    self.settings.upfront_fee_period@,
                    self.data.latest_rate@,
                    new_rate@,
                    upfront_fee@,
                ),
                now_ns,
            ),
            ({
                let tp = context.target_percentage@;
                let mr = context.maximum_redeemable_against_collateral@;
                let second = second_decrease_outcome(
                    context.time_since_last_update@,
                    self.settings.upfront_fee_period@,
                    self.data.latest_rate@,
                    new_rate@,
                    upfront_fee@,
                );
                if debt_in_front@ < increase_threshold(tp, mr) {
                    r == Ok::<Option<(U256, U256)>, ManagerError>(Some((new_rate, upfront_fee)))
                } else if debt_in_front@ > decrease_threshold(tp, mr) {
                    match second {
                        Some(true) => r == Ok::<Option<(U256, U256)>, ManagerError>(Some((new_rate, upfront_fee))),
                        Some(false) => r == Ok::<Option<(U256, U256)>, ManagerError>(None),
                        None => (r matches Err(ManagerError::Arithmetic(_))),
                    }
                } else {
                    r == Ok::<Option<(U256, U256)>, ManagerError>(None)
                }
            }),
    {
        let ghost start = *journal;
        let ghost tp = context.target_percentage@;
        let ghost mr = context.maximum_redeemable_against_collateral@;
        let increase = self.increase_check(
            journal,
            debt_in_front,
            context.maximum_redeemable_against_collateral,
            context.target_percentage,
            now_ns,
        );
        let ghost after_increase = *journal;
        let ghost first_notes = seq![increase_note(debt_in_front@, increase_threshold(tp, mr))];
        if increase {
            proof {
                assert(first_notes + Seq::<Seq<char>>::empty() =~= first_notes);
            }
            return Ok(Some((new_rate, upfront_fee)));
        }
        let decrease = self.first_decrease_check(
            journal,
            debt_in_front,
            context.maximum_redeemable_against_collateral,
            context.target_percentage,
            now_ns,
        );
        let ghost after_first = *journal;
        let ghost second_notes = seq![first_decrease_note(debt_in_front@, decrease_threshold(tp, mr))];
        proof {
            lemma_notes_chain(start, after_increase, after_first, first_notes, second_notes, now_ns);
        }
        if decrease {
            let second = self.second_decrease_check(
                journal,
                context.time_since_last_update,
                self.settings.upfront_fee_period,
                new_rate,
                upfront_fee,
                now_ns,
            );
            let ghost third_notes = second_decrease_notes(
                context.time_since_last_update@,
                self.settings.upfront_fee_period@,
                self.data.latest_rate@,
                new_rate@,
                upfront_fee@,
            );
            proof {
                lemma_notes_chain(start, after_first, *journal, first_notes + second_notes, third_notes, now_ns);
                assert(first_notes + second_notes + third_notes =~= first_notes + (second_notes + third_notes));
            }
            let second = match second {
                Ok(b) => b,
                Err(e) => return Err(e),
            };
            if second {
                return Ok(Some((new_rate, upfront_fee)));
            }
            return Ok(None);
        }
        proof {
            assert(first_notes + second_notes =~= first_notes + (second_notes + Seq::<Seq<char>>::empty()));
        }
        Ok(None)
    }

    /// The EOA that sends the strategy's transactions; `NonExistentValue` if the
    /// strategy has none.
    pub fn eoa(&self) -> (r: ManagerResult<Address>)
        ensures
            match self.settings.eoa_pk {
                Some(a) => r == Ok::<Address, ManagerError>(a),
                None => (r matches Err(e) && e is NonExistentValue),
            },
    {
        match self.settings.eoa_pk {
            Some(a) => Ok(a),
            None => Err(ManagerError::NonExistentValue),
        }
    }

    /// Handles the status of a sent rate adjustment at canister time `now_ns`.
    ///
    /// Accepted: the nonce advances, the update time and the new rate are recorded
    /// and written to the store, and `Ok(true)` ends the attempts. Insufficient
    /// funds: a `Custom` error. A wrong nonce: `Ok(false)`, the nonce needs
    /// refreshing before the next attempt.
    pub fn handle_transaction_response(
        &mut self,
        store: &mut StrategyStore,
        journal: &mut JournalCollection,
        result: SendRawTransactionStatus,
        new_rate: U256,
        now_ns: u64,
    ) -> (r: ManagerResult<bool>)
        requires
            old(self).data.eoa_nonce < u64::MAX,
        ensures
            result is Accepted ==> entry_appended(
                *old(journal),
                *final(journal),
                LogType::RateAdjustment,
                final(journal).entries@.last().note->0@,
                now_ns,
            ),
            result is Accepted && hash_is_plain(result->0) ==> final(journal).entries@.last().note->0@
                == accepted_note_prefix() + hash_text(result->0),
            result is InsufficientFunds ==> *final(journal) == *old(journal),
            (result is NonceTooLow || result is NonceTooHigh) ==> entry_appended(
                *old(journal),
                *final(journal),
                LogType::Info,
                "The rate adjustment transaction failed due to wrong nonce. Adjusting the nonce..."@,
                now_ns,
            ),
            final(self).settings == old(self).settings,
            final(self).lock == old(self).lock,
            final(self).acquired_lock == old(self).acquired_lock,
            match result {
                SendRawTransactionStatus::Accepted(_) => {
                    &&& r == Ok::<bool, ManagerError>(true)
                    &&& final(self).data == (StrategyData {
                        eoa_nonce: (old(self).data.eoa_nonce + 1) as u64,
                        last_update: now_ns / 1_000_000_000,
                        latest_rate: new_rate,
                        ..old(self).data
                    })
                    &&& store_updated(old(store)@, final(store)@, old(self).settings.key, stable_form(*final(self)))
                },
                SendRawTransactionStatus::InsufficientFunds => {
                    &&& r matches Err(ManagerError::Custom(m)) && m@ == "Not enough balance to cover the gas fee."@
                    &&& final(self).data == old(self).data
                    &&& final(store)@ == old(store)@
                },
                _ => {
                    &&& r == Ok::<bool, ManagerError>(false)
                    &&& final(self).data == old(self).data
                    &&& final(store)@ == old(store)@
                },
            },
    {
        match result {
            SendRawTransactionStatus::Accepted(hash) => {
                let hash_debug = match &hash {
                    None => "None".to_owned(),
                    Some(h) => "Some(".to_owned().concat(debug_text(h.as_str()).as_str()).concat(")"),
                };
                let note = "The rate adjustment transaction was successful. Transaction hash: ".to_owned().concat(
                    hash_debug.as_str(),
                );
                journal.append_note(Ok(()), LogType::RateAdjustment, note.as_str(), now_ns);
                self.data.eoa_nonce = self.data.eoa_nonce + 1;
                self.data.last_update = now_ns / 1_000_000_000;
                self.data.latest_rate = new_rate;
                self.apply_change(store);
                Ok(true)
            },
            SendRawTransactionStatus::InsufficientFunds => Err(
                ManagerError::Custom("Not enough balance to cover the gas fee.".to_string()),
            ),
            SendRawTransactionStatus::NonceTooLow | SendRawTransactionStatus::NonceTooHigh => {
                journal.append_note(
                    Ok(()),
                    LogType::Info,
                    "The rate adjustment transaction failed due to wrong nonce. Adjusting the nonce...",
                    now_ns,
                );
                Ok(false)
            },
        }
    }

    /// Records the EOA nonce read from the chain and writes the strategy to the
    /// store. The nonce must fit in 64 bits.
    pub fn update_nonce(&mut self, store: &mut StrategyStore, nonce: U256)
        requires
            nonce@ < base1(),
        ensures
            final(self).settings == old(self).settings,
            final(self).lock == old(self).lock,
            final(self).acquired_lock == old(self).acquired_lock,
            final(self).data == (StrategyData { eoa_nonce: nonce@ as u64, ..old(self).data }),
            store_updated(old(store)@, final(store)@, old(self).settings.key, stable_form(*final(self))),
    {
        self.data.eoa_nonce = nonce.to_u64();
        self.apply_change(store);
    }
}

/// The increase and the first decrease condition never hold together: a debt in
/// front below the lower bound of the target range is not above its upper bound
/// (for targets small enough that the upper bound does not wrap around 2^256).
pub proof fn lemma_increase_excludes_decrease(target_percentage: nat, maximum_redeemable: nat, debt_in_front: nat)
    requires
        target_debt(target_percentage, maximum_redeemable) * 1_150_000_000_000_000_000 < modulus(),
    ensures
        !(debt_in_front < increase_threshold(target_percentage, maximum_redeemable)
            && debt_in_front > decrease_threshold(target_percentage, maximum_redeemable)),
{
    let t = target_debt(target_percentage, maximum_redeemable);
    vstd::arithmetic::div_mod::lemma_small_mod(t * 1_150_000_000_000_000_000, modulus() as nat);
    vstd::arithmetic::div_mod::lemma_small_mod(t * 850_000_000_000_000_000, modulus() as nat);
    vstd::arithmetic::div_mod::lemma_div_is_ordered(
        (t * 850_000_000_000_000_000) as int,
        (t * 1_150_000_000_000_000_000) as int,
        SCALE as int,
    );
}

/// A decrease is never held back by the upfront fee once the upfront fee period
/// has passed since the last update.
pub proof fn lemma_decrease_after_fee_period(
    time_since_last_update: nat,
    upfront_fee_period: nat,
    latest_rate: nat,
    new_rate: nat,
    average_rate: nat,
)
    requires
        time_since_last_update > upfront_fee_period,
    ensures
        second_decrease_outcome(time_since_last_update, upfront_fee_period, latest_rate, new_rate, average_rate)
            == Some(true),
{
}

/// A rate above the current one is never a decrease that the second check
/// approves: within the upfront fee period it is an arithmetic failure.
pub proof fn lemma_second_check_needs_lower_rate(
    time_since_last_update: nat,
    upfront_fee_period: nat,
    latest_rate: nat,
    new_rate: nat,
    average_rate: nat,
)
    requires
        time_since_last_update <= upfront_fee_period,
        new_rate > latest_rate,
    ensures
        second_decrease_outcome(time_since_last_update, upfront_fee_period, latest_rate, new_rate, average_rate)
            is None,
{
}

/// Taking a strategy out of the store and writing it back unchanged gives the
/// same stored strategy.
pub proof fn lemma_stable_round_trip(s: StableStrategy)
    ensures
        same_strategy(
            stable_form(<ExecutableStrategy as vstd::std_specs::convert::FromSpec<&StableStrategy>>::from_spec(&s)),
            s,
        ),
{
    assert(same_settings(s.settings, s.settings));
}

} // verus!
