//! Strategy execution runner: loads a strategy, and after every execution attempt
//! releases its lock, journals the result and decides whether to try again.
//!
//! The attempts themselves talk to Ethereum and are driven from outside, at most
//! `MAX_RETRY_ATTEMPTS` of them per run.

use vstd::prelude::*;
use vstd::string::StringExecFns;

use crate::constants::MAX_RETRY_ATTEMPTS;
use crate::error::{ManagerError, ManagerResult};
use crate::journal::{journal_secs, utc_date_time_text, JournalCollection, LogType};
use crate::uint::{decimal_text, to_decimal_string, U256};

use super::data::StrategyData;
use super::executable::{stable_form, ExecutableStrategy};
use super::lock::{lock_readable, try_unlock_spec, Lock};
use super::settings::same_settings;
use super::stable::{store_updated, StrategyStore};

verus! {

broadcast use vstd::std_specs::hash::group_hash_axioms;

/// The journal after one more note: the same collection with one entry appended
/// that records `entry`, `log_type` and `note`, dated at `now_ns`.
pub open spec fn noted(
    before: JournalCollection,
    after: JournalCollection,
    entry: ManagerResult<()>,
    log_type: LogType,
    note: Seq<char>,
    now_ns: u64,
) -> bool {
    &&& after.start_date_and_time == before.start_date_and_time
    &&& after.end_date_and_time == before.end_date_and_time
    &&& after.strategy == before.strategy
    &&& after.entries@.len() == before.entries@.len() + 1
    &&& after.entries@.subrange(0, before.entries@.len() as int) == before.entries@
    &&& after.entries@.last().entry == entry
    &&& after.entries@.last().log_type == log_type
    &&& after.entries@.last().note matches Some(n) && n@ == note
    &&& after.entries@.last().date_and_time@ == utc_date_time_text(journal_secs(now_ns))
}

/// Takes the strategy under `key` out of the store for an execution, noting in the
/// journal whether it was found.
pub fn load_strategy(store: &StrategyStore, key: u32, journal: &mut JournalCollection, now_ns: u64) -> (r: Option<
    ExecutableStrategy,
>)
    ensures
        store@.contains_key(key) ==> {
            &&& r matches Some(e) && same_settings(e.settings, store@[key].settings) && e.data == store@[key].data
                && e.lock == (Lock {
                is_locked: store@[key].lock.is_locked,
                last_locked_at: store@[key].lock.last_locked_at,
            }) && !e.holds_lock()
            &&& noted(*old(journal), *final(journal), Ok(()), LogType::Info, "Executable strategy is created."@, now_ns)
        },
        !store@.contains_key(key) ==> {
            &&& r is None
            &&& noted(
                *old(journal),
                *final(journal),
                Err(ManagerError::NonExistentValue),
                LogType::Info,
                "This strategy key was not found in the state. The execution could not be started."@,
                now_ns,
            )
        },
{
    match store.get(&key) {
        Some(stable) => {
            let e = ExecutableStrategy::from(stable);
            journal.append_note(Ok(()), LogType::Info, "Executable strategy is created.", now_ns);
            Some(e)
        },
        None => {
            journal.append_note(
                Err(ManagerError::NonExistentValue),
                LogType::Info,
                "This strategy key was not found in the state. The execution could not be started.",
                now_ns,
            );
            None
        },
    }
}

/// The note after the `turn`-th execution attempt.
pub open spec fn attempt_note(turn: u8) -> Seq<char> {
    "Strategy execution attempt is finished. Attempts remaining: "@ + decimal_text((MAX_RETRY_ATTEMPTS - turn) as nat)
}

/// Bookkeeping after the `turn`-th execution attempt (counting from 1): releases
/// the strategy's lock and writes it back to the store, journals the attempt's
/// result, and on success records the time of the successful exit. Returns
/// whether the run stops (it stops on success).
pub fn finish_attempt(
    strategy: &mut ExecutableStrategy,
    store: &mut StrategyStore,
    journal: &mut JournalCollection,
    turn: u8,
    result: ManagerResult<()>,
    now_ns: u64,
) -> (stop: bool)
    requires
        1 <= turn <= MAX_RETRY_ATTEMPTS,
        lock_readable(old(strategy).lock, now_ns),
    ensures
        stop == result is Ok,
        final(strategy).settings == old(strategy).settings,
        final(strategy).lock == try_unlock_spec(old(strategy).lock, old(strategy).holds_lock(), now_ns),
        final(strategy).holds_lock() == old(strategy).holds_lock(),
        result is Ok ==> final(strategy).data == (StrategyData {
            last_ok_exit: now_ns / 1_000_000_000,
            ..old(strategy).data
        }),
        result is Err ==> final(strategy).data == old(strategy).data,
        store_updated(old(store)@, final(store)@, old(strategy).settings.key, stable_form(*final(strategy))),
        noted(*old(journal), *final(journal), result, LogType::ExecutionResult, attempt_note(turn), now_ns),
{
    strategy.unlock(store, now_ns);
    let ok = result.is_ok();
    let remaining = to_decimal_string(U256::from_u64((MAX_RETRY_ATTEMPTS - turn) as u64));
    let note = "Strategy execution attempt is finished. Attempts remaining: ".to_owned().concat(remaining.as_str());
    journal.append_note(result, LogType::ExecutionResult, note.as_str(), now_ns);
    if ok {
        let ghost before = store@;
        strategy.data.record_last_ok_exit(now_ns);
        strategy.apply_change(store);
        proof {
            assert(store@.dom() =~= old(store)@.dom().insert(old(strategy).settings.key));
            assert forall|k: u32| k != old(strategy).settings.key && old(store)@.contains_key(k) implies store@[k]
                == old(store)@[k] by {
                assert(before.contains_key(k));
            }
        }
    }
    ok
}

} // verus!
