//! Strategy runtime state

use vstd::prelude::*;

use crate::error::ManagerResult;
use crate::journal::{format_utc_timestamp, utc_date_time_text, DATE_SECS_LIMIT};
use crate::uint::U256;

verus! {

/// Core strategy runtime state containing mutable execution data:
/// the latest applied rate, timing of updates and successful exits, and the
/// nonce of the strategy's EOA.
#[derive(Clone, Copy, Debug, PartialEq, Eq, Structural)]
pub struct StrategyData {
    /// Current interest rate from last execution
    pub latest_rate: U256,
    /// Last rate update timestamp (seconds)
    pub last_update: u64,
    /// Current EOA transaction nonce
    pub eoa_nonce: u64,
    /// Last successful strategy completion (seconds)
    pub last_ok_exit: u64,
}

impl Default for StrategyData {
    fn default() -> (r: StrategyData)
        ensures
            r.latest_rate@ == 0,
            r.last_update == 0,
            r.eoa_nonce == 0,
            r.last_ok_exit == 0,
    {
        StrategyData { latest_rate: U256::zero(), last_update: 0, eoa_nonce: 0, last_ok_exit: 0 }
    }
}

impl StrategyData {
    /// Updates the current interest rate.
    pub fn latest_rate(&mut self, latest_rate: U256) -> (r: &mut Self)
        ensures
            *r == (StrategyData { latest_rate, ..*old(self) }),
            *final(self) == *final(r),
    {
        self.latest_rate = latest_rate;
        self
    }

    /// Records rate update timestamp.
    pub fn last_update(&mut self, last_update: u64) -> (r: &mut Self)
        ensures
            *r == (StrategyData { last_update, ..*old(self) }),
            *final(self) == *final(r),
    {
        self.last_update = last_update;
        self
    }

    /// Sets the EOA nonce for transaction sequencing.
    pub fn eoa_nonce(&mut self, eoa_nonce: u64) -> (r: &mut Self)
        ensures
            *r == (StrategyData { eoa_nonce, ..*old(self) }),
            *final(self) == *final(r),
    {
        self.eoa_nonce = eoa_nonce;
        self
    }

    /// Records the time of a successful strategy completion; `now_ns` is the
    /// canister time in nanoseconds.
    pub fn record_last_ok_exit(&mut self, now_ns: u64) -> (r: &mut Self)
        ensures
            *r == (StrategyData { last_ok_exit: now_ns / 1_000_000_000, ..*old(self) }),
            *final(self) == *final(r),
    {
        self.last_ok_exit = now_ns / 1_000_000_000;
        self
    }
}

/// Serialization-optimized view of strategy state for external queries: the
/// times as UTC dates.
#[derive(Debug)]
pub struct StrategyDataQuery {
    /// Interest rate
    pub latest_rate: U256,
    /// Last update time, `dd-mm-yyyy hh:mm:ss`
    pub last_update: String,
    /// Current transaction nonce
    pub eoa_nonce: u64,
    /// Last successful completion time, `dd-mm-yyyy hh:mm:ss`
    pub last_ok_exit: String,
}

/// The seconds, read as a signed timestamp, lie within the dates `chrono` can
/// write.
pub open spec fn datable(secs: u64) -> bool {
    -DATE_SECS_LIMIT <= (secs as i64) <= DATE_SECS_LIMIT
}

fn date_text(secs: u64) -> (r: String)
    requires
        datable(secs),
    ensures
        r@ == utc_date_time_text(secs as i64),
{
    match format_utc_timestamp(secs as i64) {
        Some(t) => t,
        None => {
            assert(false);
            String::new()
        },
    }
}

impl StrategyDataQuery {
    /// The query view of the runtime state.
    pub fn try_from(value: StrategyData) -> (r: ManagerResult<StrategyDataQuery>)
        requires
            datable(value.last_update),
            datable(value.last_ok_exit),
        ensures
            r matches Ok(q) && q.latest_rate == value.latest_rate && q.eoa_nonce == value.eoa_nonce && q.last_update@
                == utc_date_time_text(value.last_update as i64) && q.last_ok_exit@ == utc_date_time_text(
                value.last_ok_exit as i64,
            ),
    {
        let last_update = date_text(value.last_update);
        let last_ok_exit = date_text(value.last_ok_exit);
        Ok(StrategyDataQuery { latest_rate: value.latest_rate, last_update, eoa_nonce: value.eoa_nonce, last_ok_exit })
    }
}

} // verus!
