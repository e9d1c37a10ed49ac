//! Strategy locking: a timeout-based lock that prevents concurrent strategy
//! execution and recovers from abandoned locks.
//!
//! Times are the canister time in whole seconds (nanoseconds divided by 10^9),
//! and a lock is abandoned once more than `STRATEGY_LOCK_TIMEOUT` seconds (one
//! hour) have passed since it was taken.

use vstd::prelude::*;

use crate::constants::STRATEGY_LOCK_TIMEOUT;
use crate::error::{ManagerError, ManagerResult};

verus! {

/// Runtime lock with automatic timeout recovery.
#[derive(Clone, Copy, Debug, PartialEq, Eq, Structural)]
pub struct Lock {
    /// Current lock state
    pub is_locked: bool,
    /// Last successful lock acquisition time
    pub last_locked_at: Option<u64>,
}

/// Persistent lock state for stable storage.
#[derive(Clone, Copy, Debug, PartialEq, Eq, Structural)]
pub struct StableLock {
    /// Status of the lock. `true` represents locked and `false` unlocked
    pub is_locked: bool,
    /// Last locked timestamp
    pub last_locked_at: Option<u64>,
}

impl Default for Lock {
    fn default() -> (r: Lock)
        ensures
            r == (Lock { is_locked: false, last_locked_at: None }),
    {
        Lock { is_locked: false, last_locked_at: None }
    }
}

impl Default for StableLock {
    fn default() -> (r: StableLock)
        ensures
            r == (StableLock { is_locked: false, last_locked_at: None }),
    {
        StableLock { is_locked: false, last_locked_at: None }
    }
}

/// The time the lock reads from the canister time `now_ns`.
pub open spec fn lock_clock(now_ns: u64) -> int {
    (now_ns / 1_000_000_000) as int
}

/// The lock can be read at `now_ns`: a held lock was not taken in the future.
pub open spec fn lock_readable(lock: Lock, now_ns: u64) -> bool {
    lock.is_locked ==> (lock.last_locked_at matches Some(t) ==> t <= lock_clock(now_ns))
}

/// The lock is held but was taken more than the timeout (3,600 s) ago.
pub open spec fn lock_expired(lock: Lock, now_ns: u64) -> bool {
    &&& lock.is_locked
    &&& lock.last_locked_at matches Some(t)
    &&& lock_clock(now_ns) - t > STRATEGY_LOCK_TIMEOUT
}

/// Outcome of `try_lock` at `now_ns`: the new lock and whether it was acquired.
/// A held lock is taken over once it has been held for more than one hour
/// (3,600 s).
pub open spec fn try_lock_spec(lock: Lock, now_ns: u64) -> (Lock, bool) {
    if !lock.is_locked || lock_expired(lock, now_ns) {
        (Lock { is_locked: true, last_locked_at: Some(lock_clock(now_ns) as u64) }, true)
    } else {
        (lock, false)
    }
}

/// The lock after `try_unlock(acquired_lock)` at `now_ns`.
pub open spec fn try_unlock_spec(lock: Lock, acquired_lock: bool, now_ns: u64) -> Lock {
    if acquired_lock || lock_expired(lock, now_ns) {
        Lock { is_locked: false, last_locked_at: None }
    } else {
        lock
    }
}

impl Lock {
    /// Attempts to acquire the lock at canister time `now_ns`.
    ///
    /// Succeeds if the lock is free, or if the existing lock has exceeded the
    /// timeout; fails with `ManagerError::Locked` and leaves the lock as it was
    /// otherwise.
    pub fn try_lock(&mut self, now_ns: u64) -> (r: ManagerResult<()>)
        requires
            lock_readable(*old(self), now_ns),
        ensures
            *final(self) == try_lock_spec(*old(self), now_ns).0,
            r is Ok == try_lock_spec(*old(self), now_ns).1,
            r matches Err(e) ==> e is Locked,
    {
        let current_time = now_ns / 1_000_000_000;

        if let Some(last_locked_at) = self.last_locked_at {
            if self.is_locked && current_time - last_locked_at > STRATEGY_LOCK_TIMEOUT {
                self.is_locked = false;
            }
        }

        if !self.is_locked {
            self.is_locked = true;
            self.last_locked_at = Some(current_time);
            Ok(())
        } else {
            Err(ManagerError::Locked)
        }
    }

    /// Releases the lock if it was acquired by the caller (`acquired_lock`), or
    /// if it has been held beyond the timeout.
    pub fn try_unlock(&mut self, acquired_lock: bool, now_ns: u64) -> (r: &mut Self)
        requires
            lock_readable(*old(self), now_ns),
        ensures
            *r == try_unlock_spec(*old(self), acquired_lock, now_ns),
            *final(self) == *final(r),
    {
        if acquired_lock {
            self.is_locked = false;
            self.last_locked_at = None;
        } else if let Some(last_locked_at) = self.last_locked_at {
            let current_time = now_ns / 1_000_000_000;

            if self.is_locked && current_time - last_locked_at > STRATEGY_LOCK_TIMEOUT {
                self.is_locked = false;
                self.last_locked_at = None;
            }
        }
        self
    }
}

/// Conversion from storage to runtime lock
impl From<StableLock> for Lock {
    fn from(value: StableLock) -> (r: Lock)
        ensures
            r.is_locked == value.is_locked,
            r.last_locked_at == value.last_locked_at,
    {
        Lock { is_locked: value.is_locked, last_locked_at: value.last_locked_at }
    }
}

impl vstd::std_specs::convert::FromSpecImpl<StableLock> for Lock {
    open spec fn obeys_from_spec() -> bool {
        true
    }

    open spec fn from_spec(v: StableLock) -> Lock {
        Lock { is_locked: v.is_locked, last_locked_at: v.last_locked_at }
    }
}

/// Conversion from runtime to storage lock
impl From<Lock> for StableLock {
    fn from(value: Lock) -> (r: StableLock)
        ensures
            r.is_locked == value.is_locked,
            r.last_locked_at == value.last_locked_at,
    {
        StableLock { is_locked: value.is_locked, last_locked_at: value.last_locked_at }
    }
}

impl vstd::std_specs::convert::FromSpecImpl<Lock> for StableLock {
    open spec fn obeys_from_spec() -> bool {
        true
    }

    open spec fn from_spec(v: Lock) -> StableLock {
        StableLock { is_locked: v.is_locked, last_locked_at: v.last_locked_at }
    }
}

/// Mutual exclusion: once the lock is acquired at `t1`, an attempt at `t2` that
/// comes within the timeout fails and leaves the lock held.
pub proof fn lemma_lock_excludes(lock: Lock, t1: u64, t2: u64)
    requires
        lock_readable(lock, t1),
        try_lock_spec(lock, t1).1,
        t1 <= t2,
        lock_clock(t2) - lock_clock(t1) <= STRATEGY_LOCK_TIMEOUT,
    ensures
        lock_readable(try_lock_spec(lock, t1).0, t2),
        !try_lock_spec(try_lock_spec(lock, t1).0, t2).1,
        try_lock_spec(try_lock_spec(lock, t1).0, t2).0 == try_lock_spec(lock, t1).0,
{
    vstd::arithmetic::div_mod::lemma_div_is_ordered(t1 as int, t2 as int, 1_000_000_000);
}

/// Release: a lock acquired and then released by its holder is free again, and
/// the next attempt acquires it.
pub proof fn lemma_lock_release(lock: Lock, t1: u64, t2: u64)
    requires
        lock_readable(lock, t1),
        try_lock_spec(lock, t1).1,
    ensures
        try_unlock_spec(try_lock_spec(lock, t1).0, true, t2) == (Lock { is_locked: false, last_locked_at: None }),
        try_lock_spec(try_unlock_spec(try_lock_spec(lock, t1).0, true, t2), t2).1,
{
}

/// Recovery: a lock held for longer than the timeout can be taken over.
pub proof fn lemma_lock_recovers(lock: Lock, now_ns: u64)
    requires
        lock_expired(lock, now_ns),
    ensures
        try_lock_spec(lock, now_ns).1,
        try_unlock_spec(lock, false, now_ns) == (Lock { is_locked: false, last_locked_at: None }),
{
}

/// Converting a lock to its stored form and back gives the same lock.
pub proof fn lemma_lock_round_trip(lock: Lock)
    ensures
        <Lock as vstd::std_specs::convert::FromSpec<StableLock>>::from_spec(
            <StableLock as vstd::std_specs::convert::FromSpec<Lock>>::from_spec(lock),
        ) == lock,
{
}

} // verus!
