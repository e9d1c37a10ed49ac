//! Persistent strategy state: the store of all strategies, keyed by strategy key.

use vstd::prelude::*;

use std::collections::HashMap;

use crate::error::{ManagerError, ManagerResult};

use super::data::StrategyData;
use super::lock::StableLock;
use super::settings::{same_settings, StrategySettings};

verus! {

broadcast use vstd::std_specs::hash::group_hash_axioms;

/// A persistent strategy: settings, runtime data and the execution lock.
#[derive(Debug)]
pub struct StableStrategy {
    /// Core configuration parameters that remain constant after initialization
    pub settings: StrategySettings,
    /// Dynamic state that changes during strategy execution
    pub data: StrategyData,
    /// Atomic execution lock to prevent concurrent operations
    pub lock: StableLock,
}

/// All strategies of the canister, keyed by strategy key.
pub type StrategyStore = HashMap<u32, StableStrategy>;

/// The two strategies agree in every field.
pub open spec fn same_strategy(a: StableStrategy, b: StableStrategy) -> bool {
    &&& same_settings(a.settings, b.settings)
    &&& a.data == b.data
    &&& a.lock == b.lock
}

/// `after` is `before` with the strategy under `key` replaced by (or set to) `s`.
pub open spec fn store_updated(
    before: Map<u32, StableStrategy>,
    after: Map<u32, StableStrategy>,
    key: u32,
    s: StableStrategy,
) -> bool {
    &&& after.dom() == before.dom().insert(key)
    &&& same_strategy(after[key], s)
    &&& forall|k: u32| k != key && before.contains_key(k) ==> after[k] == before[k]
}

impl Clone for StableStrategy {
    fn clone(&self) -> (r: StableStrategy)
        ensures
            same_strategy(r, *self),
    {
        StableStrategy { settings: self.settings.clone(), data: self.data, lock: self.lock }
    }
}

impl Default for StableStrategy {
    fn default() -> (r: StableStrategy)
        ensures
            r.settings.key == 0,
            r.data == (StrategyData { latest_rate: r.data.latest_rate, last_update: 0, eoa_nonce: 0, last_ok_exit: 0 }),
            r.data.latest_rate@ == 0,
            r.lock == (StableLock { is_locked: false, last_locked_at: None }),
    {
        StableStrategy {
            settings: StrategySettings::default(),
            data: StrategyData::default(),
            lock: StableLock::default(),
        }
    }
}

impl StableStrategy {
    /// Sets the strategy settings.
    pub fn settings(&mut self, settings: StrategySettings) -> (r: &mut Self)
        ensures
            *r == (StableStrategy { settings, ..*old(self) }),
            *final(self) == *final(r),
    {
        self.settings = settings;
        self
    }

    /// Sets the strategy runtime data.
    pub fn data(&mut self, data: StrategyData) -> (r: &mut Self)
        ensures
            *r == (StableStrategy { data, ..*old(self) }),
            *final(self) == *final(r),
    {
        self.data = data;
        self
    }

    /// Registers the strategy in the store under its key.
    ///
    /// Fails, leaving the store unchanged, if a strategy with the same key is
    /// already registered.
    pub fn mint(&self, store: &mut StrategyStore) -> (r: ManagerResult<()>)
        ensures
            old(store)@.contains_key(self.settings.key) ==> {
                &&& r matches Err(ManagerError::Custom(m)) && m@ == "This strategy key is already mined."@
                &&& final(store)@ == old(store)@
            },
            !old(store)@.contains_key(self.settings.key) ==> {
                &&& r is Ok
                &&& store_updated(old(store)@, final(store)@, self.settings.key, *self)
            },
    {
        if store.contains_key(&self.settings.key) {
            return Err(ManagerError::Custom("This strategy key is already mined.".to_string()));
        }
        store.insert(self.settings.key, self.clone());
        Ok(())
    }
}

} // verus!
