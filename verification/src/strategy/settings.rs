//! Lazily initialized strategy settings

use vstd::prelude::*;

use crate::address::Address;
use crate::evm_rpc::Service;
use crate::types::DerivationPath;
use crate::uint::U256;

verus! {

/// Settings of a strategy, set once after minting.
#[derive(Debug)]
pub struct StrategySettings {
    /// Key of the strategy in the strategy store
    pub key: u32,
    /// Batch manager contract address for this strategy
    pub batch_manager: Address,
    /// Hint helper contract address.
    pub hint_helper: Address,
    /// Manager contract address for this strategy
    pub manager: Address,
    /// Collateral registry contract address
    pub collateral_registry: Address,
    /// Multi trove getter contract address for this strategy
    pub multi_trove_getter: Address,
    /// Sorted troves contract address, asked for insert positions
    pub sorted_troves: Address,
    /// Collateral index
    pub collateral_index: U256,
    /// Derivation path of the ECDSA signature
    pub derivation_path: DerivationPath,
    /// Minimum target for this strategy
    pub target_min: U256,
    /// Upfront fee period constant denominated in seconds
    pub upfront_fee_period: U256,
    /// The EOA's public key
    pub eoa_pk: Option<Address>,
    /// RPC canister service
    pub rpc_canister: Service,
}

/// The two derivation paths hold the same byte strings.
pub open spec fn same_path(a: DerivationPath, b: DerivationPath) -> bool {
    &&& a@.len() == b@.len()
    &&& forall|i: int| 0 <= i < a@.len() ==> #[trigger] a@[i]@ == b@[i]@
}

/// The two settings agree in every field (the paths and principals by their bytes).
pub open spec fn same_settings(a: StrategySettings, b: StrategySettings) -> bool {
    &&& a.key == b.key
    &&& a.batch_manager == b.batch_manager
    &&& a.hint_helper == b.hint_helper
    &&& a.manager == b.manager
    &&& a.collateral_registry == b.collateral_registry
    &&& a.multi_trove_getter == b.multi_trove_getter
    &&& a.sorted_troves == b.sorted_troves
    &&& a.collateral_index == b.collateral_index
    &&& same_path(a.derivation_path, b.derivation_path)
    &&& a.target_min == b.target_min
    &&& a.upfront_fee_period == b.upfront_fee_period
    &&& a.eoa_pk == b.eoa_pk
    &&& a.rpc_canister.0.bytes@ == b.rpc_canister.0.bytes@
}

/// Copies a derivation path.
pub fn clone_path(p: &DerivationPath) -> (r: DerivationPath)
    ensures
        same_path(r, *p),
{
    let mut r: DerivationPath = Vec::new();
    let n = p.len();
    for i in 0..n
        invariant
            n == p@.len(),
            r@.len() == i,
            forall|j: int| 0 <= j < i ==> #[trigger] r@[j]@ == p@[j]@,
    {
        let inner: Vec<u8> = p[i].clone();
        proof {
            assert(inner@ =~= p@[i as int]@);
        }
        r.push(inner);
    }
    r
}

impl Clone for StrategySettings {
    fn clone(&self) -> (r: StrategySettings)
        ensures
            same_settings(r, *self),
    {
        StrategySettings {
            key: self.key,
            batch_manager: self.batch_manager,
            hint_helper: self.hint_helper,
            manager: self.manager,
            collateral_registry: self.collateral_registry,
            multi_trove_getter: self.multi_trove_getter,
            sorted_troves: self.sorted_troves,
            collateral_index: self.collateral_index,
            derivation_path: clone_path(&self.derivation_path),
            target_min: self.target_min,
            upfront_fee_period: self.upfront_fee_period,
            eoa_pk: self.eoa_pk,
            rpc_canister: self.rpc_canister.clone(),
        }
    }
}

impl Default for StrategySettings {
    fn default() -> (r: StrategySettings)
        ensures
            r.key == 0,
            r.batch_manager == Address::zero_spec(),
            r.hint_helper == Address::zero_spec(),
            r.manager == Address::zero_spec(),
            r.collateral_registry == Address::zero_spec(),
            r.multi_trove_getter == Address::zero_spec(),
            r.sorted_troves == Address::zero_spec(),
            r.collateral_index@ == 0,
            r.derivation_path@.len() == 0,
            r.target_min@ == 0,
            r.upfront_fee_period@ == 0,
            r.eoa_pk is None,
            r.rpc_canister.0.bytes@ == seq![4u8],
    {
        StrategySettings {
            key: 0,
            batch_manager: Address::zero(),
            hint_helper: Address::zero(),
            manager: Address::zero(),
            collateral_registry: Address::zero(),
            multi_trove_getter: Address::zero(),
            sorted_troves: Address::zero(),
            collateral_index: U256::zero(),
            derivation_path: Vec::new(),
            target_min: U256::zero(),
            upfront_fee_period: U256::zero(),
            eoa_pk: None,
            rpc_canister: Service::default(),
        }
    }
}

impl StrategySettings {
    /// Sets the key for the strategy.
    pub fn key(&mut self, key: u32) -> (r: &mut Self)
        ensures
            *r == (StrategySettings { key, ..*old(self) }),
            *final(self) == *final(r),
    {
        self.key = key;
        self
    }

    /// Sets the batch manager contract address for this strategy.
    pub fn batch_manager(&mut self, batch_manager: Address) -> (r: &mut Self)
        ensures
            *r == (StrategySettings { batch_manager, ..*old(self) }),
            *final(self) == *final(r),
    {
        self.batch_manager = batch_manager;
        self
    }

    /// Sets the hint helper contract address for this strategy.
    pub fn hint_helper(&mut self, hint_helper: Address) -> (r: &mut Self)
        ensures
            *r == (StrategySettings { hint_helper, ..*old(self) }),
            *final(self) == *final(r),
    {
        self.hint_helper = hint_helper;
        self
    }

    /// Sets the manager contract address for this strategy.
    pub fn manager(&mut self, manager: Address) -> (r: &mut Self)
        ensures
            *r == (StrategySettings { manager, ..*old(self) }),
            *final(self) == *final(r),
    {
        self.manager = manager;
        self
    }

    /// Sets the collateral registry contract address for this strategy.
    pub fn collateral_registry(&mut self, collateral_registry: Address) -> (r: &mut Self)
        ensures
            *r == (StrategySettings { collateral_registry, ..*old(self) }),
            *final(self) == *final(r),
    {
        self.collateral_registry = collateral_registry;
        self
    }

    /// Sets the multi-trove getter contract address for this strategy.
    pub fn multi_trove_getter(&mut self, multi_trove_getter: Address) -> (r: &mut Self)
        ensures
            *r == (StrategySettings { multi_trove_getter, ..*old(self) }),
            *final(self) == *final(r),
    {
        self.multi_trove_getter = multi_trove_getter;
        self
    }

    /// Sets the sorted troves contract address for this strategy.
    pub fn sorted_troves(&mut self, sorted_troves: Address) -> (r: &mut Self)
        ensures
            *r == (StrategySettings { sorted_troves, ..*old(self) }),
            *final(self) == *final(r),
    {
        self.sorted_troves = sorted_troves;
        self
    }

    /// Sets the collateral index for this strategy.
    pub fn collateral_index(&mut self, collateral_index: U256) -> (r: &mut Self)
        ensures
            *r == (StrategySettings { collateral_index, ..*old(self) }),
            *final(self) == *final(r),
    {
        self.collateral_index = collateral_index;
        self
    }

    /// Sets the derivation path of the ECDSA signature for this strategy.
    pub fn derivation_path(&mut self, derivation_path: DerivationPath) -> (r: &mut Self)
        ensures
            *r == (StrategySettings { derivation_path, ..*old(self) }),
            *final(self) == *final(r),
    {
        self.derivation_path = derivation_path;
        self
    }

    /// Sets the minimum target for this strategy.
    pub fn target_min(&mut self, target_min: U256) -> (r: &mut Self)
        ensures
            *r == (StrategySettings { target_min, ..*old(self) }),
            *final(self) == *final(r),
    {
        self.target_min = target_min;
        self
    }

    /// Sets the upfront fee period constant, denominated in seconds.
    pub fn upfront_fee_period(&mut self, upfront_fee_period: U256) -> (r: &mut Self)
        ensures
            *r == (StrategySettings { upfront_fee_period, ..*old(self) }),
            *final(self) == *final(r),
    {
        self.upfront_fee_period = upfront_fee_period;
        self
    }

    /// Sets the EOA public key for the strategy.
    pub fn eoa_pk(&mut self, eoa_pk: Option<Address>) -> (r: &mut Self)
        ensures
            *r == (StrategySettings { eoa_pk, ..*old(self) }),
            *final(self) == *final(r),
    {
        self.eoa_pk = eoa_pk;
        self
    }

    /// Sets the RPC canister service for the strategy.
    pub fn rpc_canister(&mut self, rpc_canister: Service) -> (r: &mut Self)
        ensures
            *r == (StrategySettings { rpc_canister, ..*old(self) }),
            *final(self) == *final(r),
    {
        self.rpc_canister = rpc_canister;
        self
    }
}

} // verus!
