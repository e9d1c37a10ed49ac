//! The ckETH<>Cycles arbitrage and the ckETH recharge.
//!
//! Arbitrageurs attach cycles and receive ckETH at a discount; the canister keeps
//! its cycle balance below a threshold and mints ckETH by depositing ETH from its
//! EOAs when its ckETH balance runs low. A lock keeps one swap at a time.
//!
//! The calls to the ledger, the exchange rate canister and the EVM RPC canister are
//! made by the caller; this module decides what to ask and what follows from the
//! answers.

use vstd::prelude::*;
use vstd::string::StringSliceAdditionalSpecFns;

use crate::constants::{
    cketh_threshold, ether_recharge_value, scale, CYCLES_DISCOUNT_PERCENTAGE, CYCLES_THRESHOLD, SCALE,
};
use crate::gas::{gas_hex_digits, hex_bytes, hex_decode, is_hex_text, quantity_digits};
use crate::address::Address;
use crate::evm_rpc::SendRawTransactionStatus;
use crate::error::{arithmetic_err, plain_debug_char, quoted, ManagerError, ManagerResult};
use crate::strategy::stable::{same_strategy, StableStrategy};
use crate::types::SwapResponse;
use crate::uint::{be_value, checked_div, checked_mul, div, from_be_slice, U256};

verus! {

/// Whether the canister's cycle balance allows a swap: it must not exceed
/// `CYCLES_THRESHOLD`.
pub fn check_threshold(canister_balance: u64) -> (r: ManagerResult<()>)
    ensures
        canister_balance <= CYCLES_THRESHOLD ==> r is Ok,
        canister_balance > CYCLES_THRESHOLD ==> (r matches Err(e) && e is CyclesBalanceAboveRechargingThreshold),
{
    if canister_balance <= CYCLES_THRESHOLD {
        return Ok(());
    }
    Err(ManagerError::CyclesBalanceAboveRechargingThreshold)
}

/// Whether the ckETH balance has fallen below the threshold, so that more ckETH
/// must be minted.
pub fn needs_cketh_recharge(cketh_balance: U256) -> (r: bool)
    ensures
        r == (cketh_balance@ < 30_000_000_000_000_000),
{
    let threshold = cketh_threshold();
    cketh_balance.lt(&threshold)
}

/// Whether an EOA holding `balance` wei can fund the recharge deposit: it must
/// hold more than the recharge value.
pub fn can_fund_deposit(balance: U256) -> (r: bool)
    ensures
        r == (balance@ > 20_000_000_000_000_000),
{
    let value = ether_recharge_value();
    balance.gt(&value)
}

/// The strategies in the order the recharge tries their EOAs: rotated left by
/// `turn`, so that the strategy at `turn` comes first.
/// `turn` is at most the number of strategies.
pub fn rotate_strategies(strategies: &Vec<StableStrategy>, turn: u8) -> (r: Vec<StableStrategy>)
    requires
        turn <= strategies@.len(),
    ensures
        r@.len() == strategies@.len(),
        forall|k: int|
            0 <= k < r@.len() ==> same_strategy(
                #[trigger] r@[k],
                strategies@[(k + turn) % (strategies@.len() as int)],
            ),
{
    let n = strategies.len();
    let t = turn as usize;
    let mut r: Vec<StableStrategy> = Vec::new();
    for k in 0..n
        invariant
            n == strategies@.len(),
            t == turn,
            t <= n,
            r@.len() == k,
            forall|j: int| 0 <= j < k ==> same_strategy(#[trigger] r@[j], strategies@[(j + t) % (n as int)]),
    {
        let pos = if k < n - t {
            k + t
        } else {
            k - (n - t)
        };
        proof {
            if k < n - t {
                vstd::arithmetic::div_mod::lemma_small_mod((k + t) as nat, n as nat);
            } else {
                vstd::arithmetic::div_mod::lemma_mod_sub_multiples_vanish((k + t) as int, n as int);
                vstd::arithmetic::div_mod::lemma_small_mod((k + t - n) as nat, n as nat);
            }
        }
        r.push(strategies[pos].clone());
    }
    r
}

/// The position after the EOA at `index` of the list rotated by `turn`, counted
/// from the start of the unrotated list of `count` strategies, wrapping around.
pub open spec fn next_turn_position(index: int, turn: int, count: int) -> int {
    (index + turn + 1) % count
}

/// The turn counter after the EOA at position `index` of the rotated list made the
/// deposit: the position after it (`next_turn_position`), computed without
/// overflow and then kept in the counter's `u8` (its low 8 bits).
pub fn next_eoa_turn(index: usize, turn: u8, count: usize) -> (r: u8)
    requires
        index < count,
    ensures
        r == next_turn_position(index as int, turn as int, count as int) as u8,
{
    let a: usize = if index + 1 == count {
        0
    } else {
        index + 1
    };
    let b: usize = (turn as usize) % count;
    let position: usize = if a >= count - b {
        a - (count - b)
    } else {
        a + b
    };
    proof {
        let c = count as int;
        assert(a as int == (index as int + 1) % c) by {
            if index + 1 == count {
                vstd::arithmetic::div_mod::lemma_mod_self_0(c);
            } else {
                vstd::arithmetic::div_mod::lemma_small_mod((index + 1) as nat, c as nat);
            }
        }
        vstd::arithmetic::div_mod::lemma_add_mod_noop(index as int + 1, turn as int, c);
        vstd::arithmetic::div_mod::lemma_mod_bound(turn as int, c);
        assert(position as int == (a as int + b as int) % c) by {
            if a >= count - b {
                vstd::arithmetic::div_mod::lemma_mod_sub_multiples_vanish(a as int + b as int, c);
                vstd::arithmetic::div_mod::lemma_small_mod((a + b - c) as nat, c as nat);
            } else {
                vstd::arithmetic::div_mod::lemma_small_mod((a + b) as nat, c as nat);
            }
        }
        vstd::arithmetic::div_mod::lemma_small_mod(b as nat, c as nat);
        assert((a as int + b as int) % c == ((index as int + 1) % c + (turn as int) % c) % c);
    }
    #[verifier::truncate]
    (position as u8)
}

/// What the deposit loop does next with one strategy of the rotated list.
#[derive(Clone, Copy, Debug, PartialEq, Eq, Structural)]
pub enum DepositAction {
    /// Read the ETH balance of this EOA, then ask again with it
    FetchBalance(Address),
    /// Go on to the next strategy's EOA
    TryNext,
    /// Deposit from this EOA, after setting the turn counter to `next_turn`
    Deposit { eoa: Address, next_turn: u8 },
}

/// One step of the recharge deposit for the strategy at `index` of the list
/// rotated by `turn` (of `count` strategies). `balance` is `None` before the
/// balance was read, and then the outcome of reading it. A strategy without an
/// EOA, or whose balance could not be read, is passed over; the first EOA that
/// can fund the deposit makes it, and the turn moves past it.
pub fn deposit_step(
    strategy: &StableStrategy,
    balance: Option<ManagerResult<U256>>,
    index: usize,
    turn: u8,
    count: usize,
) -> (r: DepositAction)
    requires
        index < count,
    ensures
        match strategy.settings.eoa_pk {
            None => r == DepositAction::TryNext,
            Some(eoa) => match balance {
                None => r == DepositAction::FetchBalance(eoa),
                Some(Err(_)) => r == DepositAction::TryNext,
                Some(Ok(b)) => if b@ > 20_000_000_000_000_000 {
                    r == (DepositAction::Deposit {
                        eoa,
                        next_turn: next_turn_position(index as int, turn as int, count as int) as u8,
                    })
                } else {
                    r == DepositAction::TryNext
                },
            },
        },
{
    let eoa = match strategy.settings.eoa_pk {
        Some(eoa) => eoa,
        None => return DepositAction::TryNext,
    };
    match balance {
        None => DepositAction::FetchBalance(eoa),
        Some(Err(_)) => DepositAction::TryNext,
        Some(Ok(b)) => {
            if can_fund_deposit(b) {
                DepositAction::Deposit { eoa, next_turn: next_eoa_turn(index, turn, count) }
            } else {
                DepositAction::TryNext
            }
        },
    }
}

/// The outcome of the recharge deposit from what sending the transaction gave:
/// it succeeds only when the transaction was accepted. A failed send keeps its
/// error; a refused transaction (nonce or funds) is a `Custom` error.
pub fn deposit_outcome(sent: ManagerResult<SendRawTransactionStatus>) -> (r: ManagerResult<()>)
    ensures
        match sent {
            Ok(SendRawTransactionStatus::Accepted(_)) => r is Ok,
            Ok(_) => r matches Err(ManagerError::Custom(m)) && m@ == "The deposit transaction was not accepted."@,
            Err(e) => r == Err::<(), ManagerError>(e),
        },
{
    match sent {
        Ok(SendRawTransactionStatus::Accepted(_)) => Ok(()),
        Ok(_) => Err(ManagerError::Custom("The deposit transaction was not accepted.".to_owned())),
        Err(e) => Err(e),
    }
}

/// The outcome of the recharge deposit when no EOA could fund it.
pub fn no_funded_eoa() -> (r: ManagerResult<()>)
    ensures
        r matches Err(ManagerError::Custom(m)) && m@ == "No EOA had enough balance."@,
{
    Err(ManagerError::Custom("No EOA had enough balance.".to_owned()))
}

/// A hexadecimal quantity as JSON-RPC writes it: `0x` and between one and 64
/// hexadecimal digits (either case).
pub open spec fn is_hex_quantity(text: Seq<u8>) -> bool {
    &&& text.len() > 2
    &&& text[0] == 48u8
    &&& text[1] == 120u8
    &&& text.len() - 2 <= 64
    &&& is_hex_text(gas_hex_digits(text))
}

/// The ETH balance that the RPC canister answered to `eth_getBalance`: the
/// hexadecimal quantity `0x…`. Anything else fails with `DecodingError`.
pub fn balance_from_response(text: &str) -> (r: ManagerResult<U256>)
    ensures
        is_hex_quantity(text.spec_bytes()) ==> (r matches Ok(v) && v@ == be_value(
            hex_bytes(gas_hex_digits(text.spec_bytes())),
        )),
        !is_hex_quantity(text.spec_bytes()) ==> (r matches Err(e) && e is DecodingError),
{
    let bytes = text.as_bytes();
    let n = bytes.len();
    if n <= 2 || bytes[0] != 48u8 || bytes[1] != 120u8 || n - 2 > 64 {
        return Err(ManagerError::DecodingError("The balance is not a hexadecimal quantity".to_owned()));
    }
    let digits = quantity_digits(bytes);
    match hex_decode(digits.as_slice()) {
        Ok(decoded) => {
            proof {
                assert(decoded@.len() == digits@.len() / 2);
            }
            Ok(from_be_slice(decoded.as_slice()))
        },
        Err(_) => Err(ManagerError::DecodingError("The balance is not a hexadecimal quantity".to_owned())),
    }
}

/// The ckETH balance as the ledger reports it, scaled down by 10^18.
pub fn cketh_balance_units(raw_balance: U256) -> (r: U256)
    ensures
        r@ == raw_balance@ / (SCALE as nat),
{
    div(raw_balance, scale())
}

/// The ETH/CXDR rate from the exchange rate canister's answer: the rate divided by
/// the number of decimals it reports; an error when that number is zero.
pub fn ether_cycles_rate(rate: u64, decimals: u32) -> (r: ManagerResult<u64>)
    ensures
        decimals != 0 ==> r == Ok::<u64, ManagerError>(rate / (decimals as u64)),
        decimals == 0 ==> (r matches Err(ManagerError::Arithmetic(m)) && m@ == quoted(
            "ETH/CXDR decimals value was zero."@,
        )),
{
    match rate.checked_div(decimals as u64) {
        Some(v) => Ok(v),
        None => {
            let msg = "ETH/CXDR decimals value was zero.";
            proof {
                reveal_strlit("ETH/CXDR decimals value was zero.");
                assert forall|i: int| 0 <= i < msg@.len() implies plain_debug_char(#[trigger] msg@[i]) by {}
            }
            Err(arithmetic_err(msg))
        },
    }
}

/// The ETH/CXDR rate with the arbitrage discount applied.
pub open spec fn discounted_rate(ether_cycles_rate: u64) -> nat {
    (ether_cycles_rate * CYCLES_DISCOUNT_PERCENTAGE / 100) as nat
}

/// The most ckETH (in its smallest unit) that `attached_cycles` buy at `rate`.
pub open spec fn max_swap_return(attached_cycles: u64, rate: nat) -> nat {
    (attached_cycles * rate * SCALE) as nat
}

/// The ETH/CXDR rate with the discount applied; an `Arithmetic` error when it is
/// zero. The rate is at most `u64::MAX / 97`, so that the discount fits in a
/// `u64`.
pub fn swap_rate(ether_cycles_rate: u64) -> (r: ManagerResult<u64>)
    requires
        ether_cycles_rate * CYCLES_DISCOUNT_PERCENTAGE <= u64::MAX,
    ensures
        discounted_rate(ether_cycles_rate) == 0 ==> (r matches Err(ManagerError::Arithmetic(m)) && m@ == quoted(
            "The calculated ETH/CXDR rate is zero."@,
        )),
        discounted_rate(ether_cycles_rate) != 0 ==> r == Ok::<u64, ManagerError>(
            discounted_rate(ether_cycles_rate) as u64,
        ),
{
    let discount_percentage = CYCLES_DISCOUNT_PERCENTAGE;
    let rate: u64 = ether_cycles_rate * discount_percentage / 100;
    if rate == 0 {
        let msg = "The calculated ETH/CXDR rate is zero.";
        proof {
            reveal_strlit("The calculated ETH/CXDR rate is zero.");
            assert forall|i: int| 0 <= i < msg@.len() implies plain_debug_char(#[trigger] msg@[i]) by {}
        }
        return Err(arithmetic_err(msg));
    }
    Ok(rate)
}

/// The amounts of a ckETH<>Cycles swap, before any transfer.
///
/// The rate is the ETH/CXDR rate with the discount applied (97%); it must not be
/// zero. The caller can be paid at most `attached_cycles * rate * 10^18`; if the
/// canister holds more ckETH than that, that much is sent and every attached cycle
/// accepted, otherwise the whole balance is sent and `balance / 10^18 / rate`
/// cycles are accepted.
/// The rate is at most `u64::MAX / 97`, so that the discount fits in a `u64`.
pub fn plan_cketh_swap(ether_cycles_rate: u64, attached_cycles: u64, cketh_balance: U256) -> (r: ManagerResult<
    SwapResponse,
>)
    requires
        ether_cycles_rate * CYCLES_DISCOUNT_PERCENTAGE <= u64::MAX,
    ensures
        discounted_rate(ether_cycles_rate) == 0 ==> (r matches Err(ManagerError::Arithmetic(m)) && m@ == quoted(
            "The calculated ETH/CXDR rate is zero."@,
        )),
        discounted_rate(ether_cycles_rate) != 0 ==> (r matches Ok(swap) && if cketh_balance@ > max_swap_return(
            attached_cycles,
            discounted_rate(ether_cycles_rate),
        ) {
            &&& swap.returning_ether@ == max_swap_return(attached_cycles, discounted_rate(ether_cycles_rate))
            &&& swap.accepted_cycles@ == attached_cycles
        } else {
            &&& swap.returning_ether@ == cketh_balance@
            &&& swap.accepted_cycles@ == cketh_balance@ / (SCALE as nat) / discounted_rate(ether_cycles_rate)
        }),
{
    let rate = match swap_rate(ether_cycles_rate) {
        Ok(v) => v,
        Err(e) => return Err(e),
    };
    let attached = U256::from_u64(attached_cycles);
    let rate_u256 = U256::from_u64(rate);
    proof {
        assert(attached_cycles * rate <= u64::MAX * u64::MAX) by (nonlinear_arith)
            requires
                attached_cycles <= u64::MAX,
                rate <= u64::MAX,
        ;
        assert(attached_cycles * rate * SCALE <= u64::MAX * u64::MAX * SCALE) by (nonlinear_arith)
            requires
                attached_cycles * rate <= u64::MAX * u64::MAX,
        ;
        assert(u64::MAX * u64::MAX * SCALE < crate::uint::modulus());
    }
    let maximum = match checked_mul(attached, rate_u256) {
        Some(p) => match checked_mul(p, scale()) {
            Some(m) => m,
            None => {
                return Err(arithmetic_err("Overflow occurred when calculating the maximum possible Ether to return."));
            },
        },
        None => {
            return Err(arithmetic_err("Overflow occurred when calculating the maximum possible Ether to return."));
        },
    };
    if cketh_balance.gt(&maximum) {
        Ok(SwapResponse { accepted_cycles: attached, returning_ether: maximum })
    } else {
        let per_unit = div(cketh_balance, scale());
        let cycles = div(per_unit, rate_u256);
        proof {
            let b = cketh_balance@;
            let q = b / (SCALE as nat);
            assert(q <= attached_cycles * rate) by (nonlinear_arith)
                requires
                    b <= attached_cycles * rate * SCALE,
                    q == b / (SCALE as nat),
                    SCALE > 0,
            ;
            assert(q / (rate as nat) <= attached_cycles) by (nonlinear_arith)
                requires
                    q <= attached_cycles * rate,
                    rate > 0,
            ;
        }
        let accepted = cycles.to_u64();
        Ok(SwapResponse { accepted_cycles: U256::from_u64(accepted), returning_ether: cketh_balance })
    }
}

/// The lock of the ckETH<>Cycles arbitrage: one swap at a time.
///
/// The canister keeps one shared flag; each swap holds a `SwapLock`, which records
/// whether this swap took the flag.
#[derive(Debug, Default)]
pub struct SwapLock(pub bool);

impl SwapLock {
    /// Writes this lock's state to the shared flag.
    pub fn apply(&mut self, shared: &mut bool)
        ensures
            *final(shared) == old(self).0,
            *final(self) == *old(self),
    {
        *shared = self.0;
    }

    /// Acquires the lock for the ckETH<>Cycles arbitrage opportunity.
    ///
    /// Fails with `Locked`, changing nothing, if this lock or any other swap holds
    /// it already.
    pub fn lock(&mut self, shared: &mut bool) -> (r: ManagerResult<()>)
        ensures
            match lock_step(old(self).0, *old(shared)) {
                None => {
                    &&& r matches Err(e) && e is Locked
                    &&& *final(self) == *old(self)
                    &&& *final(shared) == *old(shared)
                },
                Some((held, flag)) => {
                    &&& r is Ok
                    &&& final(self).0 == held
                    &&& *final(shared) == flag
                },
            },
    {
        if self.0 || *shared {
            return Err(ManagerError::Locked);
        }
        self.0 = true;
        self.apply(shared);
        Ok(())
    }

    /// Releases the lock for the ckETH<>Cycles arbitrage opportunity.
    pub fn unlock(&mut self, shared: &mut bool)
        ensures
            !final(self).0,
            !*final(shared),
    {
        self.0 = false;
        self.apply(shared);
    }

    /// Ends a swap: a lock that this swap holds is released, with the shared
    /// flag; a lock that it never took leaves the shared flag to the swap that
    /// holds it.
    pub fn end_swap(&mut self, shared: &mut bool)
        ensures
            old(self).0 ==> !final(self).0 && !*final(shared),
            !old(self).0 ==> *final(self) == *old(self) && *final(shared) == *old(shared),
    {
        if self.0 {
            self.unlock(shared);
        }
    }
}

/// The outcome of taking the lock: `None` (refused) when this lock or another
/// swap holds it, otherwise this lock's and the shared flag's new states.
pub open spec fn lock_step(held: bool, shared: bool) -> Option<(bool, bool)> {
    if held || shared {
        None
    } else {
        Some((true, true))
    }
}

/// While one swap holds the lock, no other swap can take it; once it is released,
/// the next swap can.
pub proof fn lemma_swap_lock_exclusive(shared: bool)
    requires
        !shared,
    ensures
        lock_step(false, shared) == Some((true, true)),
        lock_step(false, (lock_step(false, shared)->0).1) is None,
        lock_step(false, false) == Some((true, true)),
{
}

} // verus!
