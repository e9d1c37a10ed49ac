# Interest Rate Manager

Liquity V2's autonomous interest rate manager, an Internet Computer canister that
keeps a batch manager's interest rate at the position its strategy targets, pays
for its own gas by buying cycles with ckETH, and halts itself when no strategy
works any more.

## Layout

- `src/` is the verified library (Verus): the canister's rules and computations,
  each proved against its contract. Where a decision alternates with chain or
  canister calls (a strategy run, the rate adjustment attempts, the recharge
  deposit), `src/` holds its steps and `app/` runs the loop around them:
  - `uint`, `address`: 256-bit amounts and Ethereum addresses;
  - `strategy/`: strategy settings, runtime data, the timeout lock, the store, the
    rate adjustment rules (`executable`) and the runner (`run`);
  - `providers`, `rpc`: provider reputations and ranking, answers of
    multi-provider calls, retries with larger responses or other providers;
  - `gas`, `transaction`, `signer`: fees, gas limits, unsigned transactions and
    the address of a tECDSA key;
  - `charger`, `canister`: the ckETH<>Cycles swap, the ckETH recharge, and the
    checks of the canister's public methods;
  - `journal`, `cleanup`, `halt`: logs and their pruning, the reputation reset and
    the halting service.
- `tests/`: tests of the library.
- `app/`: the canister around the library: entry points, timers, state, and the
  calls to the EVM RPC canister, the ledger, the exchange rate canister and the
  management canister.

Verify with `verus` on `src/lib.rs`; `cargo test` runs the tests.
