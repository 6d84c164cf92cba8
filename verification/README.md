# defi_suite

Three DeFi contracts for Soroban whose logic is written and proved in Verus.

- `src/swap.rs` — constant-product pool: quotes, swaps with slippage
  protection, liquidity shares. Proved: a swap never lowers
  `reserve_a * reserve_b`, pays what the quote says, never drains a reserve;
  shares are outstanding exactly while both reserves are non-empty.
- `src/liquidity.rs` — concentrated-liquidity pool manager: pools, numbered
  positions, removal and fee collection. Proved: position ids are fresh,
  removing a position's liquidity restores its pool, fees are paid once.
- `src/lending.rs` — lending pool with a two-slope interest rate model and
  collateralised borrowing. Proved: a borrow takes only deposits not yet
  lent out and keeps the health factor at 1.0x or above, the borrow rate
  rises with utilization, suppliers earn no more than borrowers pay.
- `src/math.rs` — the division and product facts these proofs rest on.
- `src/account.rs` — account identities as strkey bytes.

Every operation is specified by a spec function that gives its exact
outcome: the new state and output, or the error, in which case the state is
unchanged.

`app/` wraps the library in Soroban contracts: authorization, instance
storage, ledger time and events. `tests/` exercises the library directly.
