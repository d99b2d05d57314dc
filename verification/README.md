# amm-math

A constant-product (`x * y = k`) automated market maker for Solana, with its
integer math and the decision logic of every instruction written in Verus and
proved against their specifications.

- `src/` is the verified library:
  - `math.rs`: ceiling division, overflow-checked `a * b / d` (floor and
    ceiling), the integer square root (Newton's method), narrowing to `u64`.
  - `swap.rs`: fee deduction and the exact-input / exact-output swap formulas;
    their contracts give each quote exactly and prove that `k` never shrinks
    and that rounding always favors the pool.
  - `liquidity.rs`: first deposit (`sqrt(a * b)` minus the locked
    `MINIMUM_LIQUIDITY`), later deposits (no dilution) and withdrawals (no
    overpayment), with the add-then-remove round trip proved unprofitable.
  - `instructions.rs`, `admin.rs`, `state.rs`: the pool's instructions as
    functions from the state they read to the error they return or the token
    movements they make; the lock, slippage and authority rules are part of
    their contracts, and the authority laws (renouncing is final, rotation
    transfers the privilege, the lock never gates the authority) are proved.
  - `addresses.rs`: the pool's program-derived and associated token addresses.
- `app/` is the Anchor program: it loads the accounts, asks the library what to
  do, and performs the token transfers, mints and burns.
- `tests/` runs the library on the scenarios of the pool's life cycle.
