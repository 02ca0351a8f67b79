# amm

A constant-product automated market maker whose pool logic is verified with
Verus.

- `src/utils/cpmm.rs`: the constant-product curve (`x * y = k`) with an input
  fee, proportional deposits and withdrawals, and the fixed-point fee-growth
  accumulators. `src/utils/cmm.rs`: a second curve that recomputes the output
  reserve as a quotient.
- `src/state.rs`: pool (`Config`) and position state, the authority check, fee
  settlement, and the mint order.
- `src/instructions/`: each instruction as a step from the pool state and a
  request to the next state, the token transfers to perform and, for deposits
  and withdrawals, the liquidity tokens to mint or burn.
- `src/laws.rs`: proved properties that span operations (the product of the
  reserves never decreases, fee shares never exceed the fees paid, a deposit
  followed by a full withdrawal gives everything back, a locked pool refuses
  every operation, and more).
- `app/`: the Anchor program around the library: account validation and
  storage, the token transfers (`transfer_checked`) and the liquidity-token mints and
  burns the library asks for.
- `tests/`: the curve's unit tests and pool scenarios run on an in-memory
  ledger of token balances.
