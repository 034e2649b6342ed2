# parallel_pallets

Verified logic of two decentralised-finance pallets, written in Verus:

- `src/amm.rs`: an automatic market maker with constant-product pools.
- `src/loans.rs` and `src/loans/`: a lending protocol that pools what users
  supply, lends it against collateral, and lets others repay the debts of
  accounts that fall short.

A dispatch is a function on the stored state. It returns the error that it
refuses with, or the event to emit and the calls to make on the currency
ledger. The contracts state both exactly, as functions of the state before the
call. A refused dispatch changes nothing.

What holds of a pallet as a whole is proved in `src/amm/laws.rs`,
`src/loans/laws.rs` and `src/loans/circulation.rs`.

Fixed point numbers, parts of a whole, the square root, the Blake2 digest and the
accounts of pallets come from the Substrate crates. `src/substrate.rs` says what
is taken from them without proof.

`app/` holds the runtime around the library: storage, origins, the currency
ledger, the price oracle and events.
