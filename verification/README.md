# SoroTip, verified

An on-chain tipping and creator monetization protocol for Stellar Soroban,
with its logic written and proved in Verus.

Supporters tip creators directly from their wallets, open monthly
subscriptions that any keeper can charge once due, and fund goals that
creators publish. The contract routes payments and keeps records; it never
holds funds.

## Layout

- `src/` — the verified library.
  - `types.rs`, `errors.rs` — the records and error codes.
  - `keyed.rs` — keyed record sequences and the maps they denote.
  - `storage.rs` — the contract's stored state, entry by entry, with its
    map view.
  - `env.rs`, `events.rs` — the environment of an invocation: the clock,
    the events it publishes and the token movements it asks for.
  - `contract.rs` — the entry points, each specified by a state transition.
  - `laws.rs` — properties proved over those transitions: the invariant
    every entry point keeps, payment routing, idempotence, one-shot setup,
    the subscription schedule, and the shape of the read results.
- `tests/` — the contract's scenarios, and tests of the library on concrete
  values.
- `app/` — the Soroban contract: authorization, the ledger's storage, token
  calls and event publication around the library.
