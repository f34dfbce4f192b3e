# txoscope

Account- and scope-aware UTXO observation, reconciliation, selection,
reservation and operation lifecycle management, written in Verus: each public
function carries a contract over a mathematical model of the state
(`StoreModel`), and the library's laws are proof functions checked by Verus.

## Layout

- `src/` — the verified library.
  - Domain values: `ids`, `text`, `state`, `capability`, `outpoint`, `errors`,
    `lock`, `operation`, `account`, `observation`, `utxo`, `utxo_status`.
  - Policies: `asset_selection` (pure asset selection), `selection_laws`
    (its order independence, coverage, fee-support and merge properties),
    `sorting`, `selector` (scope-aware selection), `selection_request`,
    `validation`.
  - State: `store` (the state model and the `StateRead`/`StateStore` traits),
    `table`, `memory` (the in-memory backend), `reconciliation`, `replay`
    (what applying an applied batch again does).
    The crate ships one storage backend, the in-memory one; a persistent
    backend (such as a database) implements `StateStore` against the same
    model, and `codec` holds the text encodings such a backend stores. No
    database backend is included.
  - Services: `orchestrator` (operations, intents, recovery, cleanup),
    `service` (the application facade), `asset_service` (asset preview and
    planning), `clock` (system clock and reservation identities), `codec`
    (persisted text encodings), `sim` (invariant checks and metrics).
- `tests/` — behaviour tests run against the compiled library.
- `app/` — an example program that observes one output and reserves it.
