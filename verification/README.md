# credit_data_simulator

A multi-service credit data pipeline simulator for Indonesian banking data
(SLIK reporting): a core banking source of credit records, a service of
versioned field mappings, a service of versioned validation rulepacks, a
regulator (OJK) submission endpoint, and a workflow engine that hands
submissions to the regulator with retries.

The behaviour of every service is a library verified with Verus; the HTTP
servers and the command-line data generator are a thin layer around it.

## Layout

- `src/` — the verified library
  - `credit.rs` — credit records, their generation from seeded ChaCha8
    streams, and error injection
  - `core_banking.rs` — the record store: paging, cursors, cutoff windows,
    generation, loading, reset
  - `mapping_service.rs`, `rulepack_service.rs` — the catalogues and
    record validation
  - `regulator_endpoint.rs` — submissions, idempotency, response modes,
    listing and status lookups
  - `engine.rs` — artifacts, retry runs, audit trails, evidence packs and
    the dead-letter queue
  - `config.rs`, `common.rs` — configuration, statistics, response envelopes
  - `json.rs`, `text.rs`, `clock.rs`, `random.rs` — JSON values as plain
    data, decimal text, time and random streams
- `app/` — the HTTP servers (axum), the `datagen` command, and the wire
  forms of the library's types
- `tests/` — tests of the library

Generated records draw their names from four comma-separated lists read at
start-up from `data_preparation/` (or the directory named by
`CREDIT_SIM_NAMES_DIR`).
