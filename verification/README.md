# hekate

The verified core of HEKATE, a runtime for one continuing relationship
between a user and HEKATE. The event ledger is canonical; the current state
is its projection. This crate holds the logic that decides what goes into
the ledger and what the projection holds, each function with a contract
proved by Verus.

## Layout

- `src/` — the library:
  - `projector` — applying ledger events to the projection and replaying a
    ledger, with the laws of replay; `position_integration` — turning a
    verified Position candidate into one of HEKATE's Positions.
  - `recovery` and `agree` — checking a stored projection against its
    ledger at startup.
  - `engine` — the decisions of one interaction (observations accepted,
    duplicates answered, stale cycles refused, actions planned under policy,
    approvals and executions, memory promotion).
  - `continuity`, `focus`, `context` — which work an observation
    continues and what the thought context holds; `context_content` and
    `snapshot` — the rest of its content and the hash that seals it;
    `context_builder`,
    `context_middle`, `context_recent`, `context_sources` — the anchors,
    middle and recent sections of a context snapshot and its source
    references.
  - `deliberation`, `contest` — validating HEKATE's judgment.
  - `completion` — when a task may complete: criteria, claims and evidence.
  - `sleep`, `sleep_candidates`, `sleep_worker`, `memory_integration`,
    `integration` — background consolidation and the integration of what it
    proposes.
  - `initiative`, `initiative_worker`, `backoff`, `interval` — worker
    scheduling.
  - `response_profile`, `embedding`, `recall` — how HEKATE answers and
    what it recalls.
  - `table`, `model`, `state`, `text`, `format`, `ids`, `json` — the data
    model and plain-value helpers; `ids`, `format`, `json` and `text` hold
    the few trusted wrappers over `uuid`, `sha2`, `serde_json` and `std`.
- `tests/` — tests of the library on concrete values.
- `app/` — the async workers, recovery over a store, materializing a
  Memory against a store, and serializable forms of the reports.
