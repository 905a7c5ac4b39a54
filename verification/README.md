# pkwiz_solver

The decision-making core of a GTO poker solver that is driven over newline-delimited JSON:
a job ledger and queue, spot and board validation, the tree-edit line grammar, the card and
action encodings, hand classification, memory budgets, convergence-curve decimation, and the
choices the analysis traversals make at each node. Every function in `src/` carries a Verus
contract and is proved against it.

## Layout

- `src/` — the verified library.
  - `ledger.rs` — `JobBook`, the ledger of every job and the queue's decisions; every
    transition keeps terminal phases final and never reuses an id.
  - `jobs.rs` — phases, kinds, progress records, job errors with their codes and messages.
  - `spot.rs` — boards, edit lines, amount and lock checks, with their errors.
  - `engine.rs` — memory budgets, the bunching peak gate, the solve loop's stop rule, curve
    decimation, history replay and lock checks.
  - `analyze.rs` — report and dump requests and the per-node traversal decisions.
  - `classify.rs` — made-hand categories and draws.
  - `cards.rs`, `convert.rs`, `text.rs` — card names, actions, decimal text.
  - `protocol.rs` — protocol and engine identity.
- `tests/` — tests of the library, run against the compiled crate.
- `app/` — the program around the library: the JSON wire shapes, the session loop, the worker
  thread, and the calls into the solving engine.
