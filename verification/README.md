# converge_core

The convergence kernel of Converge, written in Verus: suggestors propose, the engine
promotes, and every run ends with an honest stop reason and an integrity proof.

## Layout

- `src/` — the verified library.
  - `context.rs`, `snapshot.rs`: the shared context (facts and staged proposals per
    key), its snapshots and their validation.
  - `engine.rs`, `agent.rs`, `agents.rs`: the convergence loop, eligibility in
    registration order, merge in ascending suggestor order, invariant enforcement,
    budgets, human-in-the-loop pauses and resumption. `converge_step` decides a cycle
    from the effects its suggestors returned; the runs are stated as that step iterated
    over those effects (`cycles_outcome`), so equal effects give equal runs.
  - `promotion.rs`, `validation.rs`, `types.rs`: the promotion gate (draft → validated
    → fact) and its records.
  - `integrity.rs`: SHA-256 content hashes, Merkle roots, Lamport clocks, tracked
    contexts.
  - `admission.rs`, `root_intent.rs`, `truth.rs`, `prompt.rs`, `recall.rs`, `stop.rs`,
    `error.rs`, `hitl.rs`, `authorization.rs`, `invariants.rs`, `eval.rs`,
    `experience_store.rs`, `traits/`: the remaining kernel vocabulary. What the users'
    own code returns (suggestors, invariants, evaluators, stores) is taken as given;
    the library states what it does with it.
  - `laws.rs`: properties that relate several operations (round trips, idempotence,
    the promotion lifecycle, stop-reason classes, snapshot restoring, recall
    selection).
- `tests/` — executable tests of the library.
- `app/` — host glue that Verus does not check: the JSON wire form of snapshots,
  `Display`/`Error` for the library's error values, and a blocking adapter for
  asynchronous suggestors.
