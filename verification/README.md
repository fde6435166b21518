# asupersync (verified core)

The deterministic core of the asupersync runtime, written in Verus: each
public function states its behaviour in `requires`/`ensures` over
mathematical models, and the library's laws are proof functions named
`law_*`.

Layout:

- `src/messaging/` — the FABRIC subject language (`subject`), delivery
  classes (`class`), service contracts and request/reply obligations
  (`service`), morphisms (`morphism`), degradation planning (`policy`),
  placement, cells and the in-process packet log (`fabric`), and
  privacy-preserving metadata export (`privacy`).
- `src/obligation/ledger.rs`, `src/record.rs` — the obligation ledger:
  every obligation is reserved once and resolved at most once.
- `src/net/dns/cache.rs` — the TTL-bounded, capacity-bounded DNS cache.
- `src/web/middleware.rs` — CORS and retry decisions of the middleware
  layers.
- `src/types/` — runtime values, outcomes and the wasm boundary ABI.
- `src/lab/` — dual-run (lab vs. live) comparison and seed derivation.
- `src/http/`, `src/compat/` — HTTP/1 value types and runtime bridges.
- `app/` — what the verifier does not see: locks around shared state, the
  asynchronous fabric handle, floating-point privacy budgets and latency
  hedging, serde wire forms, and hyper timer glue.

`tests/` exercises the library from outside.
