# egregore

A memory for code and for the agents that work on it: a graph of records (nodes, edges
and tombstones), the rules by which a daemon takes records in, and the questions that can
be put to them.

- `src/` is the library. Everything in it is verified: each function states what it
  returns, and the laws that span functions are the public proof functions whose names
  begin with `law_`.
- `src/outside.rs` holds what is taken from other crates on trust: hashes, JSON, times and
  random bytes.
- `tests/` runs the library.
- `app/` is the code around it: files, sockets, threads, JSON and floating point. The kind
  of agent that is named by its product is read from `EGREGORE_PRODUCT_KIND`.

Where to begin:

| Module | What it holds |
| --- | --- |
| `ir` | the records |
| `write`, `jobs`, `requests`, `queries`, `http`, `responses`, `daemon` | the daemon and its client |
| `evidence_rules`, `evidence_edges`, `evidence_synthesis`, `record_rules`, `ingest_rules` | what is accepted |
| `evidence_freshness`, `freshness_laws`, `freshness_query`, `criteria_coverage`, `coverage_query` | how far the evidence holds |
| `crate_attribution` | which package a file belongs to |
| `codex_events`, `codex` | the import of agent sessions |
| `embeddings` | how far the meaning of code has moved |
| `decide` | decisions on proposed rules |
| `commit_view`, `history`, `reach`, `reach_report`, `symbol_results`, `inventories`, `subsystem` | questions to the graph |
