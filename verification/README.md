# chromancy

A client for WLED LED controllers, organised into sync groups (one leader,
any number of followers) and fleets of such groups, with an MCP server on top.

## Layout

- `src/` — the library, verified with Verus. It holds the WLED JSON data model,
  the configuration model and its validation, sync groups and fleets, and every
  decision taken around an HTTP exchange: endpoint paths, status
  classification, error mapping, the single retry with jitter, cache lifetime,
  preset/effect/palette resolution, sync-health reports, re-sync requests and
  the combination of per-group failures. Contracts are stated over views
  (`WledClient@`, `WledSyncGroup@`, `WledFleet@`, …) and spec functions; laws
  that span several functions are public proof functions (`lemma_*`).
- `app/` — the program around it: TOML loading, HTTP with `reqwest`/`tokio`,
  JSON with `serde`, OpenTelemetry setup and the `rmcp` tool server. It hands
  plain values to the library and performs the actions the library decides.
- `tests/` — tests of the library on concrete values.
