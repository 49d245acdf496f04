# tavily_hikari (verified core)

The logic of the Tavily Hikari proxy that can be stated and proved, written
in Verus, with a thin layer of ordinary Rust that performs the I/O.

- `src/` — the verified library:
  - `recharge` — Linux.do Credit recharge pricing, money formatting and
    calendar-month shifting.
  - `engine`, `error` — classification of reconciliation rounds, which
    outcomes clear which backoffs, integrity pauses, claimed-run results.
  - `summary_gate` — at most one reconciliation summary log line a minute.
  - `reservation` — the usage-attempt reservation and its bounded cleanup.
  - `markers`, `lines` — abandoned reservations per database and their
    marker files (one id per line).
  - `alert_projection`, `proxy` — row sort ids and cursors, slice
    selection and bookkeeping, coverage status and Dashboard refresh.
  - `pressure` — server pressure buckets and the checkpoints of their
    rebuild.
  - `calendar` — civil dates counted from the Unix epoch, and the span of
    instants chrono can hold.
  - `json` — parsed JSON documents and member lookup in them.
  - `ha` — SQL quoting for the HA snapshot restore, recovery messages.
  - `sqlite_tx` — the life of a raw `BEGIN IMMEDIATE` transaction.
  - `billing_repair` — which logged MCP requests owe search credits, and
    the repair report.
  - `text` — decimal rendering, zero padding, parsing and string helpers.
- `tests/` — tests of the library.
- `app/` — the repair command-line tool, and I/O drivers for some of the
  library's decisions (marker files, reservation cleanup, raw immediate
  transactions, the HA restore, the pressure buckets, and the alert
  projection's queries and state write). The repair tool is the only
  program; the drivers are type-checked, not run, and the alert
  projection slice itself has no driver, since reading its source rows
  rests on parts of the service that are not here.
