# diffsplitter

A conformance proxy for two backends that are meant to behave alike.

The proxy answers every request from the primary. Writes are queued and
replayed against the shadow; sampled reads are sent to both and their responses
compared. Differences are recorded, shown on a dashboard and a scoreboard, and
announced where they are critical.

* `src/` is the verified library: what the proxy decides, with contracts that
  Verus proves. It reads no files and opens no connections; time, responses and
  rows come in as plain values.
* `app/` is the program around it: HTTP, SQLite, metrics, logging and the
  environment.
* `tests/` runs the library on concrete values.

Where the library calls another crate, the call stands behind a small wrapper
whose doc comment says what is taken on trust: `serde_json` in `src/json.rs`,
`http` in `src/worker.rs`, the clock in `src/db.rs` and a few string functions
in `src/text.rs`.
