# indelible

The integration core of Indelible, a read-it-later service, written in Verus:
every function in `src/` carries a contract that Verus proves.

- `src/` — the verified library: YouTube URL recognition and dispatch, feed
  provider candidates, the Miniflux sync and read-state push, the OAuth
  callback and connection removal, the worker's integrity check and feed
  scheduling, export summaries, and the payloads of the HTTP API. Work that
  waits on a store, a provider or the network is a state machine here: it
  names the next action and takes back what came of it.
- `src/outside.rs` — the calls into `url`, `validator`, `uuid` and std whose
  contracts are trusted rather than proved.
- `tests/` — tests of the library on concrete values.
- `app/` — the unverified shell: HTTP handlers, Postgres queries, HTTP calls
  to Miniflux and the worker loops, each driving the library's decisions.
