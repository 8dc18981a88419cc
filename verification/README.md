# mail-sync-kit

Protocol-agnostic mail sync engines: JMAP sync (RFC 8620/8621), an outbox
queue with a documented retry schedule, and the decision points of the IMAP
engine. The library is written in Verus: executable Rust under `src/` with
contracts that are proved, but for what comes from other crates and from the
standard library.

## Layout

- `src/` — the library. It performs no I/O.
  - `jmap_sync` and `outbox_service` are state machines: they name the next
    action as a plain value, and the host answers with its outcome.
  - `jmap` describes the HTTPS exchanges, `jmap_parse` reads the responses,
    `ingest` builds the batches that the store takes.
  - `model`, `store`, `event`, `error`, `config`, `clock`, `sasl`, `secrets`
    and `json` are the vocabulary; `text`, `hex`, `show` and `sanitize` are what
    it is built from.
- `tests/` — the tests of the library.
- `app/` — the asynchronous drivers (reqwest, tokio), the `MailStore` trait,
  the serde forms of the vocabulary, and the rustls connector.

## Reading the contracts

Each service has a model of its state (`SyncState`, `OutboxState`) and a
function that says what follows an answer (`transition`, `outbox_transition`).
The step functions are proved to follow them, and the laws at the end of each
module are proved of them: that the reconnect delay doubles from 250 ms to
five minutes, that a flush settles every due entry once and tries none again
that failed for good, that a cursor survives the trip as a state token, and so
on.

What comes from other crates or from the standard library stands behind small
wrappers and specifications whose doc comments say what is taken on trust.

## License

MIT OR Apache-2.0.
