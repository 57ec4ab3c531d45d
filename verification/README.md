# magazine_core

A plugin-based publication metadata ingestion framework on SQLite, with its
decision logic verified by Verus.

- `src/` is the verified library: the stdio frame codec, canonical JSON (keys
  sorted at every depth) and the pinned golden messages, the JSON-RPC message
  builders, the plugin definition catalog, the discover session (what the host
  does with each plugin message), record spooling budgets, the safe host fetch
  policy (allowed domains, redirect re-validation, forbidden addresses, size
  cap), record validation, database opening rules and content fingerprints,
  the command-line parsers, and the HTTP pieces of the two loopback web hosts
  (request heads, `Host`/`Origin` guards, query decoding, the extension
  registry, broker and provider contracts).
- `app/` is the `mh` program around it: SQLite access through rusqlite, the
  plugin subprocess and its pipes, DNS and HTTP through reqwest, sockets, and
  serde conversions. `mh ui-ext` starts the trusted extension host.
- `tests/` runs the library on concrete values.
