# messenger

The core of a peer-to-peer-first encrypted messenger: identities, signed and
encrypted envelopes, the relay's HTTP wire format, the client's records and
the decisions of the client and the developer tool. The library in `src/` is
written in Verus; every function states its behaviour in `requires` /
`ensures` and Verus proves it.

## Layout

- `src/text.rs`: text and byte helpers (hex, decimal, big-endian, UTF-8).
- `src/protocol.rs`: peer identifiers, message ids, envelopes and the bytes a
  signature covers.
- `src/crypto.rs`: Ed25519 / X25519 / BLAKE3 / XChaCha20-Poly1305 identities
  and sealed envelopes. Each primitive is one call into its crate; what the
  call computes is named by an uninterpreted function.
- `src/transport.rs`: relay URLs, HTTP requests and responses.
- `src/store.rs`: the records a client keeps and how they map to database
  rows.
- `src/client.rs`, `src/ffi.rs`, `src/engine.rs`: what the client decides when
  it sends and syncs, and the records it hands to the application.
- `src/cli.rs`, `src/server.rs`: the developer tool's commands and the
  server's health report.
- `app/`: the edges that Verus does not see: the SQLite store, the TCP
  exchanges with the relay, JSON forms of the library's types, the HTTP
  server and the command-line tool.
- `tests/`: tests of the library on concrete values.
