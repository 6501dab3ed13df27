# hanashite

A voice-chat server library whose logic is verified with Verus.

* `src/hanashite_server` – the server state (connections, users, channels),
  the login handshake with Ed25519 challenges, channel joins and parts, and
  what a connection's reader answers. `server/laws.rs` states the
  properties that span several requests.
* `src/hanashite_message` – the control messages, their identifiers and the
  stream codec's framing decisions.
* `src/rust_hanashite` – a server with roles and named channels, and its
  handlers; `server/laws.rs` holds its laws.
* `src/rust_server` – the voice relay: control handlers, the UDP packet
  logic, a fixed-layout binary message builder; `laws.rs` holds its laws.
* `src/framing.rs`, `src/ids.rs`, `src/idset.rs`, `src/crypto.rs` – the
  stream header encoding, UUID bytes, identifier sets and tables, and the
  cryptographic calls.
* `app/` – the program: configuration files, logging, the tokio network
  loops and the protocol-buffers copies of the message types.
* `tests/` – tests of the library on concrete values.
