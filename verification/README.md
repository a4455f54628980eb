# FastSync

FastSync copies directory trees between devices on a local network. Devices find
each other by UDP broadcast, authenticate with Ed25519 keys bound to the TLS
certificate of a QUIC connection, and transfer files in hashed chunks that can be
resumed and reused.

- `src/` is the library. It holds the rules: paths, manifests, hashing and chunk
  plans, the state of senders and receivers, the handshake, the wire frames, the
  rows of the database, the control of jobs. Every function that decides or
  computes carries a contract, and Verus proves it; of a random draw there is
  nothing to state. What a proof takes from an outside crate is stated at the
  wrapper that makes the call.
- `tests/` runs the library on concrete values.
- `app/` is the agent around it: sockets, files, SQLite, HTTP, encodings and the
  command line. It takes its decisions from the library.
