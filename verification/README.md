# salaryman

A small service manager: it keeps a list of services (a command line, a
working directory, whether to start at boot), starts and stops their processes
with their output appended to per-service log files, restarts the ones whose
process ended, and takes orders over a UNIX socket in a compact binary
protocol.

## Layout

- `src/` — the library, verified with Verus.
  - `ids.rs` — service identifiers (UUIDs) and their canonical text.
  - `text.rs` — whitespace splitting of argument strings.
  - `service.rs` — service configurations and the process lifecycle: what a
    start, stop, restart or stdin write needs, and the record of it.
  - `wire.rs` — the field encodings of the protocol (bincode's standard
    configuration) and bounded reads of them.
  - `protocol.rs` — the protocol's packets, their encoding and decoding (with
    the proof that decoding an encoding gives the packet back) and replies.
  - `daemon.rs` — the socket daemon: requests to commands and replies, the
    actions each command takes on the list of services, configuration paths.
  - `api.rs` — the HTTP management daemon's state and endpoint logic.
- `tests/` — tests of the library on concrete values.
- `app/main.rs` — the socket daemon program: configuration files, processes,
  threads and the socket, driven by the library's decisions.
