# rauha

The verified core of Rauha, a sandbox runtime that runs agent tasks in zones.

`src/` is the library, which Verus verifies:

- `enforcement`, `noop`, `conformance`, `linux`: the vocabulary between the runtime
  and what enforces a zone, a backend that enforces nothing and says so, the
  contract that every backend meets, and the decisions of the eBPF backend.
- `evidence`: canonical events, how they are built, bounded, redacted and rendered.
- `kernel_events`: the kernel's records as events.
- `offsets`, `offsets_default`: kernel struct offsets, and the sidecar that binds an
  object to them.
- `shim`: what a container's launch needs, and the handshake that keeps a workload
  from running before it is in its zone.
- `service`, `status`: the zone, container, image and sandbox services.
- `cli`, `daemon`: the command line's and the daemon's own decisions.
- `text`, `number`, `ordered`, `paths`, `json`: what the rest is written with.

Public proof functions whose names start with `law_` state what holds across
functions. Functions marked `external_body`, and `assume_specification` items, are
the places where an outside crate is called; the comment above each says what is
taken on trust.

`tests/` runs the library with the outside crates linked. `app/` is ordinary Rust
around it: processes, files, sockets and the log.
