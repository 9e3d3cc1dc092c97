# buildkit_sdk

A BuildKit SDK whose logic is verified with Verus: building LLB graphs and
serializing them to a `Definition`, the client side of file synchronization
and image loading, container-engine selection, and the maintenance commands
that keep the vendored BuildKit protocol files current.

## Layout

- `src/` — the verified library.
  - `wire.rs` — protobuf wire encoding, specified and written.
  - `digest.rs` — `sha256:` content digests.
  - `llb/` — operation messages (`pb.rs`), graphs and their serialization
    (`graph.rs`), sources, file/merge/diff operations, and the state API
    (`state.rs`).
  - `session/` — which context paths a sync request covers, the files the
    server may request, and how an image load ends.
  - `client.rs` — solve options and session headers.
  - `protos.rs` — command lines, version tags, module lists, vendor paths and
    addresses of the maintenance commands.
  - `util/` — OCI engine names and default search paths.
- `tests/` — tests of the library.
- `app/` — the I/O around it: writing definitions, walking a context,
  feeding an engine's `load`, talking to GitHub, and the standard formatting
  traits on a copy of the engine type.

Calls into `sha2`, `shlex`, `path-clean`, `semver` and a few std functions go
through small trusted wrappers whose contracts are stated next to them.

The daemon client's gRPC calls (connect, info, disk usage, workers, solve,
status, opening a session) and the session's gRPC servers are not here: they
need BuildKit's generated protocol crate, which this project does not have.
What they decide — solve-option validation and the session's opening
headers — is in `src/client.rs`.
