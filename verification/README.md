# pandagen

A verified library for the PandaGen operating-system workspace: the
capability, IPC and syscall layers, the kernel's scheduler, memory and
console pieces, the command palette, the text editor and its incremental
renderer, the workspace session, and the package, policy and pipeline
rules around them.

Everything under `src/` is checked by Verus. Each public function carries
a contract over mathematical views (`Seq`, `Map`, `int`, and a view of
each type), and the laws that relate several operations are stated as
public proof functions next to the code they speak of.

Layout:

- `src/` — the verified library, one module per subsystem, reached from
  `src/lib.rs`.
- `tests/` — ordinary Rust tests that run the compiled library.
- `app/` — the plain-Rust parts around the library: JSON payloads and the
  syscall and remote IPC transports, loading package manifests from disk,
  error types with `Display`, and shared cancellation state.

Calls into outside crates (`sha2`, `hex`, `uuid`) and a few `std` string
functions go through small trusted wrappers whose doc comments say what
their contracts assume of the outside code.
