# colink

The verified core of the CoLink desktop client.

- `src/protocol` — message types and payloads, binary data frames, control
  commands, protocol version checks.
- `src/runtime` — file transfer decisions (offers, routes, checksums,
  transfer tokens, chunk reassembly, acknowledgement progress, transfer
  records), remote filesystem listings, uploads and request history, remote
  camera and terminal sessions, camera capture state, H.264 framing,
  clipboard hashing, message dispatch.
- `src/notes` — note API helpers, three-way merges, and the synchronisation
  state machine of notes and tags.
- `src/shell.rs`, `src/service.rs`, `src/state.rs` — desktop entry, device
  naming, update URLs, shared-file queue.
- `app/` — the unverified shell: file system, threads, clocks, processes and
  floating-point rates.
- `tests/` — executable tests of the library.
