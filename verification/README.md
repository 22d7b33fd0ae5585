# grlog

An asynchronous logging library whose decision logic carries proved contracts.

- `src/` — the library: levels and filters (`level.rs`), the
  `RUST_LOG`-style filter spec parser and the builder (`builder.rs`, with
  string helpers in `text.rs` and the per-module filter map in
  `module_levels.rs`), the logger's filtering (`logger.rs`), line formatting
  (`formatter.rs`, which reads the clock through chrono), targets and their
  flattening into single destinations (`target.rs`, `writer.rs`), the
  process-wide install state (`registry.rs`) and the step function of the
  backend's writer loop (`backend.rs`).
- `app/` — the shell around it: the logging macros, the global registry,
  environment reading, the gorust channel and goroutine of the backend, and
  the console and file writers.
- `tests/` — tests of the library.
