# webworker

Runs Rust functions in a browser web worker and hands their results back, with
a demo that uncompresses BLS validator public keys and one that sorts bytes.

- `src/` is the verified library: the table of tasks waiting for a response
  (`tasks.rs`), the optional per-worker task limit (`limit.rs`), the pool
  scheduler (`pool/`), the worker script (`script.rs`), number parsing and
  list formatting (`text.rs`), the sorting demo (`demo.rs`) and the BLS key
  demo (`keys.rs`).
- `app/` is the browser side: the `Worker` and its message callbacks, the
  async `run` methods, the serde copies of the library's types, and the
  page entry points.
- `tests/` holds the tests of the library.
