# worker_pool_demo

A task pool with one task format for two hosts: native threads (rayon, tokio)
and a browser pool of Web Workers.

- `src/` is the verified library (Verus): the task types, `process_task` and its
  decimal rendering, the parallel batch on rayon, and the decisions of the
  browser pool (round-robin assignment, worker answers and delays, reply handling),
  with the laws that they keep.
- `app/` is the plain Rust around it: the serde forms of the task types, the async
  native pool on tokio, and, on `wasm32`, the Web Worker pool and its JavaScript exports.
- `extras/worker.js` is the worker script that the browser pool starts.
