# lean-bench-workloads

Runs one aggregation workload per invocation and prints a JSON record of
per-sample timings.

- `src/` is the library, verified with Verus: the topologies that are
  benchmarked, the timed sample loop, the proof sizes that are surfaced, and the
  records with their metadata. The `serde_json` functions that it calls stand in
  `src/json.rs`, each behind a wrapper with a stated contract.
- `app/` is the program around it: the command line, leanVM's aggregation
  benchmark, the clock, and standard output. It needs leanVM's `rec_aggregation`
  crate (`rec_aggregation_main` for pins with the xmss API).
- `tests/` holds the library's tests.
