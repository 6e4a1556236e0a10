# runtimo_core

The core of a runtime for the capabilities of an agent: a request is admitted by a guard, screened,
executed with a timeout, and logged from its start to its end, with telemetry before and after.
Around it stand the observation of processes into bundles that can be checked for tampering, an
oracle that evaluates properties over the event log, and the records in which facts of a run are
exchanged.

- `src/` is the library. It decides and computes on plain values, and Verus proves its contracts.
  Properties that span several functions are the proof functions named `law_*`.
- `app/` is what touches the machine: files, environment, clocks, processes, threads. It reads, asks
  the library, and carries out the answer.
- `tests/` run the library with the crates it calls.

The library calls five crates: `llmosafe` for pressure and the classification of text, `sha2` for
digests, `serde_json` for quoting, `toml` for reading the top level of a config file, and
`unicode-normalization` for composing paths. Each call stands behind a small function whose contract
says what is relied on.
