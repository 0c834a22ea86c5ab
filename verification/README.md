# rentaneko

A managed Simulacat Core simulator lifecycle for Rust tests, with its
decisions verified in Verus.

- `src/` is the verified library:
  - `capture` — the bounded diagnostic capture of the runner's output and the
    lock-protected capture shared with the stderr pump;
  - `readiness` — classification of the runner's NDJSON events and the scan of
    stdout that reports readiness once;
  - `lifecycle` — startup and teardown decisions, the base URI, and the errors
    they produce;
  - `process` — process-group addressing and signalling of the owned child;
  - `config` — the v1 seed configuration handed to the runner;
  - `suite` and `text` — the workflow suite contract (each pull request runs
    the test suite once) and the text primitives it reads workflows with;
  - `error` — `RentanekoError`.
- `app/` holds the I/O around it: the `Simulator` handle with its async start
  and shutdown, the output pumps, the configuration file, and the displayable
  error type.
- `tests/` exercises the library on concrete values.
