# dev-fuzz

Fuzzing harness integration for Rust, verified with Verus. It configures
`cargo fuzz` (libFuzzer) runs, decides what to run and what a run's output
means, parses libFuzzer's stderr into findings with reproducer paths, applies
the severity policy (crash: critical, out-of-memory: error, timeout: warning)
and turns results into `dev_report` reports.

Layout:

- `src/` — the verified library.
  - `text.rs`: character-level helpers (trimming, searching, `lines`,
    decimal notation) tied to spec functions.
  - `kinds.rs`: severities, finding kinds, sanitizers, budgets.
  - `config.rs`: the `FuzzRun` builder.
  - `findings.rs`: findings, results, errors.
  - `parse.rs`: the libFuzzer stderr parser.
  - `runner.rs`: allow-list, decisions on process output, and the run as a
    sequence of steps (`FuzzRun::step`): probe `cargo fuzz`, list the
    toolchains, list the targets (a listing without the target ends the run
    with `TargetNotFound`; no listing at all lets the fuzzer report), then
    launch the fuzzer.
  - `report.rs`: conversion into `dev_report::Report`.
  - `producer.rs`: `FuzzProducer`.
- `app/` — process spawning (`Execute::execute`), the `dev_report::Producer`
  implementation, `Display` for errors, and the serde wire types.
- `tests/` — tests run against the compiled library.
