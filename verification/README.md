# logforth

A logging library whose logic is verified with Verus: levels and level filters, records and
their key-values, the `RUST_LOG` filter, the plain-text, JSON, text and Google Cloud Logging
layouts, the journald field encoding, the rolling file writer's naming, rollover and retention
rules, the asynchronous appender's hand-off to its worker, diagnostics, and the fastrace
integration.

## Layout

- `src/` is the verified library. Each public function states in `requires` and `ensures` what
  it does, over mathematical models of its types; laws that span several functions stand as
  public proof functions (named `lemma_*`) beside them. Calls into outside crates go through a
  few small trusted functions marked `#[verifier::external_body]`, each documented with what its
  contract claims.
- `tests/` runs the library on concrete values.
- `app/` is the unverified shell: the global logger, thread and task-local storage, file system
  access, the worker thread, terminal colours and JSON serialisation.

## Not included

- Floating-point, list and map values: a value is none, a string, bytes, a boolean, an integer,
  a character, or a rendered `Debug`/`Display` text.
- The OpenTelemetry appender; the severity number that it would send is `Level::severity_number`.
- An `Asynchronous` appender with an error sink; the asynchronous appender is the one in
  `append_async` and `app/`, which reports its errors through a trap.
