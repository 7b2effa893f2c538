# stellar_fee_tracker

A Stellar network fee tracker and developer kit whose logic is verified
with Verus.

## Layout

- `src/` — the verified library.
  - `tracker/` — the fee tracking service: the bounded fee history,
    nearest-rank percentiles, alert dispatch planning with spike
    deduplication, webhook delivery decisions, polling retry decisions,
    the integer basis of wait advisories and the reading of Horizon
    transaction records.
  - `devkit/` — the developer kit: configuration validation, the circuit
    breaker state machine, backoff delays, the seeded sandbox, fixtures,
    assertions, formatters, CSV reading and writing, percentile tables,
    time windows, ledger gap detection and protocol version detection.
  - `text.rs`, `order.rs` — character-level string building and parsing,
    and sorting, with their specifications.
- `tests/` — tests of the library on concrete values.
- `app/` — the runtime around the library: HTTP clients, async polling
  loops, webhook sending, configuration loading, file I/O and the
  floating-point analytics (congestion scores, forecasts, trend and
  regime detection).

## Notes

- The set of seen spike identifiers (`tracker::alerts::SeenSpikes`) is a
  `Vec<String>` kept free of repeats by a type invariant, with a set as its
  view. A `HashSet<String>` was not tried: with `String` keys the
  specifications of std's hash sets do not let such a set's contents be
  proved, so the vector form was chosen from the start.
