# rust_extensions

Building blocks for time handling, binary helpers, queues and small async runners, with the
logic verified by Verus.

## Layout

- `src/` — the verified library.
  - `date_time/` — instants in microseconds, calendar fields, RFC 3339 / 2822 / 5322 / 7231
    text, time zones, interval keys (year down to minute buckets) and the laws that tie them
    together (round trips, order).
  - `hex/`, `binary_payload_builder.rs`, `binary_search.rs` — byte and search helpers.
  - `idempotency/` — the key state machine of the idempotency cache: what a caller of a key
    gets (the memorized result, a place in line, or the execution), commits, releases and
    the cap on memorized results.
  - `queue_to_save/`, `queue_to_save_or_delete_with_id/` — what is pending to be saved (the
    latter in a hash map, one state per id).
  - `my_timer/`, `exact_timer/`, `events_loop/`, `background_executor/` — the decisions of the
    runners, each loop as a step function from what it saw to what it does next: the timer
    (run every tick, run again at once those that asked), the exact timer (sleep towards a
    wall clock mark, run a pass), the events loop (serve each event, repeat a handed-back
    model, drop a failed event), and the triggers left per thread.
  - `linq.rs`, `min_key_value.rs`, `as_str.rs`, `wrapped_type.rs`, `keyed_entries.rs` (ids
    that key hash maps).
- `app/` — the Tokio runners, the serde formats and the `chrono` conversions that drive the
  library.
- `tests/` — the tests, run against the compiled library.

Calls into `chrono` and into `std` functions that Verus does not specify go through small
trusted wrappers, each documented with what its contract claims.
