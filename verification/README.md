# governor

Rate limiting with structured evidence about each decision, verified with Verus.

A rate limiter lets cells through at the pace of a quota, following the generic cell rate
algorithm. Every decision is a single state transition; a `Decision` is the evidence of one.

- `src/` is the verified library.
  - `gcra` holds the model that all contracts speak of, and the state transition.
  - `decision` and `outcome` hold what a check returns.
  - `middleware` chooses what the outcomes of a plain check are.
  - `direct` and `keyed` hold the rate limiters.
  - `future` decides what a task that waits for a rate limiter does next.
  - `laws` states what holds of decisions and waits in general.
  - `clock`, `nanos`, `duration`, `nonzero`, `quota` and `errors` hold the types in use.
- `app/` shares a rate limiter between tasks, reads the clock, and sleeps.
- `tests/` runs the library.
