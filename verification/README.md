# Empire

The rules of the Empire strategy game server, verified with Verus.

`src/` is the library. Its functions carry contracts that Verus proves:

- `net` — the binary wire protocol (`buffer`, `packet`), the authentication
  of a request as a sequence of steps (`auth`) and request identifiers
  (`request_id`).
- `game` — experience curves (`exp`), building availability, construction and
  upgrades (`buildings`, `building_service`), modifier stacking, caching and
  jobs (`modifiers`), resource production and collection (`resources`), unit
  training (`units`) and player updates (`player_operations`).
- `job_queue` — how jobs are created, picked, locked, reclaimed, completed
  and retried.
- `domain`, `models` — the data the rules work on, including exact decimals.
- `time`, `telemetry` — instants as RFC 3339 text, and log filter directives.

A few small functions are not proved but trusted: each is marked
`#[verifier::external_body]`, makes one call into an outside crate or std,
and states in its contract what that call returns. They are the big-integer
operations under `domain::decimal` (`num-bigint` through `bigdecimal`), the
decimal division and conversion to `i64` (`bigdecimal`), the ULID source
of request identifiers (`ulid`), the RFC 3339 formatting and parsing in
`time` (`chrono`), and the lossy UTF-8 decoding in `net::buffer` (std).

The library takes what it decides on as plain values (stored records,
answers of outside checks, the current time) and hands back decisions and
new states. Storing those records, the HTTP server and the job workers are
not part of this crate.

`app/` is the process around it: logging set-up, the UDP packet receiver,
the shared modifier cache, JSON forms of job payloads, the loop that drives
the authentication steps, and training times, which are computed in
floating point.

`tests/` runs the library on concrete values.
