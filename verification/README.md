# serenade

Building blocks of the Serenade web framework, written in Verus: public
functions state their behaviour in `requires` / `ensures`, and Verus proves
the code against them. Where an answer comes from the outside (the clock,
randomness, a storage backend, an application-supplied handler or codec),
the contract states what holds of every answer and what the library does
with it.

## Layout

- `src/` — the verified library
  - `text.rs`, `strmap.rs` — character helpers and a string-keyed map with a
    map view
  - `rate_limiter/` — token-bucket and fixed-window policies, storage, the
    limiter, the wire format of shared windows, and laws on budgets and
    `retry_after`
  - `scheduler/` — interval and cron triggers, the scheduler, handlers, the
    service and the run-loop decision
  - `search/` — documents, queries, the in-memory index with its ranking, and
    the HTTP index adapter over a caller-supplied transport
  - `security/` — users and tokens, voters, the firewall decision, CSRF
    tokens, LDAP and OAuth/OIDC helpers
  - `serializer/` — normalization context and the JSON / TOON codecs
  - `session/` — the session bag and session stores
- `tests/` — executable tests of the library
- `app/` — the parts that do I/O or need runtime type information: the
  key-value server rate-limiter storage (its retry decision is the library's
  `cas_step`), the scheduler run loop (its step is the library's), the
  serializer facade over `dyn Any` (its codec choice is the library's
  `first_supporting`), and the serde parse of token-endpoint replies

Outside crates (hashing, HMAC, base64, cron, JSON, TOON, randomness) are
reached through small trusted wrappers whose contracts name what they return.
