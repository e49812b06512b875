# runtime

A cache layer over pluggable storage backends, and query-building helpers for
generated GraphQL clients, with the decision logic verified by Verus.

## Layout

- `src/` — the verified library.
  - `cache/keyspace.rs`: key layout of one database; namespace and allowlist
    checks; the ID format. Laws: databases with different embedded indexes,
    or different valid names, never share a key; different key builders
    never produce the same key; IDs with different parts differ.
  - `cache/memory.rs`, `cache/sets.rs`: the in-memory storage and server-side
    set models, specified as a map and a relation. Laws: read after write,
    lease expiry, per-key isolation, deletion, and the undo of each write.
  - `cache/options.rs`, `cache/policy.rs`: operation options and the lease
    policy every strategy shares.
  - `cache/strategies/`: what Volatile, Document and Indexed read, write,
    file and unfile; single-flight and refresher admission (laws: one run
    per key in flight; a closed refresher admits nothing and never runs more
    than its limit); the stored form of read-through entries.
  - `cache/drop.rs`, `cache/database.rs`: bounded database deletion, strategy
    wiring, and the idempotent close, whose release follows the drain and
    runs at most once.
  - `cache/redis.rs`: address parsing, lease conversion, the commands sent to
    Redis and the meaning of every reply.
  - `graphql/`: the JSON model, predicates, typed column handles, order terms,
    keyset pagination, request builders, scalars and the three-state patch
    value.
- `app/` — the asynchronous runtime around it: the async storage traits, the
  in-memory and Redis backends, the strategies' round trips, flight and
  refresher tasks, database lifecycle, and the serde and error-trait forms of
  the library's types.
- `tests/` — tests of the library on concrete values.
