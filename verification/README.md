# greentic_operator

The decision logic of the Greentic operator, verified with Verus: where its
binaries are found, how its configuration defaults, which subscriptions a
capability event reaches and how deliveries are retried and replayed, how a
provider's setup answers split into inline configuration and secret
references, the trust boundary and routing of the `/deployments/*` routes,
and the order in which wizard locale files are tried.

Layout:

- `src/` — the verified library. Each module states its contracts over
  sequences and views; public proof functions state the laws that relate
  several calls.
- `tests/` — tests of the library on concrete values.
- `app/` — the I/O around the library: reading files and the environment,
  HTTP bodies and responses, serialization, schema checks, ids and time.
