# omnia

The verified core of the Omnia WebAssembly runtime and its guest SDK,
written in Verus. Each public function states its behaviour in `requires` /
`ensures`, and the library's laws are public proof functions.

## Layout

- `src/` — the verified library
  - `error.rs`: the domain error, its HTTP status and text, and how error
    chains become domain errors.
  - `api.rs`: the request client, the type-state request handler, and how a
    reply becomes a response.
  - `cache.rs`: `Cache-Control` / `If-None-Match` parsing and the cache key.
  - `http.rs`: outgoing-request header rules (`Host`, `Client-Cert`) and the
    response headers withheld from guests.
  - `blobstore.rs`: paged object names, outgoing values, and the in-memory
    containers and store of the default backend.
  - `keyvalue.rs`: big-endian counters and their increments.
  - `identity.rs`: access tokens and their cache.
  - `orm.rs`, `insert.rs`, `builders.rs`: typed reads of result rows, query
    values, and the INSERT / SELECT / UPDATE / DELETE builders.
  - `guest.rs`: guest configuration rules (routes, handlers, topics).
  - `runtime.rs`, `runtime_macro.rs`: the runtime command line and the plan
    the runtime is generated from.
  - `sdk.rs`: messages and blob metadata.
- `tests/` — tests of the library on concrete values.
- `app/` — plumbing around the library: error types with their derives,
  `http` header-map conversions, the shared in-memory backends, the token
  manager and the command line.
