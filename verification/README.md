# gallery_api

Backend of an Aboriginal art gallery catalogue: artists, their works
(artifacts), tribes and their territory, and user accounts with
bearer-token authentication.

The library under `src/` is verified with Verus. It holds what the service
decides:

- `artists`, `artifacts`, `tribes`, `users` — the domain models, input
  validation, in-memory stores (a table keyed by id, with the uniqueness and
  ordering rules of the database), and how database refusals are answered
  (`repo`).
- `auth` — roles and token claims, the JSON text the token payload carries
  and its exact parser, the reading of claims from a payload in any JSON
  layout (parsed by `serde_json`), HS256 signing and verification through `jsonwebtoken`,
  Argon2id hashing through `argon2`, and the bearer/admin checks.
- `users::routes` — the account decisions: who may read or patch which
  record, registration, login, token issue, self-delete guard.
- `error` — the error type and the status and body each error is answered
  with.
- `seed` — the development data set and how its rows are linked by name.
- `health` — the probe's answer, the probe's reading of a status line, and
  the listen address.

`app/` is the program around it: the axum server and its handlers, the
Postgres stores (SQL through `sqlx`), the wire types with their `serde` and
OpenAPI derives, metrics, the seeder (`seed`) and the container probe
(`healthcheck`).
