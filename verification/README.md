# plex_catalog

The backend of a media catalog filled from Plex servers: it syncs the
libraries of every server of a Plex account into PostgreSQL, serves them over
an HTTP API behind single sign-on, and tracks users' requests for new media.

The crate is a library verified with Verus, and a service around it.

- `src/` is the library. Every function in it has a contract, proved by
  Verus: the bearer-token check and the cache of signing keys (`auth`), the
  catalog's rows and how they become API answers (`db`, `versions`,
  `models`), request fulfilment (`requests`, `resolution`), the sync's
  decisions as state machines (`sync`), Plex addresses and answers (`plex`,
  read from the JSON values of `json`), the directory and identity-provider
  lookups (`ldap`, `oidc`), notification texts (`pings`), and the text
  operations they share (`text`, `seqs`).
  Calls into other crates (base64, OpenSSL, serde_json, urlencoding, chrono,
  rand) go through the trusted items in `crypto` and beside their callers;
  their contracts are stated, not proved.
- `tests/` exercises the library on concrete values.
- `app/` is the service: actix-web routes and middleware, sqlx queries,
  the HTTP clients, the sync workers and `main`. It performs the steps the
  library decides.
