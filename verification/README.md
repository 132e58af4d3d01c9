# chron

An archiver for a live game API: it follows the game's push channel, polls
its endpoints, stores every observation of every entity as versions in
PostgreSQL, and serves the archive over HTTP.

## Layout

- `src/` — the library, verified with Verus.
  - `models.rs`, `json.rs`, `bytes.rs`, `text.rs`: the data model (entity
    kinds, stored events and versions, page tokens and their byte encoding),
    JSON values, and text matching.
  - `queries.rs`, `api.rs`: what each listing of the archive selects and in
    what order, how API parameters become listings, and the laws of page
    tokens.
  - `db.rs`, `http.rs`, `asset.rs`, `base.rs`: what an observation stores,
    the record of objects already written, the cache of tagged responses,
    and assets.
  - `pusher.rs`: channels, subscriptions, payload encodings and what each
    push event leads to.
  - `workers/`: the decisions of the polling workers (what to fetch, store
    and subscribe to).
  - `import.rs`: routing and splitting of the fetches of an earlier crawl.
  - `boundary.rs`: the calls into outside crates that compute on plain
    values, with the contracts Verus takes on trust.
- `tests/` — tests of the library on concrete values.
- `app/` — the processes around the library: the ingest loop and its
  workers, the HTTP API, the importer, the database and network clients.
  `app/main.rs` runs `ingest` (the default), `api`, or `import <sqlite file>`.
