# GSheet

A service that gives the sheets of a Google spreadsheet as JSON, with a cache, a limit on the
requests to Google and one upstream request for concurrent readers of a sheet. Its logic is a
Verus library: every function states what it does, and Verus proves it.

## Layout

- `src/` is the verified library.
  - `route.rs`, `service.rs` and `reply.rs`: what a request asks for, the steps from there to the
    reply, and the replies.
  - `upstream.rs`, `inflight.rs` and `throttle.rs`: one upstream fetch, the coalescing of
    concurrent fetches, and the limit on them.
  - `store.rs` and `retention.rs`: what is written to the cache, and what a read gives back of it.
  - `rows.rs` and `json.rs`: the shaping of cells into rows, and the JSON values.
  - `google.rs` and `cache.rs`: a client that finds sheets by name or number, with its own cache.
  - `config.rs`, `error.rs`, `clock.rs`, `percent.rs` and `text.rs`: settings, errors, the wall
    clock, percent-encoding and texts.
- `app/` is the server around it: sockets, the database, the HTTP client, and the decoding of
  upstream payloads.
- `tests/` runs the library.

A request, a fetch and a run on a key are values that say which action comes next; the server
performs the action and hands the answer back.

## Routes

- `GET /` redirects to the documentation, `GET /up` answers `ok`
- `GET /:id` and `GET /:id/:sheet` give rows keyed by the header row
- `GET /raw/:id` and `GET /raw/:id/:sheet` give the upstream payloads as they came
- `GET /refresh/:id/:sheet` drops the cached payload of one sheet

## Settings

`GOOGLE_API_KEY` is required. These are optional, and keep their default where they are unset or
no number:

| Setting | Default |
| --- | --- |
| `PORT` | `8080` |
| `CACHE_DIR` | `./data/heed` |
| `SHEET_MAX_AGE_SECS` | `300` |
| `DOCUMENT_MAX_AGE_SECS` | `3600` |
| `ERROR_MAX_AGE_SECS` | `30` |
| `GOOGLE_CACHE_TTL_SECS` | `300` |
| `GOOGLE_CACHE_TTL_MAX_SECS` | `1200` |
| `GOOGLE_RATE_LIMIT` | `300` |
| `GOOGLE_RATE_WINDOW_SECS` | `60` |
| `GOOGLE_MAX_QUEUED_REQUESTS` | `64` |
