# this_app

A server-side rendered web application (Leptos on Axum) whose core is a
library verified with Verus.

- `src/` — the verified library:
  - `codes`, `api`, `payload`, `errors`, `handler`: the JSON answers the
    server gives, and which HTTP status, code and message each error gets;
  - `config`, `server`: the configuration model, the configuration files and
    their order, the server's limits, and the TLS certificates and key taken
    from the PEM files' text;
  - `paths`: absolute, cleaned paths and path parents;
  - `hashing`, `fallback`: the ETag of a served file (its BLAKE3 hash, fed
    read by read) and the protocol of the two caches of hashes, as a state
    machine whose steps the server performs, with laws over single steps and
    whole runs;
  - `watch`: which file events count as changes;
  - `text`: line-feed replacement and hexadecimal encoding.
- `app/` — the server itself: I/O, async plumbing, Axum and Leptos, and the
  serde copies of the library's types.
- `tests/` — tests of the library, run against the real outside crates.
