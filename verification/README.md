# hibernation

The verified core of Hibernation, a Nix binary cache server with a push
client. The library in `src/` is written in Verus; `app/` holds the thin
asynchronous glue (HTTP handlers, storage, database, command line) that
calls it.

- `range` — HTTP `Range` headers on stored NAR files and the
  `Content-Range` / `Content-Length` of partial answers.
- `nixbase32`, `digest` — Nix base-32 and SHA-256 (through `sha2`).
- `narinfo` — the `nix-cache-info` and `.narinfo` documents, the request
  paths they are served under, and read access to caches.
- `store_path` — store paths in base form (through `harmonia-store-core`).
- `nar` — the streaming check of an uploaded, zstd-compressed NAR
  (through `zstd`): quota, decompression, declared hash and size.
- `upload` — the rules of a push: accepted requests, paths still missing,
  confirmation of an upload, and eviction to make room.
- `session` — upload sessions: opened once, taken once, swept when old.
- `auth` — how a bearer token is authenticated: the CLI token's cache key
  (its SHA-256), when a remembered verification stands, and optional
  authentication.
- `management`, `timing`, `config`, `client`, `api` — smaller rules,
  limits and the message types.
- `laws` — properties that tie the parts together (what one part writes,
  another reads back).
