# imago

Agent-native Instagram profile archive: drop a profile URL, get every
photo, video and carousel slide; watch profiles and backfill without
duplicates.

The crate is a Verus project.

- `src/` is the verified library. Its public functions carry
  `requires`/`ensures` contracts, which Verus proves for all but the few
  trusted wrappers named below (private helpers carry the contracts their
  callers need):
  - `text`, `json` — string helpers and a plain JSON document model;
  - `httpx` — response classification, header parsing, form encoding,
    request headers and the chunked-download state machine;
  - `media` — expanding post nodes (single, carousel, sidecar) into assets;
  - `ig` — request URLs and GraphQL variables, reading responses into
    pages, and profile-input parsing;
  - `browser` — browser cookie stores: which browser, key derivation and
    cookie decryption;
  - `auth`, `config`, `appdata`, `error` — credentials, settings, file
    locations, errors and exit codes;
  - `store`, `archive`, `watch` — the archive directory and its metadata,
    the decisions of the archive loop (resume, pacing, retries, early
    stop, what to download) and the watchlist.

  Calls into outside crates (`url`, `pbkdf2`, `aes`/`cbc`, `chrono`) and a
  few `std` functions sit behind small trusted wrappers: Verus takes their
  contracts, which name or state what those calls return, without proof.
- `app/` is the command-line program around the library: argument
  handling, HTTP through libcurl, the file system, the keyring, SQLite
  cookie stores, logging and the async loops that perform what the
  library decides.
- `tests/` exercises the library on concrete values.

Exit codes: 0 ok, 1 usage, 2 auth dead, 3 partial failure, 10 unexpected.
