# backup_verify

A desktop app that watches backup folders and reports, quietly and only when
something is wrong, whether they are still reachable, still updating and
still intact. This crate is its verified core; `app/` is the Tauri shell.

- `src/checker.rs` — the folder check as a step-by-step session: which
  known files to re-hash (a tenth, at least 25, at most 1000), which new
  files to baseline (at most 3000 per run), what a re-hash reveals (same
  modification time, different contents: silent corruption) and the final
  status and message.
- `src/license.rs` — Ed25519-signed license receipts: decoding, signature
  verification over the raw bytes, expiry and revalidation windows.
- `src/db.rs`, `src/commands.rs`, `src/scheduler.rs` — quota enforcement
  (the first N backups by creation time), locking, due checks.
- `src/update_check.rs` — `major.minor.patch` comparison.
- `src/hashing.rs` — streamed BLAKE3 hashing with lower-case hex output.
- `src/time.rs`, `src/text.rs` — instants, RFC 3339 text via chrono, and
  string utilities.

`app/` holds what cannot be verified: SQLite access, the directory walk,
file reading, HTTP, notifications and the background loop.
