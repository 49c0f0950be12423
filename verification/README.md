# SimplSource (简源)

The logic of a lightweight desktop database client for PostgreSQL, MySQL and
SQLite, written in Verus. The functions in `src/` carry contracts that Verus
proves, except the small wrappers marked `#[verifier::external_body]` around
calls into outside crates and std (sqlparser, csv, serde_json, base64,
aes-gcm, sha2, rand, uuid, chrono, urlencoding, `Path::join`, `str`
conversions): their contracts are trusted, each stated in its doc comment, and
the two that draw a random identifier or read the clock promise nothing of
their result.

## Layout

- `src/` — the verified library.
  - `types`, `error`: connection settings, schema metadata, cells, pages and
    driver errors with the response the user interface receives.
  - `text`: character-level helpers (trimming, quoting, number text, order).
  - `dml`: UPDATE statements for inline cell edits.
  - `sql_utils`, `engine`: splitting scripts into statements (`sqlparser`),
    what a script runs as, cached schema metadata and the history count.
  - `drivers`, `results`: connection URLs, page and plan queries, statement
    classification, cells from decoded columns, result sets and the schema
    tree built from catalog rows.
  - `tunnel`: the steps that open an SSH tunnel, as a state machine.
  - `connection`, `persistence`, `query_history`, `schema_cache`,
    `transaction`: the connection list, the history, the schema cache and
    the safe-mode statement queue, with their laws.
  - `import`, `export`: CSV/JSON import previews and INSERT statements; CSV,
    INSERT-script and spreadsheet exports.
  - `credential`: sealing and opening the secrets payload (AES-256-GCM) and
    the entries it holds; the file's JSON is read and written by `app/`.
  - `paths`: file locations under the data directory.
- `tests/` — tests of the library on concrete values.
- `app/` — the runtime around the library: sqlx drivers, ssh2 tunnels, files,
  the keychain and the command handlers.
