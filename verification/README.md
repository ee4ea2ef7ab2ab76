# clove1db

The rules of an embedded database framework built on redb, verified with
Verus: migration planning and replay, layout comparison, the upgrade of older
database files, commit batching, the write-through cache, and the
classification of database files.

## Layout

- `src/` — the verified library. Every function states its behaviour in
  `requires` / `ensures`; the laws that relate several functions are public
  proof functions named `law_*`.
  - `migration/` — plans, layouts and their diffs, migration chains, the
    bookkeeping of a migration run, step registries.
  - `upgrade/` — opening a database of an older era: legacy migration
    indexes, backup records, snapshot references, the decisions of the open
    pipeline.
  - `metadata/` — the `_clove_meta` record and file inspection.
  - `cache.rs`, `repository.rs`, `storage.rs` — the cache in front of the
    primary file, restore rules, commit chunks, configuration.
- `app/` — the file, redb, moka and serde side: it reads and writes disk and
  hands plain values to the library.
- `tests/` — tests of the library on concrete values.
