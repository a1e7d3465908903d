# mdlite

A CLI-first Markdown store: Markdown files on disk stay the editing source of
truth, while a SQLite database with an FTS5 index keeps their bodies and
metadata for fast search.

## Layout

- `src/` is the verified library (Verus). `src/mdstore/` holds:
  - `db.rs`: the document records, the schema and the SQL statements, the
    default database path, the legacy-layout decision and path lookup;
  - `status.rs`: `DiffScan`, the comparison of a directory with the store's
    active records, fed one file at a time; it asks for a file's length and
    time only where the store knows its path, and for its content only where
    those differ;
  - `sync.rs`, `ingest.rs`: what a sync and an import write, and how a
    document is built from a file (BLAKE3 content digest);
  - `store.rs`: a model of the documents table under the store's two write
    statements (upsert and soft delete), and proofs over that model that a
    sync or an import brings it in line with the directory and that a second
    sync changes nothing. The model is a reading of the SQL text in `db.rs`;
    nothing ties the statements SQLite runs to it;
  - `doctor.rs`: the health report; `files.rs`: small file rules.
- `app/` is the `mdstore` command: argument parsing, the directory walk, file
  reads and the SQLite connection. It runs the library's scan step by step
  and performs the writes the library plans.
- `tests/` exercises the library, with in-memory SQLite databases where the
  statements are involved.
