use vstd::prelude::*;

verus! {

/// Directory, relative to the working directory, that holds the default database.
pub const DEFAULT_DB_DIR: &'static str = ".mdstore";

/// File name of the default database inside [`DEFAULT_DB_DIR`].
pub const DEFAULT_DB_FILE: &'static str = "mdstore.db";

/// The default database path: the default file inside the default directory.
pub fn default_db_path() -> (path: String)
    ensures
        path@ == DEFAULT_DB_DIR@ + "/"@ + DEFAULT_DB_FILE@,
{
    let mut path = DEFAULT_DB_DIR.to_owned();
    path.append("/");
    path.append(DEFAULT_DB_FILE);
    path
}

/// The statements that create the documents table, its indexes, the full-text
/// index of path and body, and the triggers that keep that index in step with
/// the table.
pub const SCHEMA: &'static str = r#"
PRAGMA journal_mode = WAL;
PRAGMA foreign_keys = ON;

CREATE TABLE IF NOT EXISTS documents (
  id INTEGER PRIMARY KEY,
  path TEXT NOT NULL UNIQUE,
  body TEXT NOT NULL,
  size_bytes INTEGER NOT NULL,
  mtime_ns INTEGER NOT NULL,
  content_hash TEXT NOT NULL,
  created_at INTEGER NOT NULL,
  updated_at INTEGER NOT NULL,
  synced_at INTEGER NOT NULL,
  deleted_at INTEGER
);

CREATE INDEX IF NOT EXISTS idx_documents_updated_at ON documents(updated_at);
CREATE INDEX IF NOT EXISTS idx_documents_synced_at ON documents(synced_at);
CREATE INDEX IF NOT EXISTS idx_documents_deleted_at ON documents(deleted_at);

CREATE VIRTUAL TABLE IF NOT EXISTS documents_fts USING fts5(
  path UNINDEXED,
  body
);

DROP TRIGGER IF EXISTS documents_ai;
DROP TRIGGER IF EXISTS documents_ad;
DROP TRIGGER IF EXISTS documents_au;

CREATE TRIGGER documents_ai AFTER INSERT ON documents BEGIN
  INSERT INTO documents_fts(rowid, path, body)
  VALUES (new.id, new.path, new.body);
END;

CREATE TRIGGER documents_ad AFTER DELETE ON documents BEGIN
  DELETE FROM documents_fts WHERE rowid = old.id;
END;

CREATE TRIGGER documents_au AFTER UPDATE ON documents BEGIN
  DELETE FROM documents_fts WHERE rowid = old.id;
  INSERT INTO documents_fts(rowid, path, body)
  VALUES (new.id, new.path, new.body);
END;
"#;

/// The statements that move a documents table of the older layout, which also
/// had `title` and `tags` columns, to the current layout, keeping every other
/// column of every row.
pub const LEGACY_TITLE_TAGS_MIGRATION: &'static str = r#"
        DROP TRIGGER IF EXISTS documents_ai;
        DROP TRIGGER IF EXISTS documents_ad;
        DROP TRIGGER IF EXISTS documents_au;
        DROP TABLE IF EXISTS documents_fts;
        DROP INDEX IF EXISTS idx_documents_updated_at;
        DROP INDEX IF EXISTS idx_documents_synced_at;
        DROP INDEX IF EXISTS idx_documents_deleted_at;

        ALTER TABLE documents RENAME TO documents_legacy_title_tags;

        CREATE TABLE documents (
          id INTEGER PRIMARY KEY,
          path TEXT NOT NULL UNIQUE,
          body TEXT NOT NULL,
          size_bytes INTEGER NOT NULL,
          mtime_ns INTEGER NOT NULL,
          content_hash TEXT NOT NULL,
          created_at INTEGER NOT NULL,
          updated_at INTEGER NOT NULL,
          synced_at INTEGER NOT NULL,
          deleted_at INTEGER
        );

        INSERT INTO documents (
          id,
          path,
          body,
          size_bytes,
          mtime_ns,
          content_hash,
          created_at,
          updated_at,
          synced_at,
          deleted_at
        )
        SELECT
          id,
          path,
          body,
          size_bytes,
          mtime_ns,
          content_hash,
          created_at,
          updated_at,
          synced_at,
          deleted_at
        FROM documents_legacy_title_tags;

        DROP TABLE documents_legacy_title_tags;
        "#;

/// Writes a document (parameters 1 to 8: path, body, size, modification
/// time, content hash, creation, update and sync times).  A new path gets a
/// new active row; an existing one takes every field but its creation time
/// and becomes active again.  `store::upsert_row` states this.
pub const UPSERT_DOCUMENT: &'static str = r#"
        INSERT INTO documents (
          path,
          body,
          size_bytes,
          mtime_ns,
          content_hash,
          created_at,
          updated_at,
          synced_at,
          deleted_at
        )
        VALUES (?1, ?2, ?3, ?4, ?5, ?6, ?7, ?8, NULL)
        ON CONFLICT(path) DO UPDATE SET
          body = excluded.body,
          size_bytes = excluded.size_bytes,
          mtime_ns = excluded.mtime_ns,
          content_hash = excluded.content_hash,
          updated_at = excluded.updated_at,
          synced_at = excluded.synced_at,
          deleted_at = NULL
        "#;

/// Soft-deletes a document (parameter 1: the time, parameter 2: the path):
/// an active row of the path is marked deleted and synced at that time.
/// `store::soft_delete_row` states this.
pub const SOFT_DELETE_DOCUMENT: &'static str = r#"
        UPDATE documents
        SET deleted_at = ?1,
            synced_at = ?1
        WHERE path = ?2
          AND deleted_at IS NULL
        "#;

/// Reads the path, size, modification time and content hash of every active
/// document.  `store::active_metadata` states what it gives.
pub const ACTIVE_DOCUMENT_METADATA: &'static str = r#"
            SELECT path, size_bytes, mtime_ns, content_hash
            FROM documents
            WHERE deleted_at IS NULL
            "#;

/// Reads the column names of the documents table.
pub const DOCUMENT_COLUMNS: &'static str = "SELECT name FROM pragma_table_info('documents')";

/// Full-text search over active documents (parameter 1: the query,
/// parameter 2: the largest number of results), best match first.
pub const SEARCH_DOCUMENTS: &'static str = r#"
            SELECT d.path, bm25(documents_fts) AS score
            FROM documents_fts
            JOIN documents d ON d.id = documents_fts.rowid
            WHERE documents_fts MATCH ?1
              AND d.deleted_at IS NULL
            ORDER BY score
            LIMIT ?2
            "#;

/// Counts the active documents.
pub const COUNT_ACTIVE_DOCUMENTS: &'static str =
    "SELECT COUNT(*) FROM documents WHERE deleted_at IS NULL";

/// Counts the soft-deleted documents.
pub const COUNT_DELETED_DOCUMENTS: &'static str =
    "SELECT COUNT(*) FROM documents WHERE deleted_at IS NOT NULL";

/// Counts the rows of the full-text index.
pub const COUNT_FTS_ROWS: &'static str = "SELECT COUNT(*) FROM documents_fts";

/// Reads the page size.
pub const PAGE_SIZE: &'static str = "PRAGMA page_size";

/// Reads the page count.
pub const PAGE_COUNT: &'static str = "PRAGMA page_count";

/// Runs the integrity check.
pub const INTEGRITY_CHECK: &'static str = "PRAGMA integrity_check";

/// Whether a documents table with columns `columns` has the older layout with
/// `title` or `tags` and so has to be migrated before the schema is applied.
pub fn needs_legacy_title_tags_migration(columns: &Vec<String>) -> (migrate: bool)
    ensures
        migrate <==> exists|i: int|
            0 <= i < columns@.len() && (#[trigger] columns@[i]@ == "title"@ || columns@[i]@
                == "tags"@),
{
    has_documents_column(columns, "title") || has_documents_column(columns, "tags")
}

/// Fills the full-text index from the documents table.  A migration drops
/// the index; once the schema has created it again, this puts every row of
/// the migrated table back into it.
pub const REBUILD_FTS_INDEX: &'static str =
    "INSERT INTO documents_fts(rowid, path, body) SELECT id, path, body FROM documents";

/// The statement batches that set a database up, in order, given the columns
/// its documents table has (none where there is no such table): a table of
/// the older layout is migrated, the schema is applied, and after a migration
/// the full-text index is filled again from the migrated rows.
pub fn init_batches(columns: &Vec<String>) -> (batches: Vec<&'static str>)
    ensures
        (exists|i: int|
            0 <= i < columns@.len() && (#[trigger] columns@[i]@ == "title"@ || columns@[i]@
                == "tags"@)) ==> batches@ == seq![LEGACY_TITLE_TAGS_MIGRATION, SCHEMA, REBUILD_FTS_INDEX],
        !(exists|i: int|
            0 <= i < columns@.len() && (#[trigger] columns@[i]@ == "title"@ || columns@[i]@
                == "tags"@)) ==> batches@ == seq![SCHEMA],
{
    let mut batches: Vec<&'static str> = Vec::new();
    if needs_legacy_title_tags_migration(columns) {
        batches.push(LEGACY_TITLE_TAGS_MIGRATION);
        batches.push(SCHEMA);
        batches.push(REBUILD_FTS_INDEX);
    } else {
        batches.push(SCHEMA);
    }
    batches
}

/// Whether `column_name` is one of `columns`.
pub fn has_documents_column(columns: &Vec<String>, column_name: &str) -> (found: bool)
    ensures
        found <==> exists|i: int| 0 <= i < columns@.len() && #[trigger] columns@[i]@ == column_name@,
{
    let wanted = column_name.to_owned();
    let mut i: usize = 0;
    while i < columns.len()
        invariant
            i <= columns@.len(),
            wanted@ == column_name@,
            forall|j: int| 0 <= j < i ==> #[trigger] columns@[j]@ != column_name@,
        decreases columns@.len() - i,
    {
        if columns[i] == wanted {
            return true;
        }
        i = i + 1;
    }
    false
}

} // verus!

verus! {

/// A document as it is written to the store.
#[derive(Debug)]
pub struct DocumentUpsert {
    pub path: String,
    pub body: String,
    pub size_bytes: i64,
    pub mtime_ns: i64,
    pub content_hash: String,
    pub created_at: i64,
    pub updated_at: i64,
    pub synced_at: i64,
}

/// What the store keeps of an active (not soft-deleted) document for change detection.
#[derive(Debug, Clone, PartialEq, Eq)]
pub struct DocumentMetadata {
    pub path: String,
    pub size_bytes: i64,
    pub mtime_ns: i64,
    pub content_hash: String,
}

/// What change detection compares of a stored document.
pub struct MetadataView {
    pub size_bytes: int,
    pub mtime_ns: int,
    pub content_hash: Seq<char>,
}

impl View for DocumentMetadata {
    type V = MetadataView;

    open spec fn view(&self) -> MetadataView {
        MetadataView {
            size_bytes: self.size_bytes as int,
            mtime_ns: self.mtime_ns as int,
            content_hash: self.content_hash@,
        }
    }
}

/// The records of `docs` keyed by path, each taken by what change detection
/// compares; where a path occurs twice, the later record wins.
pub open spec fn metadata_view(docs: Seq<DocumentMetadata>) -> Map<Seq<char>, MetadataView> {
    metadata_by_path(docs).map_values(|d: DocumentMetadata| d@)
}

/// The index of the last record in `docs` whose path is `path`, if any.
pub open spec fn latest_with_path(docs: Seq<DocumentMetadata>, path: Seq<char>) -> Option<int>
    decreases docs.len(),
{
    if docs.len() == 0 {
        None
    } else if docs.last().path@ == path {
        Some(docs.len() - 1)
    } else {
        latest_with_path(docs.drop_last(), path)
    }
}

/// The records of `docs` keyed by path; where a path occurs twice, the later record wins.
pub open spec fn metadata_by_path(docs: Seq<DocumentMetadata>) -> Map<Seq<char>, DocumentMetadata>
    decreases docs.len(),
{
    if docs.len() == 0 {
        Map::empty()
    } else {
        metadata_by_path(docs.drop_last()).insert(docs.last().path@, docs.last())
    }
}

/// `latest_with_path` picks the last record with a path, and `metadata_by_path`
/// holds exactly that record.
pub proof fn lemma_latest_with_path(docs: Seq<DocumentMetadata>, path: Seq<char>)
    ensures
        match latest_with_path(docs, path) {
            Some(i) => {
                &&& 0 <= i < docs.len()
                &&& docs[i].path@ == path
                &&& forall|j: int| i < j < docs.len() ==> #[trigger] docs[j].path@ != path
                &&& metadata_by_path(docs).contains_key(path)
                &&& metadata_by_path(docs)[path] == docs[i]
            },
            None => {
                &&& forall|j: int| 0 <= j < docs.len() ==> #[trigger] docs[j].path@ != path
                &&& !metadata_by_path(docs).contains_key(path)
            },
        },
    decreases docs.len(),
{
    if docs.len() > 0 {
        lemma_latest_with_path(docs.drop_last(), path);
        let prefix = docs.drop_last();
        assert forall|j: int| 0 <= j < prefix.len() implies prefix[j] == docs[j] by {}
    }
}

/// A record is the latest for its path exactly when no later record has the same path.
pub proof fn lemma_latest_characterized(docs: Seq<DocumentMetadata>, i: int)
    requires
        0 <= i < docs.len(),
    ensures
        latest_with_path(docs, docs[i].path@) == Some(i) <==> forall|j: int|
            i < j < docs.len() ==> #[trigger] docs[j].path@ != docs[i].path@,
{
    lemma_latest_with_path(docs, docs[i].path@);
    match latest_with_path(docs, docs[i].path@) {
        Some(k) => {
            if k != i {
                assert(k > i);
            }
        },
        None => {},
    }
}

/// The parameters of [`UPSERT_DOCUMENT`] for `doc`, in the statement's order:
/// path, body, size, modification time, content hash, creation, update and
/// sync times.
pub fn upsert_parameters(doc: &DocumentUpsert) -> (params: (
    &String,
    &String,
    i64,
    i64,
    &String,
    i64,
    i64,
    i64,
))
    ensures
        *params.0 == doc.path,
        *params.1 == doc.body,
        params.2 == doc.size_bytes,
        params.3 == doc.mtime_ns,
        *params.4 == doc.content_hash,
        params.5 == doc.created_at,
        params.6 == doc.updated_at,
        params.7 == doc.synced_at,
{
    (
        &doc.path,
        &doc.body,
        doc.size_bytes,
        doc.mtime_ns,
        &doc.content_hash,
        doc.created_at,
        doc.updated_at,
        doc.synced_at,
    )
}

/// The parameters of [`SOFT_DELETE_DOCUMENT`] for soft-deleting `path` at
/// `deleted_at`, in the statement's order: the time, then the path.
pub fn soft_delete_parameters(path: &String, deleted_at: i64) -> (params: (i64, &String))
    ensures
        params.0 == deleted_at,
        *params.1 == *path,
{
    (deleted_at, path)
}

/// Looks `path` up in `docs`, the later record winning, as the store's
/// records keyed by path would.
pub fn find_by_path(docs: &Vec<DocumentMetadata>, path: &String) -> (found: Option<usize>)
    ensures
        found is None <==> latest_with_path(docs@, path@) is None,
        found matches Some(i) ==> latest_with_path(docs@, path@) == Some(i as int),
{
    proof {
        lemma_latest_with_path(docs@, path@);
    }
    let mut i: usize = docs.len();
    while i > 0
        invariant
            i <= docs@.len(),
            forall|j: int| i <= j < docs@.len() ==> #[trigger] docs@[j].path@ != path@,
        decreases i,
    {
        if docs[i - 1].path == *path {
            proof {
                lemma_latest_characterized(docs@, i - 1);
            }
            return Some(i - 1);
        }
        i = i - 1;
    }
    None
}

} // verus!
