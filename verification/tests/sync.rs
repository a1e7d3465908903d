use std::path::PathBuf;

use mdlite::mdstore::db::{
    ACTIVE_DOCUMENT_METADATA, DocumentMetadata, DocumentUpsert, SCHEMA, SOFT_DELETE_DOCUMENT,
    UPSERT_DOCUMENT, soft_delete_parameters, upsert_parameters,
};
use mdlite::mdstore::ingest::document_from_file;
use mdlite::mdstore::status::{DiffScan, ScanStep, StatusSummary, diff_dir, status_dir};
use mdlite::mdstore::sync::sync_dir;
use rusqlite::{Connection, OptionalExtension};

fn hex(bytes: &[u8]) -> String {
    blake3::hash(bytes).to_hex().to_string()
}

fn upsert(conn: &Connection, doc: &DocumentUpsert) {
    conn.execute(UPSERT_DOCUMENT, upsert_parameters(doc)).unwrap();
}

fn active(conn: &Connection) -> Vec<DocumentMetadata> {
    let mut statement = conn.prepare(ACTIVE_DOCUMENT_METADATA).unwrap();
    statement
        .query_map([], |row| {
            Ok(DocumentMetadata {
                path: row.get(0)?,
                size_bytes: row.get(1)?,
                mtime_ns: row.get(2)?,
                content_hash: row.get(3)?,
            })
        })
        .unwrap()
        .collect::<Result<Vec<_>, _>>()
        .unwrap()
}

/// A file of the directory: relative path, text and modification time.
struct DiskFile {
    name: &'static str,
    text: &'static str,
    mtime_ns: i64,
}

fn scan(conn: &Connection, files: &[DiskFile]) -> DiffScan {
    let mut scan = DiffScan::new(active(conn));
    for file in files {
        if scan.begin_file(file.name.to_owned(), PathBuf::from(file.name)) == ScanStep::NeedMetadata
        {
            if scan.metadata(file.text.len() as u64, file.mtime_ns).unwrap() == ScanStep::NeedContent {
                scan.content(file.text.as_bytes());
            }
        }
    }
    scan
}

fn file_document(file: &DiskFile, synced_at: i64) -> DocumentUpsert {
    document_from_file(
        file.name.to_owned(),
        file.text.to_owned(),
        file.text.len() as u64,
        file.mtime_ns,
        None,
        synced_at,
    )
    .unwrap()
}

#[test]
fn sync_applies_new_modified_deleted_and_unchanged_documents() {
    let conn = Connection::open_in_memory().unwrap();
    conn.execute_batch(SCHEMA).unwrap();

    let files = [
        DiskFile { name: "unchanged.md", text: "same", mtime_ns: 10 },
        DiskFile { name: "modified.md", text: "current", mtime_ns: 20 },
        DiskFile { name: "new.md", text: "new", mtime_ns: 30 },
    ];
    upsert(&conn, &file_document(&files[0], 5));
    let mut modified = file_document(&files[1], 5);
    modified.body = "previous".to_owned();
    modified.size_bytes = "previous".len() as i64;
    modified.content_hash = hex(modified.body.as_bytes());
    upsert(&conn, &modified);
    upsert(
        &conn,
        &DocumentUpsert {
            path: "deleted.md".to_owned(),
            body: "deleted".to_owned(),
            size_bytes: 7,
            mtime_ns: 1,
            content_hash: hex(b"deleted"),
            created_at: 1,
            updated_at: 1,
            synced_at: 1,
        },
    );

    let synced_at = 100;
    let plan = sync_dir(diff_dir(scan(&conn, &files)), synced_at);
    for change in &plan.writes.upserts {
        let file = files.iter().find(|f| f.name == change.relative_path).unwrap();
        upsert(&conn, &file_document(file, plan.writes.synced_at));
    }
    for path in &plan.writes.soft_deletes {
        conn.execute(SOFT_DELETE_DOCUMENT, soft_delete_parameters(path, plan.writes.synced_at))
            .unwrap();
    }

    assert_eq!(
        plan.summary,
        StatusSummary {
            new: 1,
            modified: 1,
            deleted: 1,
            unchanged: 1,
        }
    );

    let new_body: String = conn
        .query_row("SELECT body FROM documents WHERE path = 'new.md'", [], |row| row.get(0))
        .unwrap();
    assert_eq!(new_body, "new");

    let modified_body: String = conn
        .query_row("SELECT body FROM documents WHERE path = 'modified.md'", [], |row| row.get(0))
        .unwrap();
    assert_eq!(modified_body, "current");

    let deleted_at: Option<i64> = conn
        .query_row("SELECT deleted_at FROM documents WHERE path = 'deleted.md'", [], |row| {
            row.get(0)
        })
        .optional()
        .unwrap()
        .flatten();
    assert!(deleted_at.is_some());

    // A second comparison of the same directory finds nothing left to do.
    let again = status_dir(scan(&conn, &files));
    assert_eq!(again, StatusSummary { new: 0, modified: 0, deleted: 0, unchanged: 3 });
}

#[test]
fn sync_plan_orders_new_before_modified() {
    let records = vec![DocumentMetadata {
        path: "m.md".to_owned(),
        size_bytes: 1,
        mtime_ns: 1,
        content_hash: hex(b"a"),
    }];
    let mut scan = DiffScan::new(records);
    scan.begin_file("m.md".to_owned(), PathBuf::from("m.md"));
    scan.metadata(1, 2).unwrap();
    scan.content(b"b");
    scan.begin_file("n.md".to_owned(), PathBuf::from("n.md"));
    let plan = sync_dir(diff_dir(scan), 7);
    let order: Vec<&str> = plan.writes.upserts.iter().map(|c| c.relative_path.as_str()).collect();
    assert_eq!(order, vec!["n.md", "m.md"]);
    assert!(plan.writes.soft_deletes.is_empty());
    assert_eq!(plan.writes.synced_at, 7);
    assert_eq!(plan.summary, StatusSummary { new: 1, modified: 1, deleted: 0, unchanged: 0 });
}

#[test]
fn soft_delete_then_upsert_revives_a_document() {
    let conn = Connection::open_in_memory().unwrap();
    conn.execute_batch(SCHEMA).unwrap();
    let file = DiskFile { name: "a.md", text: "alpha", mtime_ns: 3 };
    upsert(&conn, &file_document(&file, 4));
    conn.execute(SOFT_DELETE_DOCUMENT, (9_i64, "a.md")).unwrap();
    assert!(active(&conn).is_empty());
    // Soft-deleting again leaves the row as it was.
    conn.execute(SOFT_DELETE_DOCUMENT, (11_i64, "a.md")).unwrap();
    let deleted_at: Option<i64> = conn
        .query_row("SELECT deleted_at FROM documents WHERE path = 'a.md'", [], |row| row.get(0))
        .unwrap();
    assert_eq!(deleted_at, Some(9));

    let plan = sync_dir(diff_dir(scan(&conn, &[DiskFile { name: "a.md", text: "alpha", mtime_ns: 3 }])), 12);
    assert_eq!(plan.summary, StatusSummary { new: 1, modified: 0, deleted: 0, unchanged: 0 });
    upsert(&conn, &file_document(&file, 12));
    let active_now = active(&conn);
    assert_eq!(active_now.len(), 1);
    assert_eq!(active_now[0].path, "a.md");
}
