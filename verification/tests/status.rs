use std::path::PathBuf;

use mdlite::mdstore::db::{
    ACTIVE_DOCUMENT_METADATA, DocumentMetadata, SCHEMA, UPSERT_DOCUMENT,
};
use mdlite::mdstore::error::StoreError;
use mdlite::mdstore::status::{
    DiffScan, FileClass, ScanStep, StatusSummary, diff_dir, status_dir,
};
use rusqlite::Connection;

fn hex(bytes: &[u8]) -> String {
    blake3::hash(bytes).to_hex().to_string()
}

fn record(path: &str, size_bytes: i64, mtime_ns: i64, body: &[u8]) -> DocumentMetadata {
    DocumentMetadata {
        path: path.to_owned(),
        size_bytes,
        mtime_ns,
        content_hash: hex(body),
    }
}

/// Feeds one file through the scan the way a caller reading the disk would.
fn scan_file(scan: &mut DiffScan, relative: &str, len: u64, mtime_ns: i64, body: &[u8]) {
    match scan.begin_file(relative.to_owned(), PathBuf::from(relative)) {
        ScanStep::Classified => {}
        ScanStep::NeedMetadata => match scan.metadata(len, mtime_ns).unwrap() {
            ScanStep::Classified => {}
            ScanStep::NeedContent => {
                scan.content(body);
            }
            ScanStep::NeedMetadata => unreachable!(),
        },
        ScanStep::NeedContent => unreachable!(),
    }
}

#[test]
fn classifies_new_modified_deleted_and_unchanged_documents() {
    let records = vec![
        record("unchanged.md", 4, 100, b"same"),
        record("modified.md", 8, 200, b"previous"),
        record("same-hash.md", 9, 299, b"same hash"),
        record("deleted.md", 7, 1, b"deleted"),
    ];
    let mut scan = DiffScan::new(records);
    scan_file(&mut scan, "modified.md", 7, 200, b"current");
    scan_file(&mut scan, "new.md", 3, 400, b"new");
    scan_file(&mut scan, "same-hash.md", 9, 300, b"same hash");
    scan_file(&mut scan, "unchanged.md", 4, 100, b"same");

    let summary = status_dir(scan);

    assert_eq!(
        summary,
        StatusSummary {
            new: 1,
            modified: 1,
            deleted: 1,
            unchanged: 2,
        }
    );
}

#[test]
fn ignores_soft_deleted_documents() {
    let conn = Connection::open_in_memory().unwrap();
    conn.execute_batch(SCHEMA).unwrap();
    conn.execute(
        UPSERT_DOCUMENT,
        (
            "already-deleted.md",
            "deleted",
            7_i64,
            1_i64,
            hex(b"deleted"),
            1_i64,
            1_i64,
            1_i64,
        ),
    )
    .unwrap();
    conn.execute(
        "UPDATE documents SET deleted_at = ?1 WHERE path = ?2",
        (2_i64, "already-deleted.md"),
    )
    .unwrap();

    let mut statement = conn.prepare(ACTIVE_DOCUMENT_METADATA).unwrap();
    let active: Vec<DocumentMetadata> = statement
        .query_map([], |row| {
            Ok(DocumentMetadata {
                path: row.get(0)?,
                size_bytes: row.get(1)?,
                mtime_ns: row.get(2)?,
                content_hash: row.get(3)?,
            })
        })
        .unwrap()
        .collect::<Result<Vec<_>, _>>()
        .unwrap();

    let summary = status_dir(DiffScan::new(active));

    assert_eq!(summary, StatusSummary::default());
}

#[test]
fn metadata_match_skips_the_content() {
    let mut scan = DiffScan::new(vec![record("a.md", 5, 10, b"hello")]);
    assert_eq!(scan.begin_file("a.md".to_owned(), PathBuf::from("a.md")), ScanStep::NeedMetadata);
    assert_eq!(scan.next_step(), ScanStep::NeedMetadata);
    assert_eq!(scan.metadata(5, 10), Ok(ScanStep::Classified));
    assert_eq!(scan.next_step(), ScanStep::Classified);
    let diff = diff_dir(scan);
    assert_eq!(diff.unchanged, vec!["a.md".to_owned()]);
    assert!(diff.new.is_empty() && diff.modified.is_empty() && diff.deleted.is_empty());
}

#[test]
fn changed_time_with_same_content_is_unchanged() {
    let mut scan = DiffScan::new(vec![record("a.md", 5, 10, b"hello")]);
    scan.begin_file("a.md".to_owned(), PathBuf::from("/notes/a.md"));
    assert_eq!(scan.metadata(5, 11), Ok(ScanStep::NeedContent));
    assert_eq!(scan.next_step(), ScanStep::NeedContent);
    assert_eq!(scan.content(b"hello"), FileClass::Unchanged);
    let summary = status_dir(scan);
    assert_eq!(summary, StatusSummary { new: 0, modified: 0, deleted: 0, unchanged: 1 });
}

#[test]
fn changed_content_is_modified_and_keeps_the_file_path() {
    let mut scan = DiffScan::new(vec![record("a.md", 5, 10, b"hello")]);
    scan.begin_file("a.md".to_owned(), PathBuf::from("/notes/a.md"));
    assert_eq!(scan.metadata(6, 10), Ok(ScanStep::NeedContent));
    assert_eq!(scan.content(b"hello!"), FileClass::Modified);
    let diff = diff_dir(scan);
    assert_eq!(diff.modified.len(), 1);
    assert_eq!(diff.modified[0].relative_path, "a.md");
    assert_eq!(diff.modified[0].path, PathBuf::from("/notes/a.md"));
}

#[test]
fn observed_hash_decides_between_unchanged_and_modified() {
    let mut scan = DiffScan::new(vec![record("a.md", 5, 10, b"hello")]);
    scan.begin_file("a.md".to_owned(), PathBuf::from("a.md"));
    scan.metadata(5, 12).unwrap();
    assert_eq!(scan.content_hash_observed(hex(b"hello")), FileClass::Unchanged);
    scan.begin_file("b.md".to_owned(), PathBuf::from("b.md"));
    let diff = diff_dir(scan);
    assert_eq!(diff.unchanged, vec!["a.md".to_owned()]);
    assert_eq!(diff.new.len(), 1);
    assert_eq!(diff.new[0].relative_path, "b.md");
}

#[test]
fn content_is_compared_by_digest_not_by_text() {
    let mut scan = DiffScan::new(vec![record("a.md", 5, 10, b"hello")]);
    scan.begin_file("a.md".to_owned(), PathBuf::from("a.md"));
    scan.metadata(5, 12).unwrap();
    // The stored hash is a digest; the raw text equal to it is not a match.
    assert_eq!(scan.content_hash_observed("hello".to_owned()), FileClass::Modified);
}

#[test]
fn too_large_file_is_refused() {
    let mut scan = DiffScan::new(vec![record("big.md", 5, 10, b"hello")]);
    scan.begin_file("big.md".to_owned(), PathBuf::from("big.md"));
    assert_eq!(
        scan.metadata(u64::MAX, 10),
        Err(StoreError::FileTooLarge { path: "big.md".to_owned() })
    );
    assert_eq!(scan.next_step(), ScanStep::NeedMetadata);
    assert_eq!(
        scan.metadata(i64::MAX as u64 + 1, 10),
        Err(StoreError::FileTooLarge { path: "big.md".to_owned() })
    );
}

#[test]
fn deleted_paths_are_listed_once() {
    let records = vec![
        record("gone.md", 1, 1, b"a"),
        record("kept.md", 1, 1, b"b"),
        record("gone.md", 2, 2, b"c"),
        record("other.md", 1, 1, b"d"),
    ];
    let mut scan = DiffScan::new(records);
    scan_file(&mut scan, "kept.md", 1, 1, b"b");
    let diff = diff_dir(scan);
    assert_eq!(diff.deleted, vec!["gone.md".to_owned(), "other.md".to_owned()]);
    assert_eq!(diff.unchanged, vec!["kept.md".to_owned()]);
}

#[test]
fn later_record_of_a_path_wins() {
    let records = vec![record("a.md", 1, 1, b"a"), record("a.md", 2, 2, b"b")];
    let mut scan = DiffScan::new(records);
    scan.begin_file("a.md".to_owned(), PathBuf::from("a.md"));
    assert_eq!(scan.metadata(2, 2), Ok(ScanStep::Classified));
    let summary = status_dir(scan);
    assert_eq!(summary, StatusSummary { new: 0, modified: 0, deleted: 0, unchanged: 1 });
}

#[test]
fn empty_store_finds_every_file_new() {
    let mut scan = DiffScan::new(Vec::new());
    for name in ["a.md", "b.md", "c.md"] {
        assert_eq!(scan.begin_file(name.to_owned(), PathBuf::from(name)), ScanStep::Classified);
    }
    let summary = status_dir(scan);
    assert_eq!(summary, StatusSummary { new: 3, modified: 0, deleted: 0, unchanged: 0 });
}

#[test]
fn summary_counts_each_list() {
    let mut scan = DiffScan::new(vec![record("x.md", 1, 1, b"x")]);
    scan.begin_file("y.md".to_owned(), PathBuf::from("y.md"));
    let diff = diff_dir(scan);
    assert_eq!(diff.summary(), StatusSummary { new: 1, modified: 0, deleted: 1, unchanged: 0 });
}
