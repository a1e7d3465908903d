use std::path::PathBuf;

use mdlite::mdstore::error::StoreError;
use mdlite::mdstore::ingest::{ImportSummary, document_from_file, document_with_hash, import_dir};
use mdlite::mdstore::status::FileChange;

#[test]
fn document_carries_the_file_and_its_digest() {
    let doc = document_from_file(
        "notes/a.md".to_owned(),
        "# Title\nbody".to_owned(),
        12,
        1_000,
        Some(500),
        2_000,
    )
    .unwrap();
    assert_eq!(doc.path, "notes/a.md");
    assert_eq!(doc.body, "# Title\nbody");
    assert_eq!(doc.size_bytes, 12);
    assert_eq!(doc.mtime_ns, 1_000);
    assert_eq!(doc.content_hash, blake3::hash(b"# Title\nbody").to_hex().to_string());
    assert_ne!(doc.content_hash, doc.body);
    assert_eq!(doc.content_hash.len(), 64);
    assert_eq!(doc.created_at, 500);
    assert_eq!(doc.updated_at, 1_000);
    assert_eq!(doc.synced_at, 2_000);
}

#[test]
fn known_digest_of_empty_content() {
    let doc = document_from_file("e.md".to_owned(), String::new(), 0, 1, None, 1).unwrap();
    assert_eq!(
        doc.content_hash,
        "af1349b9f5f9a1a6a0404dea36dcc9499bcb25c9adc112b7cc9a93cae41f3262"
    );
}

#[test]
fn creation_time_falls_back_to_modification_time() {
    let doc = document_from_file("a.md".to_owned(), "x".to_owned(), 1, 77, None, 80).unwrap();
    assert_eq!(doc.created_at, 77);
    assert_eq!(doc.updated_at, 77);
}

#[test]
fn oversized_file_is_refused() {
    assert_eq!(
        document_from_file("big.md".to_owned(), "x".to_owned(), i64::MAX as u64 + 1, 1, None, 1)
            .unwrap_err(),
        StoreError::FileTooLarge { path: "big.md".to_owned() }
    );
    let doc = document_from_file("max.md".to_owned(), "x".to_owned(), i64::MAX as u64, 1, None, 1)
        .unwrap();
    assert_eq!(doc.size_bytes, i64::MAX);
}

#[test]
fn given_hash_is_stored_as_is() {
    let doc =
        document_with_hash("a.md".to_owned(), "x".to_owned(), 1, 2, Some(3), 4, "h".to_owned())
            .unwrap();
    assert_eq!(doc.content_hash, "h");
    assert_eq!(doc.created_at, 3);
}

#[test]
fn import_writes_every_file() {
    let files = vec![
        FileChange { relative_path: "a.md".to_owned(), path: PathBuf::from("/n/a.md") },
        FileChange { relative_path: "b/c.md".to_owned(), path: PathBuf::from("/n/b/c.md") },
    ];
    let plan = import_dir(files, 9);
    assert_eq!(plan.summary, ImportSummary { imported: 2 });
    assert_eq!(plan.writes.upserts.len(), 2);
    assert_eq!(plan.writes.upserts[1].relative_path, "b/c.md");
    assert!(plan.writes.soft_deletes.is_empty());
    assert_eq!(plan.writes.synced_at, 9);
    assert_eq!(import_dir(Vec::new(), 1).summary, ImportSummary::default());
}
