use mdlite::mdstore::db::{SCHEMA, SEARCH_DOCUMENTS, SOFT_DELETE_DOCUMENT, UPSERT_DOCUMENT};
use rusqlite::Connection;

fn upsert(conn: &Connection, path: &str, body: &str, hash: &str) {
    conn.execute(
        UPSERT_DOCUMENT,
        (path, body, body.len() as i64, 1_i64, hash, 1_i64, 1_i64, 1_i64),
    )
    .unwrap();
}

fn search(conn: &Connection, query: &str, limit: u32) -> Vec<String> {
    let mut statement = conn.prepare(SEARCH_DOCUMENTS).unwrap();
    statement
        .query_map((query, i64::from(limit)), |row| row.get::<_, String>(0))
        .unwrap()
        .collect::<Result<Vec<_>, _>>()
        .unwrap()
}

#[test]
fn searches_non_deleted_documents() {
    let conn = Connection::open_in_memory().unwrap();
    conn.execute_batch(SCHEMA).unwrap();
    upsert(&conn, "sqlite.md", "sqlite full text search", "hash-1");
    upsert(&conn, "other.md", "unrelated markdown", "hash-2");

    let results = search(&conn, "sqlite", 20);

    assert_eq!(results.len(), 1);
    assert_eq!(results[0], "sqlite.md");
}

#[test]
fn soft_deleted_documents_are_not_found() {
    let conn = Connection::open_in_memory().unwrap();
    conn.execute_batch(SCHEMA).unwrap();
    upsert(&conn, "sqlite.md", "sqlite full text search", "hash-1");
    upsert(&conn, "more.md", "more sqlite notes", "hash-3");
    conn.execute(SOFT_DELETE_DOCUMENT, (5_i64, "sqlite.md")).unwrap();

    assert_eq!(search(&conn, "sqlite", 20), vec!["more.md".to_owned()]);
    assert_eq!(search(&conn, "sqlite", 0), Vec::<String>::new());
}

#[test]
fn rewritten_body_replaces_the_index_entry() {
    let conn = Connection::open_in_memory().unwrap();
    conn.execute_batch(SCHEMA).unwrap();
    upsert(&conn, "a.md", "apples", "h1");
    upsert(&conn, "a.md", "oranges", "h2");
    assert!(search(&conn, "apples", 20).is_empty());
    assert_eq!(search(&conn, "oranges", 20), vec!["a.md".to_owned()]);
}
