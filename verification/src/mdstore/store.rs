use vstd::prelude::*;

use crate::mdstore::db::{DocumentUpsert, MetadataView};
use crate::mdstore::status::{
    FileChange, FileClass, ScanRecord, change_paths, changes_with_class, classify, record_paths,
    record_sound,
};

verus! {

/// The writes that bring the store in line with a directory: the files to
/// write, in order, then the paths to soft-delete, all stamped with `synced_at`.
pub struct WritePlan {
    pub upserts: Vec<FileChange>,
    pub soft_deletes: Vec<String>,
    pub synced_at: i64,
}

/// A row of the store's documents table.  A row whose `deleted_at` is set is
/// soft-deleted: it keeps its content but is no longer active.
pub struct StoredRow {
    pub body: Seq<char>,
    pub size_bytes: int,
    pub mtime_ns: int,
    pub content_hash: Seq<char>,
    pub created_at: int,
    pub updated_at: int,
    pub synced_at: int,
    pub deleted_at: Option<int>,
}

/// Writing `doc`: its row takes every field of the document and becomes
/// active; a row that already had the path keeps its creation time.  This is
/// `db::UPSERT_DOCUMENT` run with `db::upsert_parameters(doc)`.
pub open spec fn upsert_row(table: Map<Seq<char>, StoredRow>, doc: DocumentUpsert) -> Map<
    Seq<char>,
    StoredRow,
> {
    let path = doc.path@;
    let created_at = if table.contains_key(path) {
        table[path].created_at
    } else {
        doc.created_at as int
    };
    table.insert(
        path,
        StoredRow {
            body: doc.body@,
            size_bytes: doc.size_bytes as int,
            mtime_ns: doc.mtime_ns as int,
            content_hash: doc.content_hash@,
            created_at,
            updated_at: doc.updated_at as int,
            synced_at: doc.synced_at as int,
            deleted_at: None,
        },
    )
}

/// Soft-deleting `path` at time `at`: an active row of that path is marked
/// deleted and synced at `at`; anything else is left as it is.  This is
/// `db::SOFT_DELETE_DOCUMENT` run with `db::soft_delete_parameters(path, at)`.
pub open spec fn soft_delete_row(table: Map<Seq<char>, StoredRow>, path: Seq<char>, at: int) -> Map<
    Seq<char>,
    StoredRow,
> {
    if table.contains_key(path) && table[path].deleted_at is None {
        table.insert(path, StoredRow { deleted_at: Some(at), synced_at: at, ..table[path] })
    } else {
        table
    }
}

/// Writing `docs` in order.
pub open spec fn upsert_all(table: Map<Seq<char>, StoredRow>, docs: Seq<DocumentUpsert>) -> Map<
    Seq<char>,
    StoredRow,
>
    decreases docs.len(),
{
    if docs.len() == 0 {
        table
    } else {
        upsert_row(upsert_all(table, docs.drop_last()), docs.last())
    }
}

/// Soft-deleting `paths` in order, all at time `at`.
pub open spec fn soft_delete_all(
    table: Map<Seq<char>, StoredRow>,
    paths: Seq<Seq<char>>,
    at: int,
) -> Map<Seq<char>, StoredRow>
    decreases paths.len(),
{
    if paths.len() == 0 {
        table
    } else {
        soft_delete_row(soft_delete_all(table, paths.drop_last(), at), paths.last(), at)
    }
}

/// What change detection reads of the table: its active rows, keyed by path.
pub open spec fn active_metadata(table: Map<Seq<char>, StoredRow>) -> Map<Seq<char>, MetadataView> {
    Map::new(
        |p: Seq<char>| table.contains_key(p) && table[p].deleted_at is None,
        |p: Seq<char>|
            MetadataView {
                size_bytes: table[p].size_bytes,
                mtime_ns: table[p].mtime_ns,
                content_hash: table[p].content_hash,
            },
    )
}

/// A Markdown file as it is on disk: its path relative to the scanned
/// directory, its size, its modification time and the digest of its content.
pub struct FileObservation {
    pub relative_path: Seq<char>,
    pub size_bytes: int,
    pub mtime_ns: int,
    pub content_hash: Seq<char>,
}

/// What a scan learned of a file agrees with the file as it is.
pub open spec fn observed(r: ScanRecord, file: FileObservation) -> bool {
    &&& r.file.relative_path@ == file.relative_path
    &&& r.size_bytes matches Some(s) ==> s == file.size_bytes
    &&& r.mtime_ns matches Some(t) ==> t == file.mtime_ns
    &&& r.content_hash matches Some(h) ==> h == file.content_hash
}

/// The document written for a file carries the file's path, size, time and digest.
pub open spec fn written_for(doc: DocumentUpsert, file: FileObservation) -> bool {
    &&& doc.path@ == file.relative_path
    &&& doc.size_bytes == file.size_bytes
    &&& doc.mtime_ns == file.mtime_ns
    &&& doc.content_hash@ == file.content_hash
}

/// The paths of the documents `docs`.
pub open spec fn document_paths(docs: Seq<DocumentUpsert>) -> Seq<Seq<char>> {
    docs.map_values(|d: DocumentUpsert| d.path@)
}

/// After writing `docs`, a path that one of them has holds an active row with
/// the size, time and digest of one of the documents of that path; any other
/// path keeps its row.
pub proof fn lemma_upsert_all_row(
    table: Map<Seq<char>, StoredRow>,
    docs: Seq<DocumentUpsert>,
    p: Seq<char>,
)
    ensures
        (exists|k: int| 0 <= k < docs.len() && #[trigger] docs[k].path@ == p) ==> {
            let after = upsert_all(table, docs);
            &&& after.contains_key(p)
            &&& after[p].deleted_at is None
            &&& exists|k: int|
                0 <= k < docs.len() && #[trigger] docs[k].path@ == p && after[p].size_bytes
                    == docs[k].size_bytes && after[p].mtime_ns == docs[k].mtime_ns
                    && after[p].content_hash == docs[k].content_hash@
        },
        (forall|k: int| 0 <= k < docs.len() ==> #[trigger] docs[k].path@ != p) ==> {
            let after = upsert_all(table, docs);
            &&& after.contains_key(p) == table.contains_key(p)
            &&& table.contains_key(p) ==> after[p] == table[p]
        },
    decreases docs.len(),
{
    if docs.len() > 0 {
        let prefix = docs.drop_last();
        lemma_upsert_all_row(table, prefix, p);
        assert forall|k: int| 0 <= k < prefix.len() implies prefix[k] == docs[k] by {}
        if docs.last().path@ == p {
            let k = docs.len() - 1;
            assert(docs[k].path@ == p);
        } else if exists|k: int| 0 <= k < docs.len() && #[trigger] docs[k].path@ == p {
            let k = choose|k: int| 0 <= k < docs.len() && #[trigger] docs[k].path@ == p;
            assert(k < prefix.len());
            assert(prefix[k].path@ == p);
        } else {
            assert forall|k: int| 0 <= k < prefix.len() implies #[trigger] prefix[k].path@ != p by {
                assert(docs[k].path@ != p);
            }
        }
    }
}

/// After soft-deleting `paths`, none of them is active, and every other path
/// keeps its row.
pub proof fn lemma_soft_delete_all_row(
    table: Map<Seq<char>, StoredRow>,
    paths: Seq<Seq<char>>,
    at: int,
    p: Seq<char>,
)
    ensures
        paths.contains(p) ==> !active_metadata(soft_delete_all(table, paths, at)).contains_key(p),
        !paths.contains(p) ==> {
            let after = soft_delete_all(table, paths, at);
            &&& after.contains_key(p) == table.contains_key(p)
            &&& table.contains_key(p) ==> after[p] == table[p]
        },
    decreases paths.len(),
{
    if paths.len() > 0 {
        let prefix = paths.drop_last();
        lemma_soft_delete_all_row(table, prefix, at, p);
        if paths.contains(p) && paths.last() != p {
            let k = choose|k: int| 0 <= k < paths.len() && paths[k] == p;
            assert(prefix[k] == p);
        }
        if !paths.contains(p) {
            if prefix.contains(p) {
                let k = choose|k: int| 0 <= k < prefix.len() && prefix[k] == p;
                assert(paths[k] == p);
            }
            assert(paths[paths.len() - 1] != p);
        }
    }
}

proof fn lemma_class_listed(records: Seq<ScanRecord>, class: FileClass, i: int)
    requires
        0 <= i < records.len(),
        records[i].class == class,
    ensures
        change_paths(changes_with_class(records, class)).contains(records[i].file.relative_path@),
    decreases records.len(),
{
    let prefix = records.drop_last();
    let listed = changes_with_class(records, class);
    if i == records.len() - 1 {
        assert(listed[listed.len() - 1] == records[i].file);
        assert(change_paths(listed)[listed.len() - 1] == records[i].file.relative_path@);
    } else {
        lemma_class_listed(prefix, class, i);
        let before = changes_with_class(prefix, class);
        let k = choose|k: int|
            0 <= k < change_paths(before).len() && change_paths(before)[k]
                == records[i].file.relative_path@;
        if records.last().class == class {
            assert(listed == before.push(records.last().file));
            assert(change_paths(listed)[k] == change_paths(before)[k]);
        }
    }
}

/// The class a scan gives a file is the class `classify` gives the file as it
/// is, though the scan looked at its size, time and content only as far as
/// it needed to.
pub proof fn lemma_record_classifies_file(
    store: Map<Seq<char>, MetadataView>,
    r: ScanRecord,
    file: FileObservation,
)
    requires
        record_sound(store, r),
        observed(r, file),
    ensures
        r.class == classify(
            store,
            file.relative_path,
            file.size_bytes,
            file.mtime_ns,
            file.content_hash,
        ),
{
}

/// Sync brings the store in line with the directory.  Let a scan compare the
/// directory's files with the table's active rows, and let the sync write, for
/// each new or modified file, a document with the file's current size, time
/// and digest, then soft-delete the paths the scan found deleted.  Afterwards
/// the active rows are exactly the directory's files, and comparing the same
/// files again finds every one of them unchanged.
pub proof fn lemma_sync_reconciles(
    table: Map<Seq<char>, StoredRow>,
    records: Seq<ScanRecord>,
    files: Seq<FileObservation>,
    written: Seq<DocumentUpsert>,
    deleted: Seq<Seq<char>>,
    at: int,
)
    requires
        records.len() == files.len(),
        forall|i: int| 0 <= i < records.len() ==> record_sound(active_metadata(table), #[trigger] records[i]),
        forall|i: int| 0 <= i < records.len() ==> observed(#[trigger] records[i], files[i]),
        record_paths(records).no_duplicates(),
        forall|p: Seq<char>|
            #![trigger deleted.contains(p)]
            deleted.contains(p) <==> (active_metadata(table).contains_key(p) && !record_paths(
                records,
            ).contains(p)),
        document_paths(written) == change_paths(
            changes_with_class(records, FileClass::New) + changes_with_class(records, FileClass::Modified),
        ),
        forall|k: int|
            0 <= k < written.len() ==> exists|j: int|
                0 <= j < files.len() && written_for(#[trigger] written[k], files[j]),
    ensures
        ({
            let after = soft_delete_all(upsert_all(table, written), deleted, at);
            &&& active_metadata(after).dom() == record_paths(records).to_set()
            &&& forall|i: int|
                0 <= i < files.len() ==> classify(
                    active_metadata(after),
                    #[trigger] files[i].relative_path,
                    files[i].size_bytes,
                    files[i].mtime_ns,
                    files[i].content_hash,
                ) == FileClass::Unchanged
        }),
{
    let upserted = upsert_all(table, written);
    let after = soft_delete_all(upserted, deleted, at);
    let new_changes = changes_with_class(records, FileClass::New);
    let modified_changes = changes_with_class(records, FileClass::Modified);
    assert(change_paths(new_changes + modified_changes) =~= change_paths(new_changes) + change_paths(
        modified_changes,
    ));
    // Each file of the directory ends up active with its current metadata, or unchanged.
    assert forall|i: int| 0 <= i < files.len() implies {
        &&& active_metadata(after).contains_key(#[trigger] files[i].relative_path)
        &&& classify(
            active_metadata(after),
            files[i].relative_path,
            files[i].size_bytes,
            files[i].mtime_ns,
            files[i].content_hash,
        ) == FileClass::Unchanged
    } by {
        let p = files[i].relative_path;
        let r = records[i];
        assert(record_paths(records)[i] == p);
        lemma_upsert_all_row(table, written, p);
        lemma_soft_delete_all_row(upserted, deleted, at, p);
        if exists|k: int| 0 <= k < written.len() && #[trigger] written[k].path@ == p {
            let k = choose|k: int|
                0 <= k < written.len() && #[trigger] written[k].path@ == p
                    && upserted[p].size_bytes == written[k].size_bytes && upserted[p].mtime_ns
                    == written[k].mtime_ns && upserted[p].content_hash == written[k].content_hash@;
            let j = choose|j: int| 0 <= j < files.len() && written_for(written[k], files[j]);
            assert(record_paths(records)[j] == p);
            assert(j == i);
        } else {
            if r.class == FileClass::New || r.class == FileClass::Modified {
                lemma_class_listed(records, r.class, i);
                let listed = change_paths(new_changes) + change_paths(modified_changes);
                assert(listed.contains(p)) by {
                    if r.class == FileClass::New {
                        let m = choose|m: int| 0 <= m < change_paths(new_changes).len() && change_paths(new_changes)[m] == p;
                        assert(listed[m] == p);
                    } else {
                        let m = choose|m: int| 0 <= m < change_paths(modified_changes).len() && change_paths(modified_changes)[m] == p;
                        assert(listed[change_paths(new_changes).len() + m] == p);
                    }
                }
                let m = choose|m: int| 0 <= m < listed.len() && listed[m] == p;
                assert(document_paths(written)[m] == p);
                assert(written[m].path@ == p);
            }
            lemma_record_classifies_file(active_metadata(table), r, files[i]);
        }
    }
    // Nothing else stays active.
    assert forall|p: Seq<char>| active_metadata(after).contains_key(p) implies record_paths(records).contains(p) by {
        lemma_upsert_all_row(table, written, p);
        lemma_soft_delete_all_row(upserted, deleted, at, p);
        if exists|k: int| 0 <= k < written.len() && #[trigger] written[k].path@ == p {
            let k = choose|k: int| 0 <= k < written.len() && #[trigger] written[k].path@ == p;
            let j = choose|j: int| 0 <= j < files.len() && written_for(written[k], files[j]);
            assert(record_paths(records)[j] == p);
        }
    }
    assert forall|p: Seq<char>| record_paths(records).contains(p) implies active_metadata(after).contains_key(p) by {
        let i = choose|i: int| 0 <= i < record_paths(records).len() && record_paths(records)[i] == p;
        assert(files[i].relative_path == p);
    }
    assert(active_metadata(after).dom() =~= record_paths(records).to_set());
}

/// Writing a document makes its path active with the document's content and
/// metadata (a later read of the store gives back what was written), keeps the
/// creation time of a row that had the path, even a soft-deleted one, and
/// leaves every other path as it was.
pub proof fn lemma_upsert_then_read(
    table: Map<Seq<char>, StoredRow>,
    doc: DocumentUpsert,
    other: Seq<char>,
)
    requires
        other != doc.path@,
    ensures
        ({
            let after = upsert_row(table, doc);
            &&& active_metadata(after).contains_key(doc.path@)
            &&& active_metadata(after)[doc.path@] == MetadataView {
                size_bytes: doc.size_bytes as int,
                mtime_ns: doc.mtime_ns as int,
                content_hash: doc.content_hash@,
            }
            &&& after[doc.path@].body == doc.body@
            &&& after[doc.path@].updated_at == doc.updated_at
            &&& after[doc.path@].synced_at == doc.synced_at
            &&& after[doc.path@].created_at == (if table.contains_key(doc.path@) {
                table[doc.path@].created_at
            } else {
                doc.created_at as int
            })
            &&& after.contains_key(other) == table.contains_key(other)
            &&& table.contains_key(other) ==> after[other] == table[other]
        }),
{
}

/// Soft-deleting an active path hides it from change detection while its row
/// keeps its content, marked deleted and synced at that time; doing it again
/// changes nothing, and no other path is touched.
pub proof fn lemma_soft_delete_hides(
    table: Map<Seq<char>, StoredRow>,
    path: Seq<char>,
    at: int,
    later: int,
    other: Seq<char>,
)
    requires
        active_metadata(table).contains_key(path),
        other != path,
    ensures
        ({
            let after = soft_delete_row(table, path, at);
            &&& !active_metadata(after).contains_key(path)
            &&& after.contains_key(path)
            &&& after[path].body == table[path].body
            &&& after[path].content_hash == table[path].content_hash
            &&& after[path].deleted_at == Some(at)
            &&& after[path].synced_at == at
            &&& soft_delete_row(after, path, later) == after
            &&& after.contains_key(other) == table.contains_key(other)
            &&& table.contains_key(other) ==> after[other] == table[other]
        }),
{
}

/// Import writes every file, so afterwards each file of the directory is
/// active with its current metadata (a new comparison finds it unchanged),
/// and the rows that were active stay active: import deletes nothing.
pub proof fn lemma_import_covers(
    table: Map<Seq<char>, StoredRow>,
    files: Seq<FileObservation>,
    written: Seq<DocumentUpsert>,
)
    requires
        written.len() == files.len(),
        forall|i: int| 0 <= i < files.len() ==> written_for(#[trigger] written[i], files[i]),
        forall|i: int, j: int|
            0 <= i < files.len() && 0 <= j < files.len() && #[trigger] files[i].relative_path
                == #[trigger] files[j].relative_path ==> i == j,
    ensures
        ({
            let after = upsert_all(table, written);
            &&& forall|i: int|
                0 <= i < files.len() ==> classify(
                    active_metadata(after),
                    #[trigger] files[i].relative_path,
                    files[i].size_bytes,
                    files[i].mtime_ns,
                    files[i].content_hash,
                ) == FileClass::Unchanged
            &&& forall|p: Seq<char>|
                #[trigger] active_metadata(after).contains_key(p) <==> (active_metadata(
                    table,
                ).contains_key(p) || exists|i: int|
                    0 <= i < files.len() && #[trigger] files[i].relative_path == p)
        }),
{
    let after = upsert_all(table, written);
    assert forall|i: int| 0 <= i < files.len() implies classify(
        active_metadata(after),
        #[trigger] files[i].relative_path,
        files[i].size_bytes,
        files[i].mtime_ns,
        files[i].content_hash,
    ) == FileClass::Unchanged by {
        let p = files[i].relative_path;
        lemma_upsert_all_row(table, written, p);
        assert(written[i].path@ == p);
        let k = choose|k: int|
            0 <= k < written.len() && #[trigger] written[k].path@ == p && after[p].size_bytes
                == written[k].size_bytes && after[p].mtime_ns == written[k].mtime_ns
                && after[p].content_hash == written[k].content_hash@;
        assert(files[k].relative_path == p);
    }
    assert forall|p: Seq<char>|
        #[trigger] active_metadata(after).contains_key(p) <==> (active_metadata(table).contains_key(p)
            || exists|i: int| 0 <= i < files.len() && #[trigger] files[i].relative_path == p) by {
        lemma_upsert_all_row(table, written, p);
        if exists|i: int| 0 <= i < files.len() && #[trigger] files[i].relative_path == p {
            let i = choose|i: int| 0 <= i < files.len() && #[trigger] files[i].relative_path == p;
            assert(written[i].path@ == p);
        }
        if exists|k: int| 0 <= k < written.len() && #[trigger] written[k].path@ == p {
            let k = choose|k: int| 0 <= k < written.len() && #[trigger] written[k].path@ == p;
            assert(files[k].relative_path == p);
        }
    }
}

proof fn lemma_all_unchanged(records: Seq<ScanRecord>)
    requires
        forall|i: int| 0 <= i < records.len() ==> #[trigger] records[i].class == FileClass::Unchanged,
    ensures
        changes_with_class(records, FileClass::New).len() == 0,
        changes_with_class(records, FileClass::Modified).len() == 0,
        changes_with_class(records, FileClass::Unchanged).len() == records.len(),
    decreases records.len(),
{
    if records.len() > 0 {
        let prefix = records.drop_last();
        assert forall|i: int| 0 <= i < prefix.len() implies #[trigger] prefix[i].class
            == FileClass::Unchanged by {
            assert(prefix[i] == records[i]);
        }
        lemma_all_unchanged(prefix);
        assert(records.last().class == FileClass::Unchanged);
    }
}

/// A second sync of an unchanged directory does nothing.  Where the table's
/// active rows are exactly the directory's files and each file compares as
/// unchanged (as `lemma_sync_reconciles` leaves it), a scan of the same files
/// finds no new, modified or deleted file and every file unchanged, so its
/// plan writes nothing and the table stays as it is.
pub proof fn lemma_second_sync_changes_nothing(
    table: Map<Seq<char>, StoredRow>,
    records: Seq<ScanRecord>,
    files: Seq<FileObservation>,
    at: int,
)
    requires
        records.len() == files.len(),
        forall|i: int| 0 <= i < records.len() ==> record_sound(active_metadata(table), #[trigger] records[i]),
        forall|i: int| 0 <= i < records.len() ==> observed(#[trigger] records[i], files[i]),
        active_metadata(table).dom() == record_paths(records).to_set(),
        forall|i: int|
            0 <= i < files.len() ==> classify(
                active_metadata(table),
                #[trigger] files[i].relative_path,
                files[i].size_bytes,
                files[i].mtime_ns,
                files[i].content_hash,
            ) == FileClass::Unchanged,
    ensures
        changes_with_class(records, FileClass::New).len() == 0,
        changes_with_class(records, FileClass::Modified).len() == 0,
        changes_with_class(records, FileClass::Unchanged).len() == records.len(),
        forall|p: Seq<char>|
            !(#[trigger] active_metadata(table).contains_key(p) && !record_paths(records).contains(p)),
        soft_delete_all(
            upsert_all(table, Seq::<DocumentUpsert>::empty()),
            Seq::<Seq<char>>::empty(),
            at,
        ) == table,
{
    assert forall|i: int| 0 <= i < records.len() implies #[trigger] records[i].class
        == FileClass::Unchanged by {
        lemma_record_classifies_file(active_metadata(table), records[i], files[i]);
        assert(files[i].relative_path == files[i].relative_path);
    }
    lemma_all_unchanged(records);
    assert forall|p: Seq<char>|
        !(#[trigger] active_metadata(table).contains_key(p) && !record_paths(records).contains(p)) by {
        if active_metadata(table).contains_key(p) {
            assert(active_metadata(table).dom().contains(p));
            assert(record_paths(records).to_set().contains(p));
        }
    }
}

/// Importing the same files again adds no row: rows are keyed by path, so a
/// second write of the same paths replaces rows and never duplicates them.
pub proof fn lemma_reimport_adds_no_rows(
    table: Map<Seq<char>, StoredRow>,
    first: Seq<DocumentUpsert>,
    second: Seq<DocumentUpsert>,
)
    requires
        document_paths(second).to_set() == document_paths(first).to_set(),
    ensures
        upsert_all(upsert_all(table, first), second).dom() == upsert_all(table, first).dom(),
        active_metadata(upsert_all(upsert_all(table, first), second)).dom() == active_metadata(
            upsert_all(table, first),
        ).dom(),
{
    let once = upsert_all(table, first);
    let twice = upsert_all(once, second);
    assert forall|p: Seq<char>| #[trigger] twice.contains_key(p) == once.contains_key(p) && (
    active_metadata(twice).contains_key(p) == active_metadata(once).contains_key(p)) by {
        lemma_upsert_all_row(once, second, p);
        lemma_upsert_all_row(table, first, p);
        if exists|k: int| 0 <= k < second.len() && #[trigger] second[k].path@ == p {
            let k = choose|k: int| 0 <= k < second.len() && #[trigger] second[k].path@ == p;
            assert(document_paths(second)[k] == p);
            assert(document_paths(second).to_set().contains(p));
            assert(document_paths(first).to_set().contains(p));
            let j = choose|j: int| 0 <= j < document_paths(first).len() && document_paths(first)[j] == p;
            assert(first[j].path@ == p);
        }
    }
    assert(twice.dom() =~= once.dom());
    assert(active_metadata(twice).dom() =~= active_metadata(once).dom());
}

} // verus!
