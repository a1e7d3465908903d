use std::path::PathBuf;
use vstd::prelude::*;

use crate::mdstore::db::{
    DocumentMetadata, MetadataView, find_by_path, latest_with_path, lemma_latest_characterized,
    lemma_latest_with_path, metadata_view,
};
use crate::mdstore::error::StoreError;
use crate::mdstore::hash::{blake3_hex, content_hash};

verus! {

#[verifier::external_type_specification]
#[verifier::external_body]
pub struct ExPathBuf(PathBuf);

/// How many files fall in each class of a comparison.
#[derive(Debug, PartialEq, Eq)]
pub struct StatusSummary {
    pub new: usize,
    pub modified: usize,
    pub deleted: usize,
    pub unchanged: usize,
}

impl Default for StatusSummary {
    fn default() -> (summary: Self)
        ensures
            summary.new == 0,
            summary.modified == 0,
            summary.deleted == 0,
            summary.unchanged == 0,
    {
        StatusSummary { new: 0, modified: 0, deleted: 0, unchanged: 0 }
    }
}

/// A Markdown file that has to be written to the store: its path relative to
/// the scanned directory, and the path to read it from.
#[derive(Debug, PartialEq, Eq)]
pub struct FileChange {
    pub relative_path: String,
    pub path: PathBuf,
}

/// The comparison of a directory with the store's active records.
#[derive(Debug, PartialEq, Eq)]
pub struct StatusDiff {
    pub new: Vec<FileChange>,
    pub modified: Vec<FileChange>,
    pub deleted: Vec<String>,
    pub unchanged: Vec<String>,
}

impl Default for StatusDiff {
    fn default() -> (diff: Self)
        ensures
            diff.new@.len() == 0,
            diff.modified@.len() == 0,
            diff.deleted@.len() == 0,
            diff.unchanged@.len() == 0,
    {
        StatusDiff { new: Vec::new(), modified: Vec::new(), deleted: Vec::new(), unchanged: Vec::new() }
    }
}

impl StatusDiff {
    /// The number of files in each class.
    pub fn summary(&self) -> (summary: StatusSummary)
        ensures
            summary.new == self.new@.len(),
            summary.modified == self.modified@.len(),
            summary.deleted == self.deleted@.len(),
            summary.unchanged == self.unchanged@.len(),
    {
        StatusSummary {
            new: self.new.len(),
            modified: self.modified.len(),
            deleted: self.deleted.len(),
            unchanged: self.unchanged.len(),
        }
    }
}

/// The relative paths of `changes`.
pub open spec fn change_paths(changes: Seq<FileChange>) -> Seq<Seq<char>> {
    changes.map_values(|c: FileChange| c.relative_path@)
}

/// The contents of `items`.
pub open spec fn string_views(items: Seq<String>) -> Seq<Seq<char>> {
    items.map_values(|s: String| s@)
}

/// Where a file of the directory stands against the store.
#[derive(Debug, PartialEq, Eq)]
pub enum FileClass {
    New,
    Unchanged,
    Modified,
}

/// How a file compares with the store's active records `store`, given the
/// size, modification time and content hash that the file has now.  Its
/// content counts only where its size or time differ from the record's.
pub open spec fn classify(
    store: Map<Seq<char>, MetadataView>,
    path: Seq<char>,
    size_bytes: int,
    mtime_ns: int,
    content_hash: Seq<char>,
) -> FileClass {
    if !store.contains_key(path) {
        FileClass::New
    } else if store[path].size_bytes == size_bytes && store[path].mtime_ns == mtime_ns {
        FileClass::Unchanged
    } else if store[path].content_hash == content_hash {
        FileClass::Unchanged
    } else {
        FileClass::Modified
    }
}

/// What a scan learned of one file: its size and time where they were asked
/// for, its content hash where it was computed, and the class it was given.
pub struct ScanRecord {
    pub file: FileChange,
    pub size_bytes: Option<int>,
    pub mtime_ns: Option<int>,
    pub content_hash: Option<Seq<char>>,
    pub class: FileClass,
}

/// A record follows the rules of a scan: the size and time are asked for only
/// where the store knows the path, the content only where they differ from the
/// record, and the class is the one `classify` gives.
pub open spec fn record_sound(store: Map<Seq<char>, MetadataView>, r: ScanRecord) -> bool {
    let path = r.file.relative_path@;
    if !store.contains_key(path) {
        &&& r.class == FileClass::New
        &&& r.size_bytes is None
        &&& r.mtime_ns is None
        &&& r.content_hash is None
    } else {
        &&& r.size_bytes is Some
        &&& r.mtime_ns is Some
        &&& if store[path].size_bytes == r.size_bytes->0 && store[path].mtime_ns == r.mtime_ns->0 {
            &&& r.content_hash is None
            &&& r.class == FileClass::Unchanged
        } else {
            &&& r.content_hash is Some
            &&& r.class == classify(
                store,
                path,
                r.size_bytes->0,
                r.mtime_ns->0,
                r.content_hash->0,
            )
        }
    }
}

/// The files of `records` that were given `class`, in scan order.
pub open spec fn changes_with_class(records: Seq<ScanRecord>, class: FileClass) -> Seq<FileChange>
    decreases records.len(),
{
    if records.len() == 0 {
        Seq::empty()
    } else {
        let rest = changes_with_class(records.drop_last(), class);
        if records.last().class == class {
            rest.push(records.last().file)
        } else {
            rest
        }
    }
}

/// The relative paths of the files of `records` that were given `class`.
pub open spec fn paths_with_class(records: Seq<ScanRecord>, class: FileClass) -> Seq<Seq<char>> {
    change_paths(changes_with_class(records, class))
}

/// The relative paths of all scanned files, in scan order.
pub open spec fn record_paths(records: Seq<ScanRecord>) -> Seq<Seq<char>> {
    records.map_values(|r: ScanRecord| r.file.relative_path@)
}

/// Every scanned file is counted once: the new, modified and unchanged files
/// together are as many as the files scanned.
pub proof fn lemma_scan_partitions(records: Seq<ScanRecord>)
    ensures
        changes_with_class(records, FileClass::New).len() + changes_with_class(
            records,
            FileClass::Modified,
        ).len() + changes_with_class(records, FileClass::Unchanged).len() == records.len(),
    decreases records.len(),
{
    if records.len() > 0 {
        lemma_scan_partitions(records.drop_last());
    }
}

/// What the caller of a scan has to do next.
#[derive(Debug, PartialEq, Eq)]
pub enum ScanStep {
    /// The file is classified; go on with the next one.
    Classified,
    /// Hand over the file's length and modification time.
    NeedMetadata,
    /// Hand over the file's content.
    NeedContent,
}

struct PendingFile {
    change: FileChange,
    doc: usize,
    size_bytes: i64,
    mtime_ns: i64,
    awaiting_content: bool,
}

/// A comparison of a directory with the store's active records, fed one file
/// at a time.  The scan reads a file's length and time only where the store
/// knows its path, and its content only where those differ from the record.
pub struct DiffScan {
    documents: Vec<DocumentMetadata>,
    seen: Vec<String>,
    diff: StatusDiff,
    pending: Option<PendingFile>,
    records: Ghost<Seq<ScanRecord>>,
}

/// Pushing a record adds it to the list of its class only.
proof fn lemma_push_record(records: Seq<ScanRecord>, r: ScanRecord)
    ensures
        changes_with_class(records.push(r), r.class) == changes_with_class(records, r.class).push(
            r.file,
        ),
        forall|c: FileClass| c != r.class ==> #[trigger] changes_with_class(records.push(r), c)
            == changes_with_class(records, c),
        record_paths(records.push(r)) == record_paths(records).push(r.file.relative_path@),
{
    assert(records.push(r).drop_last() == records);
    assert(record_paths(records.push(r)) =~= record_paths(records).push(r.file.relative_path@));
}

proof fn lemma_change_paths_push(changes: Seq<FileChange>, c: FileChange)
    ensures
        change_paths(changes.push(c)) == change_paths(changes).push(c.relative_path@),
{
    assert(change_paths(changes.push(c)) =~= change_paths(changes).push(c.relative_path@));
}

proof fn lemma_string_views_push(items: Seq<String>, s: String)
    ensures
        string_views(items.push(s)) == string_views(items).push(s@),
{
    assert(string_views(items.push(s)) =~= string_views(items).push(s@));
}

/// Whether `path` is one of `items`.
fn contains_string(items: &Vec<String>, path: &String) -> (found: bool)
    ensures
        found == string_views(items@).contains(path@),
{
    let mut i: usize = 0;
    while i < items.len()
        invariant
            i <= items@.len(),
            forall|j: int| 0 <= j < i ==> #[trigger] items@[j]@ != path@,
        decreases items@.len() - i,
    {
        if items[i] == *path {
            assert(string_views(items@)[i as int] == path@);
            return true;
        }
        i = i + 1;
    }
    assert forall|j: int| 0 <= j < string_views(items@).len() implies string_views(items@)[j]
        != path@ by {
        assert(items@[j]@ != path@);
    }
    false
}

/// Whether no record after `i` has the path of record `i`.
fn is_latest(docs: &Vec<DocumentMetadata>, i: usize) -> (latest: bool)
    requires
        i < docs@.len(),
    ensures
        latest == (latest_with_path(docs@, docs@[i as int].path@) == Some(i as int)),
{
    proof {
        lemma_latest_characterized(docs@, i as int);
    }
    let n = docs.len();
    let mut j: usize = i + 1;
    while j < n
        invariant
            i < j <= docs@.len(),
            n == docs@.len(),
            forall|k: int| i < k < j ==> #[trigger] docs@[k].path@ != docs@[i as int].path@,
        decreases docs@.len() - j,
    {
        if docs[j].path == docs[i].path {
            proof {
                lemma_latest_characterized(docs@, i as int);
                assert(docs@[j as int].path@ == docs@[i as int].path@);
            }
            return false;
        }
        j = j + 1;
    }
    true
}

impl DiffScan {
    /// The store's active records that the directory is compared with.
    pub closed spec fn documents(self) -> Seq<DocumentMetadata> {
        self.documents@
    }

    /// The store's active records keyed by path.
    pub open spec fn store(self) -> Map<Seq<char>, MetadataView> {
        metadata_view(self.documents())
    }

    /// What the scan has learned of each file it classified, in order.
    pub closed spec fn records(self) -> Seq<ScanRecord> {
        self.records@
    }

    /// The scan waits for the next file.
    pub closed spec fn awaiting_file(self) -> bool {
        self.pending is None
    }

    /// The scan waits for the current file's length and time.
    pub closed spec fn awaiting_metadata(self) -> bool {
        self.pending matches Some(p) && !p.awaiting_content
    }

    /// The scan waits for the current file's content.
    pub closed spec fn awaiting_content(self) -> bool {
        self.pending matches Some(p) && p.awaiting_content
    }

    /// The file being classified.
    pub closed spec fn pending_file(self) -> FileChange {
        self.pending->0.change
    }

    /// The size and time of the file being classified, once handed over.
    pub closed spec fn pending_size_bytes(self) -> int {
        self.pending->0.size_bytes as int
    }

    pub closed spec fn pending_mtime_ns(self) -> int {
        self.pending->0.mtime_ns as int
    }

    /// The scan's own invariant.
    pub closed spec fn wf(self) -> bool {
        let records = self.records@;
        let store = metadata_view(self.documents@);
        &&& self.diff.new@ == changes_with_class(records, FileClass::New)
        &&& self.diff.modified@ == changes_with_class(records, FileClass::Modified)
        &&& string_views(self.diff.unchanged@) == paths_with_class(records, FileClass::Unchanged)
        &&& self.diff.deleted@.len() == 0
        &&& string_views(self.seen@) == record_paths(records)
        &&& forall|i: int| 0 <= i < records.len() ==> record_sound(store, #[trigger] records[i])
        &&& match self.pending {
            None => true,
            Some(p) => {
                &&& p.doc < self.documents@.len()
                &&& latest_with_path(self.documents@, p.change.relative_path@) == Some(
                    p.doc as int,
                )
                &&& p.awaiting_content ==> !(self.documents@[p.doc as int].size_bytes
                    == p.size_bytes && self.documents@[p.doc as int].mtime_ns == p.mtime_ns)
            },
        }
    }

    /// Every file a valid scan has classified was classified by the scan's
    /// rules against the store's records.
    pub proof fn lemma_records_sound(self)
        requires
            self.wf(),
        ensures
            forall|i: int|
                0 <= i < self.records().len() ==> record_sound(self.store(), #[trigger] self.records()[i]),
    {
    }

    /// Starts a comparison with the store's active records `documents`.
    pub fn new(documents: Vec<DocumentMetadata>) -> (scan: Self)
        ensures
            scan.wf(),
            scan.documents() == documents@,
            scan.records() == Seq::<ScanRecord>::empty(),
            scan.awaiting_file(),
    {
        let scan = DiffScan {
            documents,
            seen: Vec::new(),
            diff: StatusDiff::default(),
            pending: None,
            records: Ghost(Seq::empty()),
        };
        proof {
            assert(scan.diff.new@ =~= changes_with_class(scan.records@, FileClass::New));
            assert(scan.diff.modified@ =~= changes_with_class(scan.records@, FileClass::Modified));
            assert(string_views(scan.diff.unchanged@) =~= paths_with_class(
                scan.records@,
                FileClass::Unchanged,
            ));
            assert(string_views(scan.seen@) =~= record_paths(scan.records@));
        }
        scan
    }

    /// Which step the scan waits for.
    pub fn next_step(&self) -> (step: ScanStep)
        ensures
            step == ScanStep::Classified <==> self.awaiting_file(),
            step == ScanStep::NeedMetadata <==> self.awaiting_metadata(),
            step == ScanStep::NeedContent <==> self.awaiting_content(),
    {
        match &self.pending {
            None => ScanStep::Classified,
            Some(p) => if p.awaiting_content {
                ScanStep::NeedContent
            } else {
                ScanStep::NeedMetadata
            },
        }
    }

    /// Takes the next file of the directory: its path relative to the
    /// directory and the path to read it from.  A path the store does not
    /// know is new; for a known one the scan asks for the file's metadata.
    pub fn begin_file(&mut self, relative_path: String, path: PathBuf) -> (step: ScanStep)
        requires
            old(self).wf(),
            old(self).awaiting_file(),
        ensures
            final(self).wf(),
            final(self).documents() == old(self).documents(),
            !old(self).store().contains_key(relative_path@) ==> {
                &&& step == ScanStep::Classified
                &&& final(self).awaiting_file()
                &&& final(self).records() == old(self).records().push(
                    ScanRecord {
                        file: FileChange { relative_path, path },
                        size_bytes: None,
                        mtime_ns: None,
                        content_hash: None,
                        class: FileClass::New,
                    },
                )
            },
            old(self).store().contains_key(relative_path@) ==> {
                &&& step == ScanStep::NeedMetadata
                &&& final(self).awaiting_metadata()
                &&& final(self).records() == old(self).records()
                &&& final(self).pending_file() == FileChange { relative_path, path }
            },
    {
        proof {
            lemma_latest_with_path(self.documents@, relative_path@);
        }
        match find_by_path(&self.documents, &relative_path) {
            None => {
                let ghost r = ScanRecord {
                    file: FileChange { relative_path, path },
                    size_bytes: None,
                    mtime_ns: None,
                    content_hash: None,
                    class: FileClass::New,
                };
                let ghost old_records = self.records@;
                proof {
                    lemma_push_record(old_records, r);
                    lemma_string_views_push(self.seen@, relative_path);
                }
                self.seen.push(relative_path.clone());
                self.diff.new.push(FileChange { relative_path, path });
                self.records = Ghost(self.records@.push(r));
                proof {
                    assert(forall|i: int|
                        0 <= i < old_records.len() ==> self.records@[i] == old_records[i]);
                }
                ScanStep::Classified
            },
            Some(doc) => {
                self.pending = Some(
                    PendingFile {
                        change: FileChange { relative_path, path },
                        doc,
                        size_bytes: 0,
                        mtime_ns: 0,
                        awaiting_content: false,
                    },
                );
                ScanStep::NeedMetadata
            },
        }
    }

    /// Takes the length and modification time of the file being classified.
    /// A length beyond the store's signed 64-bit size is refused.  Where both
    /// match the store's record the file is unchanged; otherwise the scan asks
    /// for the file's content.
    pub fn metadata(&mut self, len: u64, mtime_ns: i64) -> (result: Result<ScanStep, StoreError>)
        requires
            old(self).wf(),
            old(self).awaiting_metadata(),
        ensures
            final(self).wf(),
            final(self).documents() == old(self).documents(),
            len > i64::MAX ==> {
                &&& result matches Err(StoreError::FileTooLarge { path }) && path@ == old(
                    self,
                ).pending_file().relative_path@
                &&& *final(self) == *old(self)
            },
            len <= i64::MAX ==> {
                let record = old(self).store()[old(self).pending_file().relative_path@];
                if record.size_bytes == len && record.mtime_ns == mtime_ns {
                    &&& result == Ok::<ScanStep, StoreError>(ScanStep::Classified)
                    &&& final(self).awaiting_file()
                    &&& final(self).records() == old(self).records().push(
                        ScanRecord {
                            file: old(self).pending_file(),
                            size_bytes: Some(len as int),
                            mtime_ns: Some(mtime_ns as int),
                            content_hash: None,
                            class: FileClass::Unchanged,
                        },
                    )
                } else {
                    &&& result == Ok::<ScanStep, StoreError>(ScanStep::NeedContent)
                    &&& final(self).awaiting_content()
                    &&& final(self).records() == old(self).records()
                    &&& final(self).pending_file() == old(self).pending_file()
                    &&& final(self).pending_size_bytes() == len
                    &&& final(self).pending_mtime_ns() == mtime_ns
                }
            },
    {
        let ghost old_records = self.records@;
        let p = self.pending.take().unwrap();
        proof {
            lemma_latest_with_path(self.documents@, p.change.relative_path@);
        }
        if len > i64::MAX as u64 {
            let path = p.change.relative_path.clone();
            self.pending = Some(p);
            return Err(StoreError::FileTooLarge { path });
        }
        let size_bytes = len as i64;
        let doc = &self.documents[p.doc];
        if doc.size_bytes == size_bytes && doc.mtime_ns == mtime_ns {
            let ghost r = ScanRecord {
                file: p.change,
                size_bytes: Some(len as int),
                mtime_ns: Some(mtime_ns as int),
                content_hash: None,
                class: FileClass::Unchanged,
            };
            proof {
                lemma_push_record(old_records, r);
                lemma_string_views_push(self.seen@, p.change.relative_path);
                lemma_string_views_push(self.diff.unchanged@, p.change.relative_path);
                lemma_change_paths_push(changes_with_class(old_records, FileClass::Unchanged), r.file);
            }
            self.seen.push(p.change.relative_path.clone());
            self.diff.unchanged.push(p.change.relative_path);
            self.records = Ghost(self.records@.push(r));
            proof {
                assert(forall|i: int|
                    0 <= i < old_records.len() ==> self.records@[i] == old_records[i]);
            }
            Ok(ScanStep::Classified)
        } else {
            self.pending = Some(
                PendingFile {
                    change: p.change,
                    doc: p.doc,
                    size_bytes,
                    mtime_ns,
                    awaiting_content: true,
                },
            );
            Ok(ScanStep::NeedContent)
        }
    }

    /// Takes the content hash of the file being classified: equal to the
    /// store's hash, the file is unchanged; otherwise it is modified.
    pub fn content_hash_observed(&mut self, content_hash: String) -> (class: FileClass)
        requires
            old(self).wf(),
            old(self).awaiting_content(),
        ensures
            final(self).wf(),
            final(self).documents() == old(self).documents(),
            final(self).awaiting_file(),
            class == classify(
                old(self).store(),
                old(self).pending_file().relative_path@,
                old(self).pending_size_bytes(),
                old(self).pending_mtime_ns(),
                content_hash@,
            ),
            class == (if old(self).store()[old(self).pending_file().relative_path@].content_hash
                == content_hash@ {
                FileClass::Unchanged
            } else {
                FileClass::Modified
            }),
            final(self).records() == old(self).records().push(
                ScanRecord {
                    file: old(self).pending_file(),
                    size_bytes: Some(old(self).pending_size_bytes()),
                    mtime_ns: Some(old(self).pending_mtime_ns()),
                    content_hash: Some(content_hash@),
                    class,
                },
            ),
    {
        let ghost old_records = self.records@;
        let p = self.pending.take().unwrap();
        proof {
            lemma_latest_with_path(self.documents@, p.change.relative_path@);
        }
        let same = self.documents[p.doc].content_hash == content_hash;
        let class = if same {
            FileClass::Unchanged
        } else {
            FileClass::Modified
        };
        let ghost r = ScanRecord {
            file: p.change,
            size_bytes: Some(p.size_bytes as int),
            mtime_ns: Some(p.mtime_ns as int),
            content_hash: Some(content_hash@),
            class,
        };
        proof {
            lemma_push_record(old_records, r);
            lemma_string_views_push(self.seen@, p.change.relative_path);
        }
        self.seen.push(p.change.relative_path.clone());
        if same {
            proof {
                lemma_string_views_push(self.diff.unchanged@, p.change.relative_path);
                lemma_change_paths_push(
                    changes_with_class(old_records, FileClass::Unchanged),
                    r.file,
                );
            }
            self.diff.unchanged.push(p.change.relative_path);
        } else {
            self.diff.modified.push(p.change);
        }
        self.records = Ghost(self.records@.push(r));
        proof {
            assert(forall|i: int| 0 <= i < old_records.len() ==> self.records@[i] == old_records[i]);
        }
        class
    }

    /// Takes the content of the file being classified and compares its
    /// BLAKE3 digest with the store's.
    pub fn content(&mut self, body: &[u8]) -> (class: FileClass)
        requires
            old(self).wf(),
            old(self).awaiting_content(),
        ensures
            final(self).wf(),
            final(self).documents() == old(self).documents(),
            final(self).awaiting_file(),
            class == classify(
                old(self).store(),
                old(self).pending_file().relative_path@,
                old(self).pending_size_bytes(),
                old(self).pending_mtime_ns(),
                blake3_hex(body@),
            ),
            final(self).records() == old(self).records().push(
                ScanRecord {
                    file: old(self).pending_file(),
                    size_bytes: Some(old(self).pending_size_bytes()),
                    mtime_ns: Some(old(self).pending_mtime_ns()),
                    content_hash: Some(blake3_hex(body@)),
                    class,
                },
            ),
    {
        let hash = content_hash(body);
        self.content_hash_observed(hash)
    }
}

/// Ends the scan: every path the store knows and the scan did not meet is
/// deleted, once each.
pub fn diff_dir(scan: DiffScan) -> (diff: StatusDiff)
    requires
        scan.wf(),
        scan.awaiting_file(),
    ensures
        diff.new@ == changes_with_class(scan.records(), FileClass::New),
        diff.modified@ == changes_with_class(scan.records(), FileClass::Modified),
        string_views(diff.unchanged@) == paths_with_class(scan.records(), FileClass::Unchanged),
        forall|p: Seq<char>|
            #![trigger string_views(diff.deleted@).contains(p)]
            string_views(diff.deleted@).contains(p) <==> (scan.store().contains_key(p)
                && !record_paths(scan.records()).contains(p)),
        string_views(diff.deleted@).no_duplicates(),
        diff.unchanged@.len() == changes_with_class(scan.records(), FileClass::Unchanged).len(),
        diff.deleted@.len() == scan.store().dom().difference(record_paths(scan.records()).to_set()).len(),
{
    let ghost records = scan.records@;
    let ghost store = scan.store();
    let DiffScan { documents, seen, diff, pending: _, records: _ } = scan;
    let mut diff = diff;
    let mut deleted: Vec<String> = Vec::new();
    let mut i: usize = 0;
    while i < documents.len()
        invariant
            i <= documents@.len(),
            string_views(seen@) == record_paths(records),
            forall|k: int|
                0 <= k < deleted@.len() ==> {
                    &&& #[trigger] latest_with_path(documents@, deleted@[k]@) matches Some(j)
                        && j < i
                    &&& !string_views(seen@).contains(deleted@[k]@)
                },
            forall|j: int|
                0 <= j < i && latest_with_path(documents@, documents@[j].path@) == Some(j)
                    && !string_views(seen@).contains(documents@[j].path@)
                    ==> string_views(deleted@).contains(#[trigger] documents@[j].path@),
            string_views(deleted@).no_duplicates(),
        decreases documents@.len() - i,
    {
        let ghost before = deleted@;
        if !contains_string(&seen, &documents[i].path) && is_latest(&documents, i) {
            proof {
                lemma_string_views_push(deleted@, documents@[i as int].path);
                assert forall|k: int| 0 <= k < before.len() implies string_views(before)[k]
                    != documents@[i as int].path@ by {
                    assert(string_views(before)[k] == before[k]@);
                }
            }
            deleted.push(documents[i].path.clone());
            proof {
                assert(forall|k: int| 0 <= k < before.len() ==> deleted@[k] == before[k]);
                assert forall|j: int|
                    0 <= j <= i && latest_with_path(documents@, documents@[j].path@) == Some(j)
                        && !string_views(seen@).contains(documents@[j].path@)
                        implies string_views(deleted@).contains(
                    #[trigger] documents@[j].path@,
                ) by {
                    if j < i {
                        let k = choose|k: int|
                            0 <= k < string_views(before).len() && string_views(before)[k]
                                == documents@[j].path@;
                        assert(string_views(deleted@)[k] == documents@[j].path@);
                    } else {
                        assert(string_views(deleted@)[before.len() as int]
                            == documents@[j].path@);
                    }
                }
            }
        }
        i = i + 1;
    }
    proof {
        assert forall|p: Seq<char>|
            #![trigger string_views(deleted@).contains(p)]
            string_views(deleted@).contains(p) <==> (metadata_view(documents@).contains_key(p)
                && !record_paths(records).contains(p)) by {
            lemma_latest_with_path(documents@, p);
            if string_views(deleted@).contains(p) {
                let k = choose|k: int|
                    0 <= k < string_views(deleted@).len() && string_views(deleted@)[k] == p;
                assert(deleted@[k]@ == p);
            }
            if metadata_view(documents@).contains_key(p) && !record_paths(records).contains(
                p,
            ) {
                let j = latest_with_path(documents@, p)->0;
                assert(documents@[j].path@ == p);
            }
        }
    }
    proof {
        let views = string_views(deleted@);
        assert(views.to_set() =~= store.dom().difference(record_paths(records).to_set()));
        views.unique_seq_to_set();
        assert(string_views(diff.unchanged@).len() == diff.unchanged@.len());
        assert(change_paths(changes_with_class(records, FileClass::Unchanged)).len()
            == changes_with_class(records, FileClass::Unchanged).len());
    }
    diff.deleted = deleted;
    diff
}

/// Ends the scan and counts each class: the new, modified and unchanged
/// files as classified, and the paths the store knows that the scan did
/// not meet.
pub fn status_dir(scan: DiffScan) -> (summary: StatusSummary)
    requires
        scan.wf(),
        scan.awaiting_file(),
    ensures
        summary.new == changes_with_class(scan.records(), FileClass::New).len(),
        summary.modified == changes_with_class(scan.records(), FileClass::Modified).len(),
        summary.unchanged == changes_with_class(scan.records(), FileClass::Unchanged).len(),
        summary.deleted == scan.store().dom().difference(record_paths(scan.records()).to_set()).len(),
{
    let diff = diff_dir(scan);
    diff.summary()
}

} // verus!
