use vstd::prelude::*;

use crate::mdstore::db::DocumentUpsert;
use crate::mdstore::error::StoreError;
use crate::mdstore::hash::{blake3_hex, content_hash};
use crate::mdstore::status::FileChange;
use crate::mdstore::store::WritePlan;
use vstd::utf8::encode_utf8;

verus! {

/// How many files an import wrote.
#[derive(Debug, PartialEq, Eq)]
pub struct ImportSummary {
    pub imported: usize,
}

impl Default for ImportSummary {
    fn default() -> (summary: Self)
        ensures
            summary.imported == 0,
    {
        ImportSummary { imported: 0 }
    }
}

/// What an import writes, and its summary.
pub struct ImportPlan {
    pub summary: ImportSummary,
    pub writes: WritePlan,
}

/// Plans the import of a directory whose Markdown files are `markdown_files`:
/// every one of them is written, stamped with `synced_at`, and counted.
pub fn import_dir(markdown_files: Vec<FileChange>, synced_at: i64) -> (plan: ImportPlan)
    ensures
        plan.writes.upserts@ == markdown_files@,
        plan.writes.soft_deletes@.len() == 0,
        plan.writes.synced_at == synced_at,
        plan.summary.imported == markdown_files@.len(),
{
    let imported = markdown_files.len();
    ImportPlan {
        summary: ImportSummary { imported },
        writes: WritePlan { upserts: markdown_files, soft_deletes: Vec::new(), synced_at },
    }
}

/// The document written for a Markdown file, where `content_hash` is the
/// digest of its content: `relative_path` and `source` are the file's path
/// and text, `len` and `mtime_ns` its length and modification time, and
/// `created_ns` its creation time where the file system gives one.  A length
/// beyond the store's signed 64-bit size is refused.
pub fn document_with_hash(
    relative_path: String,
    source: String,
    len: u64,
    mtime_ns: i64,
    created_ns: Option<i64>,
    synced_at: i64,
    content_hash: String,
) -> (result: Result<DocumentUpsert, StoreError>)
    ensures
        len > i64::MAX ==> (result matches Err(StoreError::FileTooLarge { path }) && path@
            == relative_path@),
        len <= i64::MAX ==> (result matches Ok(doc) && {
            &&& doc.path@ == relative_path@
            &&& doc.body@ == source@
            &&& doc.size_bytes == len
            &&& doc.mtime_ns == mtime_ns
            &&& doc.content_hash@ == content_hash@
            &&& doc.created_at == match created_ns {
                Some(t) => t,
                None => mtime_ns,
            }
            &&& doc.updated_at == mtime_ns
            &&& doc.synced_at == synced_at
        }),
{
    if len > i64::MAX as u64 {
        return Err(StoreError::FileTooLarge { path: relative_path });
    }
    let created_at = match created_ns {
        Some(t) => t,
        None => mtime_ns,
    };
    Ok(
        DocumentUpsert {
            path: relative_path,
            body: source,
            size_bytes: len as i64,
            mtime_ns,
            content_hash,
            created_at,
            updated_at: mtime_ns,
            synced_at,
        },
    )
}

/// The document written for a Markdown file, its content hash being the
/// BLAKE3 digest of the UTF-8 bytes of `source`; see [`document_with_hash`].
pub fn document_from_file(
    relative_path: String,
    source: String,
    len: u64,
    mtime_ns: i64,
    created_ns: Option<i64>,
    synced_at: i64,
) -> (result: Result<DocumentUpsert, StoreError>)
    ensures
        len > i64::MAX ==> (result matches Err(StoreError::FileTooLarge { path }) && path@
            == relative_path@),
        len <= i64::MAX ==> (result matches Ok(doc) && {
            &&& doc.path@ == relative_path@
            &&& doc.body@ == source@
            &&& doc.size_bytes == len
            &&& doc.mtime_ns == mtime_ns
            &&& doc.content_hash@ == blake3_hex(encode_utf8(source@))
            &&& doc.content_hash@.len() == 64
            &&& doc.created_at == match created_ns {
                Some(t) => t,
                None => mtime_ns,
            }
            &&& doc.updated_at == mtime_ns
            &&& doc.synced_at == synced_at
        }),
{
    let hash = content_hash(source.as_str().as_bytes());
    document_with_hash(relative_path, source, len, mtime_ns, created_ns, synced_at, hash)
}

} // verus!
