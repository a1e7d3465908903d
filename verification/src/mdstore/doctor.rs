use vstd::prelude::*;

verus! {

/// The health report of a store: document counts, the sizes of the database
/// file and its write-ahead log, the page geometry and the integrity check's
/// answer.
#[derive(Debug, PartialEq, Eq)]
pub struct DoctorReport {
    pub documents: i64,
    pub deleted: i64,
    pub fts_rows: i64,
    pub db_size_bytes: u64,
    pub wal_size_bytes: u64,
    pub page_size: i64,
    pub page_count: i64,
    pub integrity_check: String,
}

/// What looking up a file's metadata gave.
#[derive(Debug, PartialEq, Eq)]
pub enum FileLookup {
    /// The file exists and has this length.
    Found(u64),
    /// There is no such file.
    Missing,
    /// The metadata could not be read for another reason.
    Unreadable,
}

/// The size the report gives a file: its length, or 0 where the file does
/// not exist (a store without a write-ahead log); `None` where the lookup
/// failed otherwise.
pub fn file_size(lookup: FileLookup) -> (size: Option<u64>)
    ensures
        size == match lookup {
            FileLookup::Found(len) => Some(len),
            FileLookup::Missing => Some(0u64),
            FileLookup::Unreadable => None::<u64>,
        },
{
    match lookup {
        FileLookup::Found(len) => Some(len),
        FileLookup::Missing => Some(0),
        FileLookup::Unreadable => None,
    }
}

/// The path of the write-ahead log of the database at `db_path`: the same
/// path with `-wal` appended, byte for byte.
pub fn wal_path(db_path: &[u8]) -> (wal: Vec<u8>)
    ensures
        wal@ == db_path@ + seq![45u8, 119u8, 97u8, 108u8],
{
    let mut wal: Vec<u8> = Vec::new();
    let mut i: usize = 0;
    while i < db_path.len()
        invariant
            i <= db_path@.len(),
            wal@ == db_path@.subrange(0, i as int),
        decreases db_path@.len() - i,
    {
        wal.push(db_path[i]);
        i = i + 1;
        assert(wal@ =~= db_path@.subrange(0, i as int));
    }
    wal.push(45u8);
    wal.push(119u8);
    wal.push(97u8);
    wal.push(108u8);
    assert(wal@ =~= db_path@ + seq![45u8, 119u8, 97u8, 108u8]);
    wal
}

/// The health report of a store, from what its queries and file lookups gave.
pub fn doctor(
    documents: i64,
    deleted: i64,
    fts_rows: i64,
    db_size_bytes: u64,
    wal_size_bytes: u64,
    page_size: i64,
    page_count: i64,
    integrity_check: String,
) -> (report: DoctorReport)
    ensures
        report == (DoctorReport {
            documents,
            deleted,
            fts_rows,
            db_size_bytes,
            wal_size_bytes,
            page_size,
            page_count,
            integrity_check,
        }),
{
    DoctorReport {
        documents,
        deleted,
        fts_rows,
        db_size_bytes,
        wal_size_bytes,
        page_size,
        page_count,
        integrity_check,
    }
}

} // verus!
