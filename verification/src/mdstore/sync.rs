use vstd::prelude::*;

use crate::mdstore::status::{
    DiffScan, FileClass, StatusDiff, StatusSummary, changes_with_class, record_paths,
};
use crate::mdstore::store::WritePlan;

verus! {

/// What a sync writes, and the summary of the comparison it acts on.
pub struct SyncPlan {
    pub summary: StatusSummary,
    pub writes: WritePlan,
}

/// Plans the sync of a directory with the store, given their comparison
/// `diff`: new and modified files are written (new ones first), deleted ones
/// are soft-deleted, all stamped with `synced_at`; unchanged files are left
/// alone.
pub fn sync_dir(diff: StatusDiff, synced_at: i64) -> (plan: SyncPlan)
    ensures
        plan.summary.new == diff.new@.len(),
        plan.summary.modified == diff.modified@.len(),
        plan.summary.deleted == diff.deleted@.len(),
        plan.summary.unchanged == diff.unchanged@.len(),
        plan.writes.upserts@ == diff.new@ + diff.modified@,
        plan.writes.soft_deletes@ == diff.deleted@,
        plan.writes.synced_at == synced_at,
{
    let summary = diff.summary();
    let StatusDiff { new, modified, deleted, unchanged: _ } = diff;
    let mut upserts = new;
    let mut modified = modified;
    upserts.append(&mut modified);
    SyncPlan { summary, writes: WritePlan { upserts, soft_deletes: deleted, synced_at } }
}

/// A sync reports exactly the counts that a status of the same scan gives:
/// where `diff` is what `diff_dir` ends `scan` with and `plan` is what
/// `sync_dir` plans from it, the plan's summary has the counts `status_dir`
/// states for `scan`.
pub proof fn lemma_sync_reports_status(scan: DiffScan, diff: StatusDiff, plan: SyncPlan)
    requires
        diff.new@ == changes_with_class(scan.records(), FileClass::New),
        diff.modified@ == changes_with_class(scan.records(), FileClass::Modified),
        diff.unchanged@.len() == changes_with_class(scan.records(), FileClass::Unchanged).len(),
        diff.deleted@.len() == scan.store().dom().difference(
            record_paths(scan.records()).to_set(),
        ).len(),
        plan.summary.new == diff.new@.len(),
        plan.summary.modified == diff.modified@.len(),
        plan.summary.deleted == diff.deleted@.len(),
        plan.summary.unchanged == diff.unchanged@.len(),
    ensures
        plan.summary.new == changes_with_class(scan.records(), FileClass::New).len(),
        plan.summary.modified == changes_with_class(scan.records(), FileClass::Modified).len(),
        plan.summary.unchanged == changes_with_class(scan.records(), FileClass::Unchanged).len(),
        plan.summary.deleted == scan.store().dom().difference(
            record_paths(scan.records()).to_set(),
        ).len(),
{
}

} // verus!
