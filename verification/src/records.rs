//! Progress and result records that every reconciliation run returns to its
//! caller, and the small verified steps that fold one external outcome into
//! a running record. Best-effort batch policy: a per-item failure is
//! recorded and never aborts the batch, and two benign conditions — zero
//! rows affected by a synchronization update, and a deletion that finds the
//! file already gone — are deliberately not errors.

use vstd::prelude::*;

verus! {

/// Progress record of a migration or synchronization run.
pub struct MigrationProgress {
    pub total: usize,
    pub processed: usize,
    pub tracks_migrated: usize,
    pub albums_migrated: usize,
    pub errors: Vec<String>,
}

impl MigrationProgress {
    /// Counts are mutually consistent: every success was processed, and
    /// nothing was processed beyond the fixed total.
    pub open spec fn wf(self) -> bool {
        self.tracks_migrated + self.albums_migrated <= self.processed
        && self.processed <= self.total
    }
}

/// Result record of a duplicate-cover merge run.
pub struct MergeCoverResult {
    pub covers_merged: usize,
    pub space_saved_bytes: u64,
    pub albums_processed: usize,
    pub errors: Vec<String>,
}

/// Progress record of a library scan, reported per file.
pub struct ScanProgress {
    pub current: usize,
    pub total: usize,
    pub current_file: String,
}

/// Result record of a library scan run.
pub struct ScanResult {
    pub tracks_added: usize,
    pub tracks_updated: usize,
    pub tracks_deleted: usize,
    pub errors: Vec<String>,
}

/// Outcome of deleting a cover file, as the caller's deletion capability
/// reports it. `Missing` is a file that was already gone.
pub enum DeleteOutcome {
    Deleted,
    Missing,
    Failed(String),
}

/// Folds one row-update outcome into a synchronization run: a positive
/// affected-row count is one synced row, zero affected rows is a benign
/// no-op (the id has no row, which re-runs tolerate), and a store error is
/// recorded without aborting the batch.
pub fn record_sync_outcome(
    synced: &mut usize,
    errors: &mut Vec<String>,
    affected: &Result<usize, String>,
    msg_on_err: String,
)
    requires
        *old(synced) < usize::MAX,
    ensures
        match affected {
            Result::Ok(n) => {
                &&& final(errors)@ == old(errors)@
                &&& (*n > 0 ==> *final(synced) == *old(synced) + 1)
                &&& (*n == 0 ==> *final(synced) == *old(synced))
            },
            Result::Err(_) => {
                &&& *final(synced) == *old(synced)
                &&& final(errors)@ == old(errors)@.push(msg_on_err)
            },
        },
{
    match affected {
        Result::Ok(n) => {
            if *n > 0 {
                *synced = *synced + 1;
            }
        },
        Result::Err(_) => {
            errors.push(msg_on_err);
        },
    }
}

/// Folds one migration attempt into the running counts. The attempt is
/// the write result carrying, when the write succeeded, the row-update
/// result: only an attempt whose write and row update both succeeded is
/// one migration; a failed write or a failed update is recorded as
/// exactly one error.
pub fn record_migrate_outcome(
    migrated: &mut usize,
    errors: &mut Vec<String>,
    attempt: &Result<Result<usize, String>, String>,
    msg_on_err: String,
)
    requires
        *old(migrated) < usize::MAX,
    ensures
        match attempt {
            Result::Ok(updated) => match updated {
                Result::Ok(_) => {
                    &&& *final(migrated) == *old(migrated) + 1
                    &&& final(errors)@ == old(errors)@
                },
                Result::Err(_) => {
                    &&& *final(migrated) == *old(migrated)
                    &&& final(errors)@ == old(errors)@.push(msg_on_err)
                },
            },
            Result::Err(_) => {
                &&& *final(migrated) == *old(migrated)
                &&& final(errors)@ == old(errors)@.push(msg_on_err)
            },
        },
{
    match attempt {
        Result::Ok(updated) => match updated {
            Result::Ok(_) => {
                *migrated = *migrated + 1;
            },
            Result::Err(_) => {
                errors.push(msg_on_err);
            },
        },
        Result::Err(_) => {
            errors.push(msg_on_err);
        },
    }
}

/// Combines the two per-table cleared counts into the reported total,
/// saturating at the limit of the type.
pub fn combine_cleared_counts(tracks_cleared: usize, albums_cleared: usize) -> (r: usize)
    ensures
        tracks_cleared + albums_cleared <= usize::MAX ==> r == tracks_cleared + albums_cleared,
        tracks_cleared + albums_cleared > usize::MAX ==> r == usize::MAX,
{
    if tracks_cleared <= usize::MAX - albums_cleared {
        tracks_cleared + albums_cleared
    } else {
        usize::MAX
    }
}

/// Folds one file-deletion outcome into a merge result: a deletion frees
/// the file's size and counts one merged cover; a file already gone is
/// left silent, so a re-run neither errs nor double-counts; any other
/// failure is recorded. The freed-space sum saturates at the limit of
/// its type.
pub fn record_delete_outcome(res: &mut MergeCoverResult, outcome: DeleteOutcome, size: u64)
    ensures
        final(res).albums_processed == old(res).albums_processed,
        match outcome {
            DeleteOutcome::Deleted => {
                &&& (old(res).covers_merged < usize::MAX ==> final(res).covers_merged == old(
                    res,
                ).covers_merged + 1)
                &&& (old(res).covers_merged == usize::MAX ==> final(res).covers_merged
                    == usize::MAX)
                &&& (old(res).space_saved_bytes + size <= u64::MAX
                    ==> final(res).space_saved_bytes == old(res).space_saved_bytes + size)
                &&& (old(res).space_saved_bytes + size > u64::MAX
                    ==> final(res).space_saved_bytes == u64::MAX)
                &&& final(res).errors@ == old(res).errors@
            },
            DeleteOutcome::Missing => {
                &&& final(res).covers_merged == old(res).covers_merged
                &&& final(res).space_saved_bytes == old(res).space_saved_bytes
                &&& final(res).errors@ == old(res).errors@
            },
            DeleteOutcome::Failed(m) => {
                &&& final(res).covers_merged == old(res).covers_merged
                &&& final(res).space_saved_bytes == old(res).space_saved_bytes
                &&& final(res).errors@ == old(res).errors@.push(m)
            },
        },
{
    match outcome {
        DeleteOutcome::Deleted => {
            if res.space_saved_bytes <= u64::MAX - size {
                res.space_saved_bytes = res.space_saved_bytes + size;
            } else {
                res.space_saved_bytes = u64::MAX;
            }
            if res.covers_merged < usize::MAX {
                res.covers_merged = res.covers_merged + 1;
            }
        },
        DeleteOutcome::Missing => {},
        DeleteOutcome::Failed(m) => {
            res.errors.push(m);
        },
    }
}

} // verus!
