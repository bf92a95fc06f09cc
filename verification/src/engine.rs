//! The reconciliation engines. Each runs to completion synchronously,
//! holds the store connection only for queries and row updates, and
//! accumulates per-item failures instead of aborting: callers always get
//! a result record with exact counts. File reading, writing and deletion
//! come in from the caller — as listings and as functions — since the
//! engines themselves never touch the file system.

use vstd::prelude::*;
use crate::bucket::{count_true, distinct_file_paths, hash_candidates, FileMeta};
use crate::bytes::copy_bytes;
use crate::dedup::{distinct_paths, plan_duplicates, HashedFile};
use crate::merge::{plan_updates_for_class, select_merge_groups, some_group_for, PathGroup};
use crate::records::{
    combine_cleared_counts, record_delete_outcome, record_migrate_outcome, record_sync_outcome,
    MergeCoverResult, MigrationProgress,
};
use crate::store::{
    begin_tx, clear_album_inline, clear_track_inline, commit_tx, fmt_id_err, fmt_path_err,
    fmt_plain_err, query_album_names, query_album_tracks_with_covers, query_migratable_albums,
    query_migratable_tracks, tx_update_album_art_path, tx_update_track_cover_path,
    update_album_art_path, update_track_cover_path, InlineRow,
};
use crate::sync::{collect_cover_candidates, scan_candidates, DirScan, SyncCandidate};

verus! {

/// Runs one migration batch over track rows (or album rows, when
/// `albums` is set): writes each row's inline payload to a file through
/// `write_payload`, and on success points the row at the file. Exactly
/// one of three things happens to every row: it is migrated, or its file
/// write fails and is recorded, or its row update fails and is recorded.
fn migrate_rows<FW>(
    conn: &rusqlite::Connection,
    rows: &Vec<InlineRow>,
    write_payload: &FW,
    albums: bool,
    migrated: &mut usize,
    processed: &mut usize,
    errors: &mut Vec<String>,
) where FW: Fn(i64, &Vec<u8>) -> Result<Vec<u8>, String>
    requires
        forall|id: i64, data: &Vec<u8>| #[trigger] write_payload.requires((id, data)),
        *old(migrated) + rows@.len() <= usize::MAX,
        *old(processed) + rows@.len() <= usize::MAX,
    ensures
        *final(processed) == *old(processed) + rows@.len(),
        *final(migrated) >= *old(migrated),
        final(errors)@.len() >= old(errors)@.len(),
        (*final(migrated) - *old(migrated)) + (final(errors)@.len() - old(errors)@.len())
            == rows@.len(),
{
    let save_err: &str = if albums {
        "Failed to save album "
    } else {
        "Failed to save track "
    };
    let update_err: &str = if albums {
        "Failed to update album "
    } else {
        "Failed to update track "
    };
    let mut i: usize = 0;
    while i < rows.len()
        invariant
            forall|id: i64, data: &Vec<u8>| #[trigger] write_payload.requires((id, data)),
            i <= rows@.len(),
            *old(migrated) + rows@.len() <= usize::MAX,
            *old(processed) + rows@.len() <= usize::MAX,
            *processed == *old(processed) + i,
            *migrated >= *old(migrated),
            errors@.len() >= old(errors)@.len(),
            (*migrated - *old(migrated)) + (errors@.len() - old(errors)@.len()) == i,
        decreases rows@.len() - i,
    {
        let row = &rows[i];
        // The attempt: the write result carrying, on a written file, the
        // row-update result.
        let attempt: Result<Result<usize, String>, String> = match write_payload(
            row.id,
            &row.payload,
        ) {
            Ok(path) => Ok(
                if albums {
                    update_album_art_path(conn, row.id, &path)
                } else {
                    update_track_cover_path(conn, row.id, &path)
                },
            ),
            Err(e) => Err(e),
        };
        let msg = match &attempt {
            Ok(updated) => match updated {
                Ok(_) => String::new(),
                Err(e) => fmt_id_err(update_err, row.id, e),
            },
            Err(e) => fmt_id_err(save_err, row.id, e),
        };
        record_migrate_outcome(migrated, errors, &attempt, msg);
        *processed = *processed + 1;
        i = i + 1;
    }
}

/// Migrates every row still holding only an inline cover payload to a
/// content file: tracks first, then albums. `write_track_cover` and
/// `write_album_art` persist one payload under its row's id and yield the
/// file's path. One row's failure never aborts the batch: every selected
/// row is either migrated or recorded as exactly one error, so on success
/// `tracks_migrated + albums_migrated + errors.len() == processed ==
/// total`. Rows already carrying a path are not selected, which makes a
/// re-run after a partial failure retry only the remainder; the row state
/// machine behind this, and the idempotence of a fully successful run,
/// are stated and proved in the `state` module.
pub fn migrate_inline_to_files<FT, FA>(
    conn: &mut rusqlite::Connection,
    write_track_cover: &FT,
    write_album_art: &FA,
) -> (r: Result<MigrationProgress, String>) where
    FT: Fn(i64, &Vec<u8>) -> Result<Vec<u8>, String>,
    FA: Fn(i64, &Vec<u8>) -> Result<Vec<u8>, String>,

    requires
        forall|id: i64, data: &Vec<u8>| #[trigger] write_track_cover.requires((id, data)),
        forall|id: i64, data: &Vec<u8>| #[trigger] write_album_art.requires((id, data)),
    ensures
        match r {
            Result::Ok(p) => {
                &&& p.wf()
                &&& p.processed == p.total
                &&& p.tracks_migrated + p.albums_migrated + p.errors@.len() == p.processed
            },
            Result::Err(_) => true,
        },
{
    let tracks = match query_migratable_tracks(conn) {
        Ok(t) => t,
        Err(e) => {
            return Err(e);
        },
    };
    let albums = match query_migratable_albums(conn) {
        Ok(a) => a,
        Err(e) => {
            return Err(e);
        },
    };
    if tracks.len() > usize::MAX - albums.len() {
        return Err(fmt_plain_err("Too many rows to migrate", &String::new()));
    }
    let total = tracks.len() + albums.len();
    let mut tracks_migrated: usize = 0;
    let mut albums_migrated: usize = 0;
    let mut processed: usize = 0;
    let mut errors: Vec<String> = Vec::new();

    migrate_rows(
        conn,
        &tracks,
        write_track_cover,
        false,
        &mut tracks_migrated,
        &mut processed,
        &mut errors,
    );
    migrate_rows(
        conn,
        &albums,
        write_album_art,
        true,
        &mut albums_migrated,
        &mut processed,
        &mut errors,
    );
    Ok(
        MigrationProgress {
            total,
            processed,
            tracks_migrated,
            albums_migrated,
            errors,
        },
    )
}

/// Clears the inline payload of every row that already carries a path
/// pointer, tracks and albums alike, and yields how many rows were
/// cleared: the saturating sum of the two per-table affected counts, as
/// `combine_cleared_counts` states it; the first failing statement
/// aborts the run with its error. Destructive: meant to run only after
/// migration or synchronization has been verified.
pub fn clear_inline_after_migration(conn: &mut rusqlite::Connection) -> (r: Result<usize, String>)
{
    let t = match clear_track_inline(conn) {
        Ok(n) => n,
        Err(e) => {
            return Err(fmt_plain_err("Failed to clear track covers: ", &e));
        },
    };
    let a = match clear_album_inline(conn) {
        Ok(n) => n,
        Err(e) => {
            return Err(fmt_plain_err("Failed to clear album art: ", &e));
        },
    };
    Ok(combine_cleared_counts(t, a))
}

/// Applies one directory scan to the store (tracks, or albums when
/// `albums` is set): every candidate file named after a row id makes
/// that row point at the file, all in one transaction. A missing
/// directory yields no candidates and no error; an unreadable one yields
/// no candidates and exactly one recorded error; an id with no row is a
/// benign no-op; a failed update is recorded and the transaction commits
/// whatever succeeded; a failed commit is recorded. Yields the number of
/// candidates discovered, every one of which was attempted.
fn apply_sync_updates(
    conn: &mut rusqlite::Connection,
    scan: DirScan,
    albums: bool,
    synced: &mut usize,
    errors: &mut Vec<String>,
) -> (r: Result<usize, String>)
    requires
        *old(synced) == 0,
    ensures
        (scan is Missing || scan is Unreadable) ==> r is Ok,
        match r {
            Result::Ok(n) => {
                &&& n == scan_candidates(scan)
                &&& *final(synced) <= n
                &&& final(errors)@.len() >= old(errors)@.len()
                &&& final(errors)@.len() <= old(errors)@.len() + n + 1
                &&& (scan is Missing ==> *final(synced) == 0 && final(errors)@ == old(errors)@)
                &&& (scan is Unreadable ==> *final(synced) == 0 && final(errors)@.len() == old(
                    errors,
                )@.len() + 1)
            },
            Result::Err(_) => true,
        },
{
    let read_err: &str = if albums {
        "Failed to read albums directory: "
    } else {
        "Failed to read tracks directory: "
    };
    let update_err: &str = if albums {
        "Failed to update album "
    } else {
        "Failed to update track "
    };
    let updates: Vec<SyncCandidate> = match scan {
        DirScan::Missing => {
            return Ok(0);
        },
        DirScan::Unreadable(e) => {
            errors.push(fmt_plain_err(read_err, &e));
            return Ok(0);
        },
        DirScan::Listed(entries) => collect_cover_candidates(&entries),
    };
    let n = updates.len();
    if n == 0 {
        return Ok(0);
    }
    let tx = match begin_tx(conn) {
        Ok(tx) => tx,
        Err(e) => {
            return Err(e);
        },
    };
    let mut u: usize = 0;
    while u < updates.len()
        invariant
            u <= updates@.len(),
            *synced <= u,
            errors@.len() >= old(errors)@.len(),
            errors@.len() <= old(errors)@.len() + u,
        decreases updates@.len() - u,
    {
        let c = &updates[u];
        let res = if albums {
            tx_update_album_art_path(&tx, c.id, &c.path)
        } else {
            tx_update_track_cover_path(&tx, c.id, &c.path)
        };
        let msg = match &res {
            Ok(_) => String::new(),
            Err(e) => fmt_id_err(update_err, c.id, e),
        };
        record_sync_outcome(synced, errors, &res, msg);
        u = u + 1;
    }
    if let Err(e) = commit_tx(tx) {
        errors.push(fmt_plain_err("Transaction commit failed: ", &e));
    }
    Ok(n)
}

/// Reconciles store path pointers with cover files found on disk: every
/// file named after a row id, in the scanned track and album cover
/// directories, becomes that row's path pointer. `total` is fixed at
/// discovery — the number of candidate files found — and every candidate
/// is attempted, so `processed == total`; the migrated fields report the
/// rows actually synced. A missing directory contributes no candidates
/// and no error; an unreadable one contributes no candidates and exactly
/// one error; an id with no row is a benign no-op counted nowhere. When
/// neither scan carries a listing, no store call is made and the run
/// cannot fail.
pub fn sync_paths_from_files(
    conn: &mut rusqlite::Connection,
    tracks_scan: DirScan,
    albums_scan: DirScan,
) -> (r: Result<MigrationProgress, String>)
    ensures
        !(tracks_scan is Listed) && !(albums_scan is Listed) ==> r is Ok,
        match r {
            Result::Ok(p) => {
                &&& p.wf()
                &&& p.total == scan_candidates(tracks_scan) + scan_candidates(albums_scan)
                &&& p.processed == p.total
                &&& p.tracks_migrated <= scan_candidates(tracks_scan)
                &&& p.albums_migrated <= scan_candidates(albums_scan)
                &&& p.errors@.len() <= p.total + 2
                &&& (tracks_scan is Missing && albums_scan is Missing ==> p.errors@.len() == 0)
                &&& (tracks_scan is Unreadable && albums_scan is Missing ==> p.errors@.len()
                    == 1)
                &&& (tracks_scan is Missing && albums_scan is Unreadable ==> p.errors@.len()
                    == 1)
                &&& (tracks_scan is Unreadable && albums_scan is Unreadable ==> p.errors@.len()
                    == 2)
            },
            Result::Err(_) => true,
        },
{
    let mut tracks_synced: usize = 0;
    let mut albums_synced: usize = 0;
    let mut errors: Vec<String> = Vec::new();

    let tracks_found: usize = match apply_sync_updates(
        conn,
        tracks_scan,
        false,
        &mut tracks_synced,
        &mut errors,
    ) {
        Ok(n) => n,
        Err(e) => {
            return Err(e);
        },
    };
    let albums_found: usize = match apply_sync_updates(
        conn,
        albums_scan,
        true,
        &mut albums_synced,
        &mut errors,
    ) {
        Ok(n) => n,
        Err(e) => {
            return Err(e);
        },
    };
    if tracks_found > usize::MAX - albums_found {
        return Err(fmt_plain_err("Too many candidate files", &String::new()));
    }
    let total = tracks_found + albums_found;
    Ok(
        MigrationProgress {
            total,
            processed: total,
            tracks_migrated: tracks_synced,
            albums_migrated: albums_synced,
            errors,
        },
    )
}

/// Stats each distinct cover path of an album: every group's path is
/// either carried into the result with its size or dropped with exactly
/// one recorded error, so the result length plus the new errors equals
/// the group count. The surviving files keep the groups'
/// pairwise-distinct paths.
fn stat_groups<FStat>(
    groups: &Vec<PathGroup>,
    stat_file: &FStat,
    result: &mut MergeCoverResult,
) -> (r: Vec<FileMeta>) where FStat: Fn(&Vec<u8>) -> Result<u64, String>
    requires
        forall|p: &Vec<u8>| #[trigger] stat_file.requires((p,)),
        forall|k1: int, k2: int|
            0 <= k1 < groups@.len() && 0 <= k2 < groups@.len() && k1 != k2 ==> (
            #[trigger] groups@[k1].path@) != (#[trigger] groups@[k2].path@),
    ensures
        distinct_file_paths(r@),
        forall|k: int| 0 <= k < r@.len() ==> some_group_for(groups@, (#[trigger] r@[k].path@)),
        final(result).errors@.len() >= old(result).errors@.len(),
        r@.len() + final(result).errors@.len() - old(result).errors@.len() == groups@.len(),
        final(result).covers_merged == old(result).covers_merged,
        final(result).space_saved_bytes == old(result).space_saved_bytes,
        final(result).albums_processed == old(result).albums_processed,
{
    let mut files: Vec<FileMeta> = Vec::new();
    let ghost mut owners: Seq<int> = Seq::empty();
    let mut g: usize = 0;
    while g < groups.len()
        invariant
            forall|p: &Vec<u8>| #[trigger] stat_file.requires((p,)),
            forall|k1: int, k2: int|
                0 <= k1 < groups@.len() && 0 <= k2 < groups@.len() && k1 != k2 ==> (
                #[trigger] groups@[k1].path@) != (#[trigger] groups@[k2].path@),
            g <= groups@.len(),
            owners.len() == files@.len(),
            forall|k: int|
                0 <= k < files@.len() ==> 0 <= (#[trigger] owners[k]) < g,
            forall|k: int, k_: int|
                0 <= k < owners.len() && 0 <= k_ < owners.len() && k < k_ ==> (
                #[trigger] owners[k]) < (#[trigger] owners[k_]),
            forall|k: int|
                0 <= k < files@.len() ==> (#[trigger] files@[k].path@) == groups@[owners[k]].path@,
            result.errors@.len() >= old(result).errors@.len(),
            files@.len() + result.errors@.len() - old(result).errors@.len() == g,
            result.covers_merged == old(result).covers_merged,
            result.space_saved_bytes == old(result).space_saved_bytes,
            result.albums_processed == old(result).albums_processed,
        decreases groups@.len() - g,
    {
        match stat_file(&groups[g].path) {
            Ok(size) => {
                let ghost old_files = files@;
                let ghost old_owners = owners;
                let f = FileMeta { path: copy_bytes(&groups[g].path), size };
                files.push(f);
                proof {
                    owners = owners.push(g as int);
                    assert(forall|k: int| 0 <= k < old_files.len() ==> files@[k] == old_files[k]);
                    assert forall|k: int| 0 <= k < files@.len() implies (
                    #[trigger] files@[k].path@) == groups@[owners[k]].path@ by {
                        if k < old_files.len() {
                            assert(files@[k] == old_files[k]);
                            assert(owners[k] == old_owners[k]);
                            assert(old_files[k].path@ == groups@[old_owners[k]].path@);
                        } else {
                            assert(owners[k] == g as int);
                            assert(files@[k].path@ == groups@[g as int].path@);
                        }
                    }
                }
            },
            Err(e) => {
                result.errors.push(fmt_path_err("Failed to get metadata for ", &groups[g].path, &e));
            },
        }
        g = g + 1;
    }
    proof {
        assert forall|k1: int, k2: int|
            0 <= k1 < files@.len() && 0 <= k2 < files@.len() && k1 != k2 implies (
        #[trigger] files@[k1].path@) != (#[trigger] files@[k2].path@) by {
            assert(owners[k1] != owners[k2]);
            assert(files@[k1].path@ == groups@[owners[k1]].path@);
            assert(files@[k2].path@ == groups@[owners[k2]].path@);
        }
        assert forall|k: int| 0 <= k < files@.len() implies some_group_for(
            groups@,
            (#[trigger] files@[k].path@),
        ) by {
            assert(files@[k].path@ == groups@[owners[k]].path@);
        }
    }
    files
}

/// `h` is the digest record of a file the pre-filter marked: some
/// flagged file carries its path and size.
pub open spec fn hashed_from(files: Seq<FileMeta>, flags: Seq<bool>, h: HashedFile) -> bool {
    exists|j: int|
        0 <= j < files.len() && (#[trigger] flags[j]) && files[j].path@ == h.path@
            && files[j].size == h.size
}

/// Hashes exactly the files the pre-filter marked: every flagged file is
/// either carried into the result with its digest or dropped with
/// exactly one recorded error, so the result length plus the new errors
/// equals the number of set flags. The hashed files keep their
/// pairwise-distinct paths and their stat sizes.
fn hash_flagged<FHash>(
    files: &Vec<FileMeta>,
    flags: &Vec<bool>,
    hash_file: &FHash,
    result: &mut MergeCoverResult,
) -> (r: Vec<HashedFile>) where FHash: Fn(&Vec<u8>) -> Result<Vec<u8>, String>
    requires
        forall|p: &Vec<u8>| #[trigger] hash_file.requires((p,)),
        flags@.len() == files@.len(),
        distinct_file_paths(files@),
    ensures
        distinct_paths(r@),
        forall|k: int| 0 <= k < r@.len() ==> hashed_from(files@, flags@, #[trigger] r@[k]),
        final(result).errors@.len() >= old(result).errors@.len(),
        r@.len() + final(result).errors@.len() - old(result).errors@.len() == count_true(flags@),
        final(result).covers_merged == old(result).covers_merged,
        final(result).space_saved_bytes == old(result).space_saved_bytes,
        final(result).albums_processed == old(result).albums_processed,
{
    let mut hashed: Vec<HashedFile> = Vec::new();
    let ghost mut owners: Seq<int> = Seq::empty();
    let mut j: usize = 0;
    proof {
        assert(flags@.subrange(0, 0) =~= Seq::<bool>::empty());
    }
    while j < files.len()
        invariant
            forall|p: &Vec<u8>| #[trigger] hash_file.requires((p,)),
            flags@.len() == files@.len(),
            distinct_file_paths(files@),
            j <= files@.len(),
            owners.len() == hashed@.len(),
            forall|k: int|
                0 <= k < hashed@.len() ==> 0 <= (#[trigger] owners[k]) < j,
            forall|k: int, k_: int|
                0 <= k < owners.len() && 0 <= k_ < owners.len() && k < k_ ==> (
                #[trigger] owners[k]) < (#[trigger] owners[k_]),
            forall|k: int|
                0 <= k < hashed@.len() ==> flags@[(#[trigger] owners[k])] && hashed@[k].path@
                    == files@[owners[k]].path@ && hashed@[k].size == files@[owners[k]].size,
            result.errors@.len() >= old(result).errors@.len(),
            hashed@.len() + result.errors@.len() - old(result).errors@.len() == count_true(
                flags@.subrange(0, j as int),
            ),
            result.covers_merged == old(result).covers_merged,
            result.space_saved_bytes == old(result).space_saved_bytes,
            result.albums_processed == old(result).albums_processed,
        decreases files@.len() - j,
    {
        if flags[j] {
            match hash_file(&files[j].path) {
                Ok(digest) => {
                    let ghost old_hashed = hashed@;
                    let ghost old_owners = owners;
                    let h = HashedFile {
                        path: copy_bytes(&files[j].path),
                        size: files[j].size,
                        digest,
                    };
                    hashed.push(h);
                    proof {
                        owners = owners.push(j as int);
                        assert(flags@[j as int]);
                        assert forall|k: int|
                            0 <= k < hashed@.len() implies flags@[(#[trigger] owners[k])]
                            && hashed@[k].path@ == files@[owners[k]].path@ && hashed@[k].size
                            == files@[owners[k]].size by {
                            if k < old_hashed.len() {
                                assert(hashed@[k] == old_hashed[k]);
                                assert(owners[k] == old_owners[k]);
                                assert(old_hashed[k].path@ == files@[old_owners[k]].path@);
                            } else {
                                assert(owners[k] == j as int);
                                assert(hashed@[k].path@ == files@[j as int].path@);
                                assert(hashed@[k].size == files@[j as int].size);
                            }
                        }
                    }
                },
                Err(e) => {
                    result.errors.push(fmt_path_err("Failed to hash ", &files[j].path, &e));
                },
            }
        }
        proof {
            assert(flags@.subrange(0, j + 1).drop_last() =~= flags@.subrange(0, j as int));
            assert(flags@.subrange(0, j + 1).last() == flags@[j as int]);
        }
        j = j + 1;
    }
    proof {
        assert(flags@.subrange(0, flags@.len() as int) =~= flags@);
        assert forall|k1: int, k2: int|
            0 <= k1 < hashed@.len() && 0 <= k2 < hashed@.len() && k1 != k2 implies (
        #[trigger] hashed@[k1].path@) != (#[trigger] hashed@[k2].path@) by {
            assert(owners[k1] != owners[k2]);
            assert(hashed@[k1].path@ == files@[owners[k1]].path@);
            assert(hashed@[k2].path@ == files@[owners[k2]].path@);
        }
        assert forall|k: int| 0 <= k < hashed@.len() implies hashed_from(
            files@,
            flags@,
            #[trigger] hashed@[k],
        ) by {
            let j_ = owners[k];
            assert(0 <= j_ < files@.len() && flags@[j_] && files@[j_].path@ == hashed@[k].path@
                && files@[j_].size == hashed@[k].size);
        }
    }
    hashed
}

/// Merges the duplicate covers of one album: unless the album is not
/// worth checking (fewer than two covered tracks, or one distinct path —
/// decided by `select_merge_groups`, in which case nothing at all is
/// touched or recorded), its distinct cover paths are statted,
/// pre-filtered by size bucket, hashed, and each duplicate class is
/// collapsed onto its canonical file — rows first, in one transaction
/// per class, then the redundant files are deleted. A failed commit
/// skips the class's deletions: no file is deleted whose row updates
/// were not confirmed. Counts and errors only ever grow.
fn merge_album<FStat, FHash, FDel>(
    conn: &mut rusqlite::Connection,
    album: &String,
    stat_file: &FStat,
    hash_file: &FHash,
    delete_file: &FDel,
    result: &mut MergeCoverResult,
) -> (r: Result<(), String>) where
    FStat: Fn(&Vec<u8>) -> Result<u64, String>,
    FHash: Fn(&Vec<u8>) -> Result<Vec<u8>, String>,
    FDel: Fn(&Vec<u8>) -> crate::records::DeleteOutcome,

    requires
        forall|p: &Vec<u8>| #[trigger] stat_file.requires((p,)),
        forall|p: &Vec<u8>| #[trigger] hash_file.requires((p,)),
        forall|p: &Vec<u8>| #[trigger] delete_file.requires((p,)),
    ensures
        final(result).albums_processed == old(result).albums_processed,
        final(result).covers_merged >= old(result).covers_merged,
        final(result).space_saved_bytes >= old(result).space_saved_bytes,
        final(result).errors@.len() >= old(result).errors@.len(),
        (old(result).covers_merged == 0 ==> old(result).space_saved_bytes == 0) ==> (
        final(result).covers_merged == 0 ==> final(result).space_saved_bytes == 0),
{
    let tracks = match query_album_tracks_with_covers(conn, album) {
        Ok(t) => t,
        Err(e) => {
            return Err(e);
        },
    };
    // An album with fewer than two covered tracks, or one distinct path,
    // is left entirely untouched, with no error.
    let groups = match select_merge_groups(&tracks) {
        Some(groups) => groups,
        None => {
            return Ok(());
        },
    };
    let files = stat_groups(&groups, stat_file, result);
    let flags = hash_candidates(&files);
    let hashed = hash_flagged(&files, &flags, hash_file, result);
    let plans = plan_duplicates(&hashed);
    let mut k: usize = 0;
    while k < plans.len()
        invariant
            forall|p: &Vec<u8>| #[trigger] delete_file.requires((p,)),
            k <= plans@.len(),
            result.albums_processed == old(result).albums_processed,
            result.covers_merged >= old(result).covers_merged,
            result.space_saved_bytes >= old(result).space_saved_bytes,
            result.errors@.len() >= old(result).errors@.len(),
            (old(result).covers_merged == 0 ==> old(result).space_saved_bytes == 0) ==> (
            result.covers_merged == 0 ==> result.space_saved_bytes == 0),
        decreases plans@.len() - k,
    {
        let plan = &plans[k];
        let updates = plan_updates_for_class(plan, &groups);
        if updates.len() > 0 {
            let tx = match begin_tx(conn) {
                Ok(tx) => tx,
                Err(e) => {
                    return Err(e);
                },
            };
            let mut u: usize = 0;
            while u < updates.len()
                invariant
                    u <= updates@.len(),
                    result.albums_processed == old(result).albums_processed,
                    result.covers_merged >= old(result).covers_merged,
                    result.space_saved_bytes >= old(result).space_saved_bytes,
                    result.errors@.len() >= old(result).errors@.len(),
                    (old(result).covers_merged == 0 ==> old(result).space_saved_bytes == 0) ==> (
                    result.covers_merged == 0 ==> result.space_saved_bytes == 0),
                decreases updates@.len() - u,
            {
                if let Err(e) = tx_update_track_cover_path(
                    &tx,
                    updates[u].track_id,
                    &updates[u].new_path,
                ) {
                    result.errors.push(fmt_id_err("Failed to update track ", updates[u].track_id, &e));
                }
                u = u + 1;
            }
            if let Err(e) = commit_tx(tx) {
                // Do not delete files whose row updates were not confirmed.
                result.errors.push(fmt_plain_err("Failed to commit transaction: ", &e));
                k = k + 1;
                continue ;
            }
        }
        let mut m: usize = 0;
        while m < plan.removals.len()
            invariant
                forall|p: &Vec<u8>| #[trigger] delete_file.requires((p,)),
                m <= plan.removals@.len(),
                result.albums_processed == old(result).albums_processed,
                result.covers_merged >= old(result).covers_merged,
                result.space_saved_bytes >= old(result).space_saved_bytes,
                result.errors@.len() >= old(result).errors@.len(),
                (old(result).covers_merged == 0 ==> old(result).space_saved_bytes == 0) ==> (
                result.covers_merged == 0 ==> result.space_saved_bytes == 0),
            decreases plan.removals@.len() - m,
        {
            let outcome = delete_file(&plan.removals[m].path);
            record_delete_outcome(result, outcome, plan.removals[m].size);
            m = m + 1;
        }
        k = k + 1;
    }
    Ok(())
}

/// Detects and merges byte-identical cover files album by album: within
/// each album name, tracks' covers are grouped by path, pre-filtered by
/// size bucket, hashed, and every duplicate class converges to its
/// lexicographically smallest path — referencing rows are rewritten in
/// one transaction per class, then the redundant files are deleted, a
/// file already gone being a benign no-op. Per-file failures are
/// recorded and never abort the run; space is only ever counted for a
/// confirmed deletion.
pub fn merge_duplicate_covers<FStat, FHash, FDel>(
    conn: &mut rusqlite::Connection,
    stat_file: &FStat,
    hash_file: &FHash,
    delete_file: &FDel,
) -> (r: Result<MergeCoverResult, String>) where
    FStat: Fn(&Vec<u8>) -> Result<u64, String>,
    FHash: Fn(&Vec<u8>) -> Result<Vec<u8>, String>,
    FDel: Fn(&Vec<u8>) -> crate::records::DeleteOutcome,

    requires
        forall|p: &Vec<u8>| #[trigger] stat_file.requires((p,)),
        forall|p: &Vec<u8>| #[trigger] hash_file.requires((p,)),
        forall|p: &Vec<u8>| #[trigger] delete_file.requires((p,)),
    ensures
        match r {
            Result::Ok(res) => res.covers_merged == 0 ==> res.space_saved_bytes == 0,
            Result::Err(_) => true,
        },
{
    let album_names = match query_album_names(conn) {
        Ok(a) => a,
        Err(e) => {
            return Err(e);
        },
    };
    let mut result = MergeCoverResult {
        covers_merged: 0,
        space_saved_bytes: 0,
        albums_processed: 0,
        errors: Vec::new(),
    };
    let mut a: usize = 0;
    while a < album_names.len()
        invariant
            forall|p: &Vec<u8>| #[trigger] stat_file.requires((p,)),
            forall|p: &Vec<u8>| #[trigger] hash_file.requires((p,)),
            forall|p: &Vec<u8>| #[trigger] delete_file.requires((p,)),
            a <= album_names@.len(),
            result.albums_processed == a,
            result.covers_merged == 0 ==> result.space_saved_bytes == 0,
        decreases album_names@.len() - a,
    {
        result.albums_processed = result.albums_processed + 1;
        if let Err(e) = merge_album(conn, &album_names[a], stat_file, hash_file, delete_file, &mut result) {
            return Err(e);
        }
        a = a + 1;
    }
    Ok(result)
}

} // verus!
