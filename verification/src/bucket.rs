//! Size pre-filter for the duplicate merge. Hashing is the expensive step,
//! so a file is only hashed when another candidate shares its size bucket:
//! buckets are keyed by the file size truncated to whole KiB, which
//! tolerates sub-KiB metadata drift while pruning files that cannot be
//! byte-identical to any other.

use vstd::prelude::*;

verus! {

/// Width of a size bucket in bytes.
pub const BUCKET_WIDTH: u64 = 1024;

/// A candidate cover file on disk: its path and its size as stat reports
/// it.
pub struct FileMeta {
    pub path: Vec<u8>,
    pub size: u64,
}

/// No two candidate files share a path.
pub open spec fn distinct_file_paths(files: Seq<FileMeta>) -> bool {
    forall|i: int, j: int|
        0 <= i < files.len() && 0 <= j < files.len() && i != j ==> (#[trigger] files[i].path@)
            != (#[trigger] files[j].path@)
}

/// How many flags of a pre-filter mask are set.
pub open spec fn count_true(flags: Seq<bool>) -> nat
    decreases flags.len(),
{
    if flags.len() == 0 {
        0
    } else {
        count_true(flags.drop_last()) + (if flags.last() {
            1nat
        } else {
            0nat
        })
    }
}

/// The size bucket a file of the given size falls into.
pub open spec fn bucket_key(size: u64) -> u64 {
    size / 1024
}

/// Whether the file at index `i` must be hashed: some other candidate
/// shares its size bucket, so the two could be byte-identical.
pub open spec fn is_hash_candidate(files: Seq<FileMeta>, i: int) -> bool {
    exists|j: int|
        0 <= j < files.len() && j != i && bucket_key(#[trigger] files[j].size) == bucket_key(
            files[i].size,
        )
}

/// Marks the files that share their size bucket with another file; only
/// those are handed to the content hasher. Files alone in their bucket are
/// never hashed: they cannot match anything.
pub fn hash_candidates(files: &Vec<FileMeta>) -> (r: Vec<bool>)
    ensures
        r@.len() == files@.len(),
        forall|i: int| 0 <= i < files@.len() ==> (r@[i] <==> is_hash_candidate(files@, i)),
{
    let mut r: Vec<bool> = Vec::new();
    let mut i: usize = 0;
    while i < files.len()
        invariant
            i <= files@.len(),
            r@.len() == i,
            forall|k: int| 0 <= k < i ==> (r@[k] <==> is_hash_candidate(files@, k)),
        decreases files@.len() - i,
    {
        let key_i = files[i].size / 1024;
        let mut found = false;
        let mut j: usize = 0;
        while j < files.len()
            invariant
                i < files@.len(),
                j <= files@.len(),
                key_i == bucket_key(files@[i as int].size),
                found <==> exists|m: int|
                    0 <= m < j && m != i && bucket_key(#[trigger] files@[m].size)
                        == bucket_key(files@[i as int].size),
            decreases files@.len() - j,
        {
            if j != i && files[j].size / 1024 == key_i {
                found = true;
            }
            j = j + 1;
        }
        r.push(found);
        i = i + 1;
    }
    r
}

/// Soundness of the pre-filter: two files in one bucket have sizes that
/// differ by less than the bucket width, so files whose sizes are at least
/// a whole bucket apart are never compared.
pub proof fn lemma_same_bucket_sizes_close(a: u64, b: u64)
    requires
        bucket_key(a) == bucket_key(b),
        a <= b,
    ensures
        b - a < 1024,
{
    vstd::arithmetic::div_mod::lemma_fundamental_div_mod(a as int, 1024);
    vstd::arithmetic::div_mod::lemma_fundamental_div_mod(b as int, 1024);
    vstd::arithmetic::div_mod::lemma_mod_bound(a as int, 1024);
    vstd::arithmetic::div_mod::lemma_mod_bound(b as int, 1024);
}

/// Completeness of the pre-filter: two distinct files of exactly equal
/// size are both marked for hashing, so no byte-identical pair is ever
/// pruned.
pub proof fn lemma_equal_sizes_both_candidates(files: Seq<FileMeta>, i: int, j: int)
    requires
        0 <= i < files.len(),
        0 <= j < files.len(),
        i != j,
        files[i].size == files[j].size,
    ensures
        is_hash_candidate(files, i),
        is_hash_candidate(files, j),
{
    assert(bucket_key(files[i].size) == bucket_key(files[j].size));
}

} // verus!
