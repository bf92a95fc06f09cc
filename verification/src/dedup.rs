//! Duplicate detection and canonical selection. Hashed cover files with the
//! same digest form a duplicate class; the class converges to its canonical
//! member, the lexicographically smallest path, and every other member is
//! planned for removal after the rows referencing it are repointed.

use vstd::prelude::*;
use crate::bucket::FileMeta;
use crate::bytes::{copy_bytes, bytes_eq, bytes_lt, lex_le, lex_lt, lemma_lex_trichotomy};

verus! {

/// A candidate cover file together with its content digest.
pub struct HashedFile {
    pub path: Vec<u8>,
    pub size: u64,
    pub digest: Vec<u8>,
}

/// The planned convergence of one duplicate class: every row referencing a
/// removed path is repointed to `canonical`, then the removed files are
/// deleted.
pub struct DupClassPlan {
    pub canonical: Vec<u8>,
    pub removals: Vec<FileMeta>,
}

/// No two files share a path.
pub open spec fn distinct_paths(files: Seq<HashedFile>) -> bool {
    forall|i: int, j: int|
        0 <= i < files.len() && 0 <= j < files.len() && i != j ==> (#[trigger] files[i].path@)
            != (#[trigger] files[j].path@)
}

/// Whether another file has the same digest as the file at `i`.
#[verifier::opaque]
pub open spec fn has_duplicate(files: Seq<HashedFile>, i: int) -> bool {
    exists|j: int|
        0 <= j < files.len() && j != i && (#[trigger] files[j].digest@) == files[i].digest@
}

/// Whether the file at `i` carries the lexicographically smallest path of
/// its digest class.
#[verifier::opaque]
pub open spec fn min_of_class(files: Seq<HashedFile>, i: int) -> bool {
    forall|j: int|
        0 <= j < files.len() && (#[trigger] files[j].digest@) == files[i].digest@ ==> lex_le(
            files[i].path@,
            files[j].path@,
        )
}

/// `m` plans the removal of a non-canonical member of the digest class of
/// the file at `i`, with the member's own path and size.
#[verifier::opaque]
pub open spec fn removal_of_class(files: Seq<HashedFile>, i: int, m: FileMeta) -> bool {
    exists|j: int|
        0 <= j < files.len() && j != i && (#[trigger] files[j].digest@) == files[i].digest@
            && !min_of_class(files, j) && m.path@ == files[j].path@ && m.size == files[j].size
}

/// `p` fully plans the duplicate class whose canonical member is the file
/// at `i`: the canonical path is that member's, every removal is a
/// non-canonical member, and every non-canonical member is removed.
#[verifier::opaque]
pub open spec fn class_planned(files: Seq<HashedFile>, i: int, p: DupClassPlan) -> bool {
    &&& p.canonical@ == files[i].path@
    &&& forall|k: int|
        0 <= k < p.removals@.len() ==> removal_of_class(files, i, #[trigger] p.removals@[k])
    &&& forall|j: int|
        0 <= j < files.len() && j != i && (#[trigger] files[j].digest@) == files[i].digest@
            ==> exists|k: int|
            0 <= k < p.removals@.len() && (#[trigger] p.removals@[k].path@) == files[j].path@
    &&& forall|k1: int, k2: int|
        0 <= k1 < p.removals@.len() && 0 <= k2 < p.removals@.len() && k1 != k2 ==> (
        #[trigger] p.removals@[k1].path@) != (#[trigger] p.removals@[k2].path@)
}

/// `p` plans some duplicate class of the files, around that class's
/// lexicographically smallest member.
#[verifier::opaque]
pub open spec fn plan_entry_ok(files: Seq<HashedFile>, p: DupClassPlan) -> bool {
    exists|i: int|
        0 <= i < files.len() && has_duplicate(files, i) && min_of_class(files, i)
            && class_planned(files, i, p)
}

/// A complete and sound merge plan over the hashed files: each entry plans
/// one whole duplicate class around its lexicographically smallest member,
/// and every duplicate class has an entry.
pub open spec fn valid_merge_plan(files: Seq<HashedFile>, plan: Seq<DupClassPlan>) -> bool {
    &&& forall|k: int| 0 <= k < plan.len() ==> plan_entry_ok(files, #[trigger] plan[k])
    &&& forall|i: int|
        0 <= i < files.len() && has_duplicate(files, i) && #[trigger] min_of_class(files, i)
            ==> exists|k: int|
            0 <= k < plan.len() && (#[trigger] plan[k].canonical@) == files[i].path@
}

/// Two different files have different paths.
proof fn lemma_distinct_at(files: Seq<HashedFile>, a: int, b: int)
    requires
        distinct_paths(files),
        0 <= a < files.len(),
        0 <= b < files.len(),
        a != b,
    ensures
        files[a].path@ != files[b].path@,
{
}

/// Plans the duplicate class headed by the file at `i`, if it heads one:
/// the file must share its digest with another file and carry the
/// lexicographically smallest path of that class; every other member is
/// planned for removal.
fn plan_one_class(files: &Vec<HashedFile>, i: usize) -> (r: Option<DupClassPlan>)
    requires
        distinct_paths(files@),
        i < files@.len(),
    ensures
        match r {
            Some(p) => has_duplicate(files@, i as int) && min_of_class(files@, i as int)
                && class_planned(files@, i as int, p) && p.canonical@ == files@[i as int].path@,
            None => !(has_duplicate(files@, i as int) && min_of_class(files@, i as int)),
        },
{
    let ghost fs = files@;
    // One scan decides whether this file heads a duplicate class: some
    // other file shares its digest, and none of them has a smaller path.
    let mut dup = false;
    let mut smallest = true;
    let mut j: usize = 0;
    while j < files.len()
        invariant
            distinct_paths(fs),
            fs == files@,
            i < fs.len(),
            j <= fs.len(),
            dup <==> exists|m: int|
                0 <= m < j && m != i && (#[trigger] fs[m].digest@) == fs[i as int].digest@,
            smallest <==> forall|m: int|
                0 <= m < j && (#[trigger] fs[m].digest@) == fs[i as int].digest@ ==> lex_le(
                    fs[i as int].path@,
                    fs[m].path@,
                ),
        decreases fs.len() - j,
    {
        if j != i && bytes_eq(&files[j].digest, &files[i].digest) {
            dup = true;
            proof {
                lemma_lex_trichotomy(fs[i as int].path@, fs[j as int].path@);
                lemma_distinct_at(fs, i as int, j as int);
            }
            if bytes_lt(&files[j].path, &files[i].path) {
                smallest = false;
            }
        }
        j = j + 1;
    }
    proof {
        reveal(has_duplicate);
        reveal(min_of_class);
        assert(dup == has_duplicate(fs, i as int));
        assert(smallest == min_of_class(fs, i as int));
    }
    if !(dup && smallest) {
        return None;
    }
    // Collect every other member of the class for removal.
    let mut removals: Vec<FileMeta> = Vec::new();
    let ghost mut r_owners: Seq<int> = Seq::empty();
    let mut j2: usize = 0;
    while j2 < files.len()
        invariant
            distinct_paths(fs),
            fs == files@,
            i < fs.len(),
            j2 <= fs.len(),
            min_of_class(fs, i as int),
            r_owners.len() == removals@.len(),
            forall|k: int|
                0 <= k < removals@.len() ==> 0 <= (#[trigger] r_owners[k]) < j2,
            forall|k: int, k_: int|
                0 <= k < r_owners.len() && 0 <= k_ < r_owners.len() && k < k_ ==> (
                #[trigger] r_owners[k]) < (#[trigger] r_owners[k_]),
            forall|k: int|
                0 <= k < removals@.len() ==> (#[trigger] removals@[k].path@)
                    == fs[r_owners[k]].path@,
            forall|k: int|
                0 <= k < removals@.len() ==> removal_of_class(
                    fs,
                    i as int,
                    #[trigger] removals@[k],
                ),
            forall|m: int|
                0 <= m < j2 && m != i && (#[trigger] fs[m].digest@) == fs[i as int].digest@
                    ==> exists|k: int|
                    0 <= k < removals@.len() && (#[trigger] removals@[k].path@) == fs[m].path@,
        decreases fs.len() - j2,
    {
        if j2 != i && bytes_eq(&files[j2].digest, &files[i].digest) {
            proof {
                // The class minimum is unique, so this member is not it.
                reveal(min_of_class);
                lemma_distinct_at(fs, i as int, j2 as int);
                lemma_lex_trichotomy(fs[i as int].path@, fs[j2 as int].path@);
                assert(fs[i as int].digest@ == fs[j2 as int].digest@);
                assert(lex_le(fs[i as int].path@, fs[j2 as int].path@));
                assert(lex_lt(fs[i as int].path@, fs[j2 as int].path@));
                if min_of_class(fs, j2 as int) {
                    assert(lex_le(fs[j2 as int].path@, fs[i as int].path@));
                    assert(false);
                }
            }
            let m = FileMeta { path: copy_bytes(&files[j2].path), size: files[j2].size };
            let ghost old_removals = removals@;
            let ghost old_r_owners = r_owners;
            removals.push(m);
            proof {
                reveal(removal_of_class);
                r_owners = r_owners.push(j2 as int);
                assert(removals@[removals@.len() - 1].path@ == fs[j2 as int].path@);
                assert(removal_of_class(fs, i as int, removals@[removals@.len() - 1]));
                assert(forall|k: int|
                    0 <= k < old_removals.len() ==> removals@[k] == old_removals[k]);
                assert forall|k: int| 0 <= k < removals@.len() implies (
                #[trigger] removals@[k].path@) == fs[r_owners[k]].path@ by {
                    if k < old_removals.len() {
                        assert(removals@[k] == old_removals[k]);
                        assert(r_owners[k] == old_r_owners[k]);
                        assert(old_removals[k].path@ == fs[old_r_owners[k]].path@);
                    } else {
                        assert(r_owners[k] == j2 as int);
                    }
                }
            }
        }
        j2 = j2 + 1;
    }
    let ghost rsnap = removals@;
    let ghost rsnap_owners = r_owners;
    let plan = DupClassPlan { canonical: copy_bytes(&files[i].path), removals };
    proof {
        assert(plan.removals@ == rsnap);
        assert forall|k1: int, k2: int|
            0 <= k1 < plan.removals@.len() && 0 <= k2 < plan.removals@.len() && k1 != k2 implies (
        #[trigger] plan.removals@[k1].path@) != (#[trigger] plan.removals@[k2].path@) by {
            assert(rsnap_owners[k1] != rsnap_owners[k2]);
            lemma_distinct_at(fs, rsnap_owners[k1], rsnap_owners[k2]);
            assert(plan.removals@[k1].path@ == fs[rsnap_owners[k1]].path@);
            assert(plan.removals@[k2].path@ == fs[rsnap_owners[k2]].path@);
        }
        assert forall|j_: int|
            0 <= j_ < fs.len() && j_ != i && (#[trigger] fs[j_].digest@)
                == fs[i as int].digest@ implies exists|k: int|
            0 <= k < plan.removals@.len() && (#[trigger] plan.removals@[k].path@)
                == fs[j_].path@ by {
            let k = choose|k: int|
                0 <= k < rsnap.len() && (#[trigger] rsnap[k].path@) == fs[j_].path@;
            assert(0 <= k < plan.removals@.len() && plan.removals@[k].path@ == fs[j_].path@);
        }
        assert forall|k: int| 0 <= k < plan.removals@.len() implies removal_of_class(
            fs,
            i as int,
            #[trigger] plan.removals@[k],
        ) by {
            assert(plan.removals@[k] == rsnap[k]);
            assert(removal_of_class(fs, i as int, rsnap[k]));
        }
        reveal(class_planned);
        assert(class_planned(fs, i as int, plan));
    }
    Some(plan)
}

/// Plans the merge of every duplicate class among the hashed files: one
/// entry per digest shared by at least two files, the lexicographically
/// smallest path canonical, all other members planned for removal.
pub fn plan_duplicates(files: &Vec<HashedFile>) -> (r: Vec<DupClassPlan>)
    requires
        distinct_paths(files@),
    ensures
        valid_merge_plan(files@, r@),
        forall|k1: int, k2: int|
            0 <= k1 < r@.len() && 0 <= k2 < r@.len() && k1 != k2 ==> (
            #[trigger] r@[k1].canonical@) != (#[trigger] r@[k2].canonical@),
{
    let ghost fs = files@;
    let mut r: Vec<DupClassPlan> = Vec::new();
    let ghost mut owners: Seq<int> = Seq::empty();
    let mut i: usize = 0;
    while i < files.len()
        invariant
            distinct_paths(fs),
            fs == files@,
            i <= fs.len(),
            owners.len() == r@.len(),
            forall|k: int|
                0 <= k < r@.len() ==> 0 <= (#[trigger] owners[k]) < i,
            forall|k: int, k_: int|
                0 <= k < owners.len() && 0 <= k_ < owners.len() && k < k_ ==> (
                #[trigger] owners[k]) < (#[trigger] owners[k_]),
            forall|k: int|
                0 <= k < r@.len() ==> has_duplicate(fs, #[trigger] owners[k]) && min_of_class(
                    fs,
                    owners[k],
                ),
            forall|k: int|
                0 <= k < r@.len() ==> class_planned(fs, owners[k], #[trigger] r@[k]),
            forall|k: int|
                0 <= k < r@.len() ==> plan_entry_ok(fs, #[trigger] r@[k]),
            forall|k: int|
                0 <= k < r@.len() ==> (#[trigger] r@[k].canonical@) == fs[owners[k]].path@,
            forall|m: int|
                0 <= m < i && has_duplicate(fs, m) && #[trigger] min_of_class(fs, m)
                    ==> exists|k: int|
                    0 <= k < r@.len() && (#[trigger] r@[k].canonical@) == fs[m].path@,
        decreases fs.len() - i,
    {
        match plan_one_class(files, i) {
            Some(plan) => {
                let ghost old_r = r@;
                r.push(plan);
                proof {
                    owners = owners.push(i as int);
                    assert(forall|k: int| 0 <= k < old_r.len() ==> r@[k] == old_r[k]);
                    assert(class_planned(fs, i as int, r@[r@.len() - 1]));
                    assert(r@[r@.len() - 1].canonical@ == fs[i as int].path@);
                    assert(plan_entry_ok(fs, r@[r@.len() - 1])) by {
                        reveal(plan_entry_ok);
                        assert(0 <= i < fs.len() && has_duplicate(fs, i as int) && min_of_class(
                            fs,
                            i as int,
                        ) && class_planned(fs, i as int, r@[r@.len() - 1]));
                    }
                    assert forall|m: int|
                        0 <= m < i + 1 && has_duplicate(fs, m) && #[trigger] min_of_class(
                            fs,
                            m,
                        ) implies exists|k: int|
                        0 <= k < r@.len() && (#[trigger] r@[k].canonical@) == fs[m].path@ by {
                        if m == i {
                            assert(r@[r@.len() - 1].canonical@ == fs[m].path@);
                        } else {
                            let k = choose|k: int|
                                0 <= k < old_r.len() && (#[trigger] old_r[k].canonical@)
                                    == fs[m].path@;
                            assert(0 <= k < r@.len() && r@[k].canonical@ == fs[m].path@);
                        }
                    }
                }
            },
            None => {},
        }
        i = i + 1;
    }
    proof {
        assert(valid_merge_plan(files@, r@));
        assert forall|k1: int, k2: int|
            0 <= k1 < r@.len() && 0 <= k2 < r@.len() && k1 != k2 implies (
        #[trigger] r@[k1].canonical@) != (#[trigger] r@[k2].canonical@) by {
            assert(owners[k1] != owners[k2]);
            lemma_distinct_at(fs, owners[k1], owners[k2]);
            assert(r@[k1].canonical@ == fs[owners[k1]].path@);
            assert(r@[k2].canonical@ == fs[owners[k2]].path@);
        }
    }
    r
}

/// A fully planned class whose only non-canonical member is the file at
/// `j` has exactly one removal, naming that member's path: every removal
/// names a non-canonical member, and removal paths are pairwise distinct.
#[verifier::spinoff_prover]
proof fn lemma_sole_removal(files: Seq<HashedFile>, i: int, j: int, p: DupClassPlan)
    requires
        distinct_paths(files),
        0 <= i < files.len(),
        0 <= j < files.len(),
        i != j,
        files[j].digest@ == files[i].digest@,
        forall|m: int|
            0 <= m < files.len() && (#[trigger] files[m].digest@) == files[i].digest@ ==> m == i
                || m == j,
        class_planned(files, i, p),
    ensures
        p.removals@.len() == 1,
        p.removals@[0].path@ == files[j].path@,
{
    reveal(class_planned);
    assert forall|t: int| 0 <= t < p.removals@.len() implies (#[trigger] p.removals@[t].path@)
        == files[j].path@ by {
        assert(removal_of_class(files, i, p.removals@[t]));
        reveal(removal_of_class);
        let j_ = choose|j_: int|
            0 <= j_ < files.len() && j_ != i && (#[trigger] files[j_].digest@)
                == files[i].digest@ && !min_of_class(files, j_) && p.removals@[t].path@
                == files[j_].path@ && p.removals@[t].size == files[j_].size;
        assert(j_ == i || j_ == j);
        assert(j_ == j);
    }
    assert(exists|t: int|
        0 <= t < p.removals@.len() && (#[trigger] p.removals@[t].path@) == files[j].path@);
    let t0 = choose|t: int|
        0 <= t < p.removals@.len() && (#[trigger] p.removals@[t].path@) == files[j].path@;
    assert(0 <= t0 < p.removals@.len());
    if p.removals@.len() >= 2 {
        assert(p.removals@[0].path@ == files[j].path@);
        assert(p.removals@[1].path@ == files[j].path@);
        assert(p.removals@[0].path@ != p.removals@[1].path@);
        assert(false);
    }
    if t0 != 0 {
        assert(false);
    }
}

/// A planned canonical path is never itself planned for removal: the file
/// that survives a duplicate class is not deleted, by this plan or any
/// other class's.
pub proof fn lemma_canonical_never_removed(
    files: Seq<HashedFile>,
    plan: Seq<DupClassPlan>,
    k1: int,
    k2: int,
    t: int,
)
    requires
        distinct_paths(files),
        valid_merge_plan(files, plan),
        0 <= k1 < plan.len(),
        0 <= k2 < plan.len(),
        0 <= t < plan[k2].removals@.len(),
    ensures
        plan[k2].removals@[t].path@ != plan[k1].canonical@,
{
    assert(plan_entry_ok(files, plan[k1]));
    assert(plan_entry_ok(files, plan[k2]));
    reveal(plan_entry_ok);
    let i1 = choose|i: int|
        0 <= i < files.len() && has_duplicate(files, i) && min_of_class(files, i)
            && class_planned(files, i, plan[k1]);
    assert(0 <= i1 < files.len() && min_of_class(files, i1) && class_planned(
        files,
        i1,
        plan[k1],
    ));
    let i2 = choose|i: int|
        0 <= i < files.len() && has_duplicate(files, i) && min_of_class(files, i)
            && class_planned(files, i, plan[k2]);
    assert(0 <= i2 < files.len() && class_planned(files, i2, plan[k2]));
    assert(removal_of_class(files, i2, plan[k2].removals@[t])) by {
        reveal(class_planned);
    }
    assert(plan[k1].canonical@ == files[i1].path@) by {
        reveal(class_planned);
    }
    let j = choose|j: int|
        0 <= j < files.len() && j != i2 && (#[trigger] files[j].digest@) == files[i2].digest@
            && !min_of_class(files, j) && plan[k2].removals@[t].path@ == files[j].path@
            && plan[k2].removals@[t].size == files[j].size;
    assert(0 <= j < files.len() && !min_of_class(files, j) && plan[k2].removals@[t].path@
        == files[j].path@) by {
        reveal(removal_of_class);
    }
    if plan[k2].removals@[t].path@ == plan[k1].canonical@ {
        // The removed member and the surviving member of class `k1` would
        // share a path, hence be the same file — both the minimum of its
        // class and not.
        assert(files[j].path@ == files[i1].path@);
        if i1 != j {
            lemma_distinct_at(files, i1, j);
        }
        assert(i1 == j);
        assert(false);
    }
}

/// Duplicate classes converge (two-member case): if exactly two files
/// share a digest under differing paths, the plan keeps exactly one of
/// them — the lexicographically smaller path, as the class canonical —
/// and removes the other, exactly once; the survivor is removed by no
/// plan entry.
pub proof fn lemma_duplicates_converge(
    files: Seq<HashedFile>,
    plan: Seq<DupClassPlan>,
    i: int,
    j: int,
)
    requires
        distinct_paths(files),
        valid_merge_plan(files, plan),
        0 <= i < files.len(),
        0 <= j < files.len(),
        i != j,
        files[j].digest@ == files[i].digest@,
        lex_lt(files[i].path@, files[j].path@),
        forall|m: int|
            0 <= m < files.len() && (#[trigger] files[m].digest@) == files[i].digest@ ==> m == i
                || m == j,
    ensures
        exists|k: int|
            0 <= k < plan.len() && (#[trigger] plan[k].canonical@) == files[i].path@ && plan[
                k
            ].removals@.len() == 1 && plan[k].removals@[0].path@ == files[j].path@,
        forall|k2: int, t: int|
            0 <= k2 < plan.len() && 0 <= t < plan[k2].removals@.len() ==> (
            #[trigger] plan[k2].removals@[t].path@) != files[i].path@,
{
    assert(has_duplicate(files, i)) by {
        reveal(has_duplicate);
    }
    assert(min_of_class(files, i)) by {
        reveal(min_of_class);
        assert forall|m: int|
            0 <= m < files.len() && (#[trigger] files[m].digest@)
                == files[i].digest@ implies lex_le(files[i].path@, files[m].path@) by {
            if m == j {
            } else {
                assert(m == i);
            }
        }
    }
    let k = choose|k: int|
        0 <= k < plan.len() && (#[trigger] plan[k].canonical@) == files[i].path@;
    assert(0 <= k < plan.len() && plan[k].canonical@ == files[i].path@);
    assert(plan_entry_ok(files, plan[k]));
    reveal(plan_entry_ok);
    let io = choose|io: int|
        0 <= io < files.len() && has_duplicate(files, io) && min_of_class(files, io)
            && class_planned(files, io, plan[k]);
    assert(0 <= io < files.len() && class_planned(files, io, plan[k]));
    assert(files[io].path@ == files[i].path@) by {
        reveal(class_planned);
    }
    if io != i {
        lemma_distinct_at(files, io, i);
    }
    assert(io == i);
    assert(files[j].digest@ == files[i].digest@);
    lemma_sole_removal(files, i, j, plan[k]);
    assert forall|k2: int, t: int|
        0 <= k2 < plan.len() && 0 <= t < plan[k2].removals@.len() implies (
    #[trigger] plan[k2].removals@[t].path@) != files[i].path@ by {
        lemma_canonical_never_removed(files, plan, k, k2, t);
    }
}

} // verus!
