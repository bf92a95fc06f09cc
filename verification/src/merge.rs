//! Path grouping and row-update expansion for the duplicate merge. Tracks
//! of an album are grouped by the exact cover path they reference; once
//! duplicate classes are planned, every track referencing a removed path
//! is repointed to the class's canonical path.

use vstd::prelude::*;
use crate::bucket::FileMeta;
use crate::bytes::{bytes_eq, copy_bytes};
use crate::dedup::DupClassPlan;

verus! {

/// A track row carrying a cover path.
pub struct TrackCover {
    pub id: i64,
    pub path: Vec<u8>,
}

/// The tracks referencing one distinct cover path.
pub struct PathGroup {
    pub path: Vec<u8>,
    pub track_ids: Vec<i64>,
}

/// One queued row update: the track's cover path becomes `new_path`.
pub struct RowUpdate {
    pub track_id: i64,
    pub new_path: Vec<u8>,
}

/// Some group carries this path.
pub open spec fn some_group_for(groups: Seq<PathGroup>, p: Seq<u8>) -> bool {
    exists|k: int| 0 <= k < groups.len() && (#[trigger] groups[k].path@) == p
}

/// `g` holds exactly the ids of the tracks referencing its path.
pub open spec fn group_exact(tracks: Seq<TrackCover>, g: PathGroup) -> bool {
    &&& forall|t: int|
        0 <= t < g.track_ids@.len() ==> exists|m: int|
            0 <= m < tracks.len() && (#[trigger] tracks[m].path@) == g.path@ && tracks[m].id == (
            #[trigger] g.track_ids@[t])
    &&& forall|m: int|
        0 <= m < tracks.len() && (#[trigger] tracks[m].path@) == g.path@
            ==> g.track_ids@.contains(tracks[m].id)
}

/// Groups the tracks by the exact path they reference: one group per
/// distinct path, holding exactly the referencing ids, and every track's
/// path has its group.
pub fn group_tracks_by_path(tracks: &Vec<TrackCover>) -> (r: Vec<PathGroup>)
    ensures
        forall|k: int| 0 <= k < r@.len() ==> group_exact(tracks@, #[trigger] r@[k]),
        forall|k1: int, k2: int|
            0 <= k1 < r@.len() && 0 <= k2 < r@.len() && k1 != k2 ==> (#[trigger] r@[k1].path@)
                != (#[trigger] r@[k2].path@),
        forall|m: int|
            0 <= m < tracks@.len() ==> some_group_for(r@, (#[trigger] tracks@[m].path@)),
        r@.len() <= tracks@.len(),
{
    let ghost ts = tracks@;
    let mut r: Vec<PathGroup> = Vec::new();
    let ghost mut owners: Seq<int> = Seq::empty();
    let mut i: usize = 0;
    while i < tracks.len()
        invariant
            ts == tracks@,
            i <= ts.len(),
            owners.len() == r@.len(),
            r@.len() <= i,
            forall|k: int|
                0 <= k < r@.len() ==> 0 <= (#[trigger] owners[k]) < i,
            forall|k: int|
                0 <= k < r@.len() ==> (#[trigger] r@[k].path@) == ts[owners[k]].path@,
            // Each group's owner is the first track referencing its path.
            forall|k: int, j: int|
                0 <= k < r@.len() && 0 <= j < (#[trigger] owners[k]) ==> (
                #[trigger] ts[j].path@) != ts[owners[k]].path@,
            forall|k: int| 0 <= k < r@.len() ==> group_exact(ts, #[trigger] r@[k]),
            forall|k1: int, k2: int|
                0 <= k1 < r@.len() && 0 <= k2 < r@.len() && k1 != k2 ==> (
                #[trigger] r@[k1].path@) != (#[trigger] r@[k2].path@),
            forall|m: int|
                0 <= m < i ==> some_group_for(r@, (#[trigger] ts[m].path@)),
        decreases ts.len() - i,
    {
        // Skip paths already grouped at their first occurrence.
        let mut seen = false;
        let mut j: usize = 0;
        while j < i
            invariant
                ts == tracks@,
                i < ts.len(),
                j <= i,
                seen <==> exists|m: int|
                    0 <= m < j && (#[trigger] ts[m].path@) == ts[i as int].path@,
            decreases i - j,
        {
            if bytes_eq(&tracks[j].path, &tracks[i].path) {
                seen = true;
            }
            j = j + 1;
        }
        if !seen {
            let mut ids: Vec<i64> = Vec::new();
            let mut j2: usize = 0;
            while j2 < tracks.len()
                invariant
                    ts == tracks@,
                    i < ts.len(),
                    j2 <= ts.len(),
                    forall|t: int|
                        0 <= t < ids@.len() ==> exists|m: int|
                            0 <= m < ts.len() && (#[trigger] ts[m].path@) == ts[i as int].path@
                                && ts[m].id == (#[trigger] ids@[t]),
                    forall|m: int|
                        0 <= m < j2 && (#[trigger] ts[m].path@) == ts[i as int].path@
                            ==> ids@.contains(ts[m].id),
                decreases ts.len() - j2,
            {
                if bytes_eq(&tracks[j2].path, &tracks[i].path) {
                    let ghost old_ids = ids@;
                    ids.push(tracks[j2].id);
                    proof {
                        assert(ids@[ids@.len() - 1] == ts[j2 as int].id);
                        assert(forall|t: int| 0 <= t < old_ids.len() ==> ids@[t] == old_ids[t]);
                        assert(forall|x: i64| old_ids.contains(x) ==> ids@.contains(x));
                        assert(ids@.contains(ts[j2 as int].id));
                    }
                }
                j2 = j2 + 1;
            }
            let ghost ids_snap = ids@;
            let g = PathGroup { path: copy_bytes(&tracks[i].path), track_ids: ids };
            let ghost old_r = r@;
            r.push(g);
            proof {
                owners = owners.push(i as int);
                assert(forall|k: int| 0 <= k < old_r.len() ==> r@[k] == old_r[k]);
                assert(r@[r@.len() - 1].path@ == ts[i as int].path@);
                assert(r@[r@.len() - 1].track_ids@ == ids_snap);
                assert(group_exact(ts, r@[r@.len() - 1]));
                assert forall|m: int| 0 <= m < i + 1 implies some_group_for(
                    r@,
                    (#[trigger] ts[m].path@),
                ) by {
                    if m == i {
                        assert(r@[r@.len() - 1].path@ == ts[m].path@);
                    } else {
                        let k = choose|k: int|
                            0 <= k < old_r.len() && (#[trigger] old_r[k].path@) == ts[m].path@;
                        assert(0 <= k < r@.len() && r@[k].path@ == ts[m].path@);
                    }
                }
            }
        } else {
            proof {
                let m0 = choose|m: int|
                    0 <= m < i && (#[trigger] ts[m].path@) == ts[i as int].path@;
                assert(some_group_for(r@, ts[m0].path@));
                assert forall|m: int| 0 <= m < i + 1 implies some_group_for(
                    r@,
                    (#[trigger] ts[m].path@),
                ) by {
                    if m == i {
                        assert(ts[m].path@ == ts[m0].path@);
                    }
                }
            }
        }
        i = i + 1;
    }
    r
}

/// Decides whether an album's tracks call for duplicate detection. With
/// fewer than two tracks carrying covers, or all of them referencing one
/// single path, there is nothing to merge and the album is left entirely
/// untouched; otherwise the tracks are grouped by the path they
/// reference.
pub fn select_merge_groups(tracks: &Vec<TrackCover>) -> (r: Option<Vec<PathGroup>>)
    ensures
        match r {
            Some(groups) => {
                &&& tracks@.len() >= 2
                &&& 2 <= groups@.len() <= tracks@.len()
                &&& forall|k: int|
                    0 <= k < groups@.len() ==> group_exact(tracks@, #[trigger] groups@[k])
                &&& forall|k1: int, k2: int|
                    0 <= k1 < groups@.len() && 0 <= k2 < groups@.len() && k1 != k2 ==> (
                    #[trigger] groups@[k1].path@) != (#[trigger] groups@[k2].path@)
                &&& forall|m: int|
                    0 <= m < tracks@.len() ==> some_group_for(
                        groups@,
                        (#[trigger] tracks@[m].path@),
                    )
            },
            None => tracks@.len() < 2 || (forall|i: int, j: int|
                0 <= i < tracks@.len() && 0 <= j < tracks@.len() ==> (
                #[trigger] tracks@[i].path@) == (#[trigger] tracks@[j].path@)),
        },
{
    if tracks.len() < 2 {
        return None;
    }
    let groups = group_tracks_by_path(tracks);
    if groups.len() < 2 {
        proof {
            // At least one group exists, so there is exactly one, and it
            // carries every track's path.
            assert(some_group_for(groups@, tracks@[0].path@));
            assert(groups@.len() == 1) by {
                let k0 = choose|k: int|
                    0 <= k < groups@.len() && (#[trigger] groups@[k].path@) == tracks@[0].path@;
                assert(0 <= k0 < groups@.len());
            }
            assert forall|i: int, j: int|
                0 <= i < tracks@.len() && 0 <= j < tracks@.len() implies (
            #[trigger] tracks@[i].path@) == (#[trigger] tracks@[j].path@) by {
                assert(some_group_for(groups@, tracks@[i].path@));
                assert(some_group_for(groups@, tracks@[j].path@));
                let ki = choose|k: int|
                    0 <= k < groups@.len() && (#[trigger] groups@[k].path@) == tracks@[i].path@;
                let kj = choose|k: int|
                    0 <= k < groups@.len() && (#[trigger] groups@[k].path@) == tracks@[j].path@;
                assert(ki == 0 && kj == 0);
            }
        }
        return None;
    }
    Some(groups)
}

/// Some update in `updates` repoints the track with this id to `canonical`.
pub open spec fn id_updated(updates: Seq<RowUpdate>, id: i64, canonical: Seq<u8>) -> bool {
    exists|u: int|
        0 <= u < updates.len() && (#[trigger] updates[u]).track_id == id && updates[u].new_path@
            == canonical
}

/// `u` repoints, to the class's canonical path, a track that referenced
/// one of the class's removed paths.
pub open spec fn update_sourced(
    groups: Seq<PathGroup>,
    removals: Seq<FileMeta>,
    u: RowUpdate,
    canonical: Seq<u8>,
) -> bool {
    &&& u.new_path@ == canonical
    &&& exists|g: int, m: int|
        0 <= g < groups.len() && 0 <= m < removals.len() && (#[trigger] groups[g].path@) == (
        #[trigger] removals[m].path@) && groups[g].track_ids@.contains(u.track_id)
}

/// Expands one duplicate-class plan into row updates: every track
/// referencing a removed path of the class is repointed to the class's
/// canonical path, and nothing else is touched.
pub fn plan_updates_for_class(plan: &DupClassPlan, groups: &Vec<PathGroup>) -> (r: Vec<RowUpdate>)
    ensures
        forall|u: int|
            0 <= u < r@.len() ==> update_sourced(
                groups@,
                plan.removals@,
                #[trigger] r@[u],
                plan.canonical@,
            ),
        forall|m: int, g: int, t: int|
            0 <= m < plan.removals@.len() && 0 <= g < groups@.len() && (#[trigger] groups@[g].path@)
                == (#[trigger] plan.removals@[m].path@) && 0 <= t < groups@[g].track_ids@.len()
                ==> id_updated(r@, #[trigger] groups@[g].track_ids@[t], plan.canonical@),
{
    let mut r: Vec<RowUpdate> = Vec::new();
    let mut m: usize = 0;
    while m < plan.removals.len()
        invariant
            m <= plan.removals@.len(),
            forall|u: int|
                0 <= u < r@.len() ==> update_sourced(
                    groups@,
                    plan.removals@,
                    #[trigger] r@[u],
                    plan.canonical@,
                ),
            forall|m_: int, g: int, t: int|
                0 <= m_ < m && 0 <= g < groups@.len() && (#[trigger] groups@[g].path@) == (
                #[trigger] plan.removals@[m_].path@) && 0 <= t < groups@[g].track_ids@.len()
                    ==> id_updated(r@, #[trigger] groups@[g].track_ids@[t], plan.canonical@),
        decreases plan.removals@.len() - m,
    {
        let mut g: usize = 0;
        while g < groups.len()
            invariant
                m < plan.removals@.len(),
                g <= groups@.len(),
                forall|u: int|
                    0 <= u < r@.len() ==> update_sourced(
                        groups@,
                        plan.removals@,
                        #[trigger] r@[u],
                        plan.canonical@,
                    ),
                forall|m_: int, g_: int, t: int|
                    0 <= m_ < m && 0 <= g_ < groups@.len() && (#[trigger] groups@[g_].path@) == (
                    #[trigger] plan.removals@[m_].path@) && 0 <= t < groups@[g_].track_ids@.len()
                        ==> id_updated(r@, #[trigger] groups@[g_].track_ids@[t], plan.canonical@),
                forall|g_: int, t: int|
                    0 <= g_ < g && (#[trigger] groups@[g_].path@) == plan.removals@[m as int].path@
                        && 0 <= t < groups@[g_].track_ids@.len() ==> id_updated(
                        r@,
                        #[trigger] groups@[g_].track_ids@[t],
                        plan.canonical@,
                    ),
            decreases groups@.len() - g,
        {
            if bytes_eq(&groups[g].path, &plan.removals[m].path) {
                let mut t: usize = 0;
                while t < groups[g].track_ids.len()
                    invariant
                        m < plan.removals@.len(),
                        g < groups@.len(),
                        t <= groups@[g as int].track_ids@.len(),
                        groups@[g as int].path@ == plan.removals@[m as int].path@,
                        forall|u: int|
                            0 <= u < r@.len() ==> update_sourced(
                                groups@,
                                plan.removals@,
                                #[trigger] r@[u],
                                plan.canonical@,
                            ),
                        forall|m_: int, g_: int, t_: int|
                            0 <= m_ < m && 0 <= g_ < groups@.len() && (
                            #[trigger] groups@[g_].path@) == (#[trigger] plan.removals@[m_].path@)
                                && 0 <= t_ < groups@[g_].track_ids@.len() ==> id_updated(
                                r@,
                                #[trigger] groups@[g_].track_ids@[t_],
                                plan.canonical@,
                            ),
                        forall|g_: int, t_: int|
                            0 <= g_ < g && (#[trigger] groups@[g_].path@)
                                == plan.removals@[m as int].path@ && 0 <= t_ < groups@[
                                g_
                            ].track_ids@.len() ==> id_updated(
                                r@,
                                #[trigger] groups@[g_].track_ids@[t_],
                                plan.canonical@,
                            ),
                        forall|t_: int|
                            0 <= t_ < t ==> id_updated(
                                r@,
                                #[trigger] groups@[g as int].track_ids@[t_],
                                plan.canonical@,
                            ),
                    decreases groups@[g as int].track_ids@.len() - t,
                {
                    let ghost old_r = r@;
                    let u = RowUpdate {
                        track_id: groups[g].track_ids[t],
                        new_path: copy_bytes(&plan.canonical),
                    };
                    r.push(u);
                    proof {
                        assert(forall|k: int| 0 <= k < old_r.len() ==> r@[k] == old_r[k]);
                        assert(r@[r@.len() - 1].track_id == groups@[g as int].track_ids@[t as int]);
                        assert(r@[r@.len() - 1].new_path@ == plan.canonical@);
                        assert(groups@[g as int].track_ids@.contains(r@[r@.len() - 1].track_id));
                        assert(update_sourced(
                            groups@,
                            plan.removals@,
                            r@[r@.len() - 1],
                            plan.canonical@,
                        ));
                        assert forall|t_: int| 0 <= t_ < t + 1 implies id_updated(
                            r@,
                            #[trigger] groups@[g as int].track_ids@[t_],
                            plan.canonical@,
                        ) by {
                            if t_ == t {
                            } else {
                                lemma_id_updated_extend(
                                    old_r,
                                    r@,
                                    groups@[g as int].track_ids@[t_],
                                    plan.canonical@,
                                );
                            }
                        }
                        lemma_all_id_updated_extend(old_r, r@, plan.canonical@);
                    }
                    t = t + 1;
                }
            }
            g = g + 1;
        }
        m = m + 1;
    }
    r
}

/// An update recorded in a prefix is still recorded after the list grows.
proof fn lemma_id_updated_extend(
    old_updates: Seq<RowUpdate>,
    new_updates: Seq<RowUpdate>,
    id: i64,
    canonical: Seq<u8>,
)
    requires
        old_updates.len() <= new_updates.len(),
        forall|k: int| 0 <= k < old_updates.len() ==> new_updates[k] == old_updates[k],
        id_updated(old_updates, id, canonical),
    ensures
        id_updated(new_updates, id, canonical),
{
    let u = choose|u: int|
        0 <= u < old_updates.len() && (#[trigger] old_updates[u]).track_id == id
            && old_updates[u].new_path@ == canonical;
    assert(0 <= u < new_updates.len() && new_updates[u].track_id == id
        && new_updates[u].new_path@ == canonical);
}

/// All updates recorded in a prefix are still recorded after the list
/// grows.
proof fn lemma_all_id_updated_extend(
    old_updates: Seq<RowUpdate>,
    new_updates: Seq<RowUpdate>,
    canonical: Seq<u8>,
)
    requires
        old_updates.len() <= new_updates.len(),
        forall|k: int| 0 <= k < old_updates.len() ==> new_updates[k] == old_updates[k],
    ensures
        forall|id: i64|
            id_updated(old_updates, id, canonical) ==> id_updated(new_updates, id, canonical),
{
    assert forall|id: i64|
        id_updated(old_updates, id, canonical) implies id_updated(
        new_updates,
        id,
        canonical,
    ) by {
        lemma_id_updated_extend(old_updates, new_updates, id, canonical);
    }
}

} // verus!
