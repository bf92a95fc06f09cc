//! Classification of on-disk cover files for path synchronization. A
//! directory entry is a sync candidate when it is a regular file, its
//! extension is on the image allow-list (compared without regard to ASCII
//! case), and its stem reads as a decimal row id.

use vstd::prelude::*;
use vstd::slice::slice_subrange;
use crate::bytes::{lower_ascii, lower_byte, lower_bytes, parse_i64, parsed_i64};

verus! {

/// One entry of a scanned cover directory, as the caller lists it: the
/// bare file name, the full path, and whether it is a regular file.
pub struct DirEntry {
    pub name: Vec<u8>,
    pub path: Vec<u8>,
    pub is_file: bool,
}

/// What a scan of one cover directory found. A missing directory is not
/// an error; a directory that cannot be read contributes no candidates
/// and one recorded error.
pub enum DirScan {
    Missing,
    Unreadable(String),
    Listed(Vec<DirEntry>),
}

/// A file to apply to the store: the row with this id gains this path.
pub struct SyncCandidate {
    pub path: Vec<u8>,
    pub id: i64,
}

/// Index of the last dot of a file name, or -1 if it has none.
pub open spec fn last_dot(name: Seq<u8>) -> int
    decreases name.len(),
{
    if name.len() == 0 {
        -1
    } else if name.last() == 46 {
        name.len() - 1
    } else {
        last_dot(name.drop_last())
    }
}

/// Whether a lower-cased extension is on the image allow-list:
/// `jpg`, `jpeg`, `png` or `webp`.
pub open spec fn allowed_image_ext(ext: Seq<u8>) -> bool {
    ||| lower_bytes(ext) =~= seq![106u8, 112u8, 103u8]
    ||| lower_bytes(ext) =~= seq![106u8, 112u8, 101u8, 103u8]
    ||| lower_bytes(ext) =~= seq![112u8, 110u8, 103u8]
    ||| lower_bytes(ext) =~= seq![119u8, 101u8, 98u8, 112u8]
}

/// The row id a cover file name denotes: the name must carry an
/// allow-listed extension after its last dot, the dot must not lead the
/// name, and the stem before it must read as a decimal id.
pub open spec fn cover_id_of(name: Seq<u8>) -> Option<int> {
    let d = last_dot(name);
    if d >= 1 && allowed_image_ext(name.subrange(d + 1, name.len() as int)) {
        parsed_i64(name.subrange(0, d))
    } else {
        None
    }
}

/// Finds the last dot of a file name.
fn find_last_dot(name: &Vec<u8>) -> (r: Option<usize>)
    ensures
        match r {
            Some(d) => last_dot(name@) == d && d < name@.len(),
            None => last_dot(name@) == -1,
        },
{
    let mut k: usize = name.len();
    proof {
        assert(name@.subrange(0, name@.len() as int) =~= name@);
    }
    while k > 0
        invariant
            k <= name@.len(),
            last_dot(name@) == last_dot(name@.subrange(0, k as int)),
        decreases k,
    {
        if name[k - 1] == 46 {
            proof {
                assert(name@.subrange(0, k as int).last() == name@[k - 1]);
            }
            return Some(k - 1);
        }
        proof {
            assert(name@.subrange(0, k as int).drop_last() =~= name@.subrange(0, k - 1));
        }
        k = k - 1;
    }
    proof {
        assert(name@.subrange(0, 0) =~= Seq::<u8>::empty());
    }
    None
}

/// Tests an extension against the image allow-list, ignoring ASCII case.
fn ext_allowed(ext: &[u8]) -> (r: bool)
    ensures
        r == allowed_image_ext(ext@),
{
    proof {
        assert(lower_bytes(ext@).len() == ext@.len());
        assert(forall|i: int|
            0 <= i < ext@.len() ==> lower_bytes(ext@)[i] == lower_byte(#[trigger] ext@[i]));
    }
    if ext.len() == 3 {
        let a = lower_ascii(ext[0]);
        let b = lower_ascii(ext[1]);
        let c = lower_ascii(ext[2]);
        let jpg = a == 106 && b == 112 && c == 103;
        let png = a == 112 && b == 110 && c == 103;
        proof {
            if jpg {
                assert(lower_bytes(ext@) =~= seq![106u8, 112u8, 103u8]);
            }
            if png {
                assert(lower_bytes(ext@) =~= seq![112u8, 110u8, 103u8]);
            }
        }
        jpg || png
    } else if ext.len() == 4 {
        let a = lower_ascii(ext[0]);
        let b = lower_ascii(ext[1]);
        let c = lower_ascii(ext[2]);
        let d = lower_ascii(ext[3]);
        let jpeg = a == 106 && b == 112 && c == 101 && d == 103;
        let webp = a == 119 && b == 101 && c == 98 && d == 112;
        proof {
            if jpeg {
                assert(lower_bytes(ext@) =~= seq![106u8, 112u8, 101u8, 103u8]);
            }
            if webp {
                assert(lower_bytes(ext@) =~= seq![119u8, 101u8, 98u8, 112u8]);
            }
        }
        jpeg || webp
    } else {
        false
    }
}

/// Reads the row id a cover file name denotes, exactly as `cover_id_of`
/// defines it.
pub fn parse_cover_name(name: &Vec<u8>) -> (r: Option<i64>)
    ensures
        match r {
            Some(v) => cover_id_of(name@) == Some(v as int),
            None => cover_id_of(name@) is None,
        },
{
    match find_last_dot(name) {
        None => None,
        Some(d) => {
            let n = name.len();
            if d < 1 || d >= n {
                proof {
                    assert(d < name@.len());
                }
                return None;
            }
            let ext = slice_subrange(name.as_slice(), d + 1, n);
            if !ext_allowed(ext) {
                return None;
            }
            let stem = slice_subrange(name.as_slice(), 0, d);
            parse_i64(stem)
        },
    }
}

/// How many of a directory's entries are sync candidates: regular files
/// whose names denote a row id.
pub open spec fn candidate_count(entries: Seq<DirEntry>) -> nat
    decreases entries.len(),
{
    if entries.len() == 0 {
        0
    } else {
        candidate_count(entries.drop_last()) + (if entries.last().is_file && cover_id_of(
            entries.last().name@,
        ) is Some {
            1nat
        } else {
            0nat
        })
    }
}

/// How many sync candidates one directory scan yields: a missing or
/// unreadable directory yields none.
pub open spec fn scan_candidates(scan: DirScan) -> nat {
    match scan {
        DirScan::Missing => 0,
        DirScan::Unreadable(_) => 0,
        DirScan::Listed(entries) => candidate_count(entries@),
    }
}

/// `c` is a faithful candidate drawn from the entries: some regular file
/// has its path, and its name denotes its id.
pub open spec fn candidate_from(entries: Seq<DirEntry>, c: SyncCandidate) -> bool {
    exists|e: int|
        0 <= e < entries.len() && (#[trigger] entries[e].is_file) && cover_id_of(
            entries[e].name@,
        ) == Some(c.id as int) && c.path@ == entries[e].path@
}

/// The entry at `e` appears among the candidates, under its own path and
/// the id its name denotes.
pub open spec fn candidate_listed(entries: Seq<DirEntry>, cs: Seq<SyncCandidate>, e: int) -> bool {
    exists|k: int|
        0 <= k < cs.len() && (#[trigger] cs[k].path@) == entries[e].path@ && Some(
            cs[k].id as int,
        ) == cover_id_of(entries[e].name@)
}

/// Collects the sync candidates among a directory's entries: every
/// regular file whose name denotes a row id, under that id, with its full
/// path; nothing else.
pub fn collect_cover_candidates(entries: &Vec<DirEntry>) -> (r: Vec<SyncCandidate>)
    ensures
        r@.len() == candidate_count(entries@),
        forall|k: int| 0 <= k < r@.len() ==> candidate_from(entries@, #[trigger] r@[k]),
        forall|e: int|
            0 <= e < entries@.len() && (#[trigger] entries@[e].is_file) && cover_id_of(
                entries@[e].name@,
            ) is Some ==> candidate_listed(entries@, r@, e),
{
    let mut r: Vec<SyncCandidate> = Vec::new();
    let mut e: usize = 0;
    proof {
        assert(entries@.subrange(0, 0) =~= Seq::<DirEntry>::empty());
    }
    while e < entries.len()
        invariant
            e <= entries@.len(),
            r@.len() == candidate_count(entries@.subrange(0, e as int)),
            forall|k: int| 0 <= k < r@.len() ==> candidate_from(entries@, #[trigger] r@[k]),
            forall|e_: int|
                0 <= e_ < e && (#[trigger] entries@[e_].is_file) && cover_id_of(
                    entries@[e_].name@,
                ) is Some ==> candidate_listed(entries@, r@, e_),
        decreases entries@.len() - e,
    {
        if entries[e].is_file {
            match parse_cover_name(&entries[e].name) {
                Some(id) => {
                    let ghost old_r = r@;
                    let c = SyncCandidate {
                        path: crate::bytes::copy_bytes(&entries[e].path),
                        id,
                    };
                    r.push(c);
                    proof {
                        assert(forall|k: int| 0 <= k < old_r.len() ==> r@[k] == old_r[k]);
                        assert(r@[r@.len() - 1].path@ == entries@[e as int].path@);
                        assert(Some(r@[r@.len() - 1].id as int) == cover_id_of(
                            entries@[e as int].name@,
                        ));
                        assert(candidate_from(entries@, r@[r@.len() - 1]));
                        assert forall|e_: int|
                            0 <= e_ < e + 1 && (#[trigger] entries@[e_].is_file) && cover_id_of(
                                entries@[e_].name@,
                            ) is Some implies candidate_listed(entries@, r@, e_) by {
                            if e_ == e {
                                assert(candidate_listed(entries@, r@, e_));
                            } else {
                                let k = choose|k: int|
                                    0 <= k < old_r.len() && (#[trigger] old_r[k].path@)
                                        == entries@[e_].path@ && Some(old_r[k].id as int)
                                        == cover_id_of(entries@[e_].name@);
                                assert(0 <= k < r@.len() && r@[k].path@ == entries@[e_].path@
                                    && Some(r@[k].id as int) == cover_id_of(entries@[e_].name@));
                            }
                        }
                    }
                },
                None => {},
            }
        } else {
        }
        proof {
            assert(entries@.subrange(0, e + 1).drop_last() =~= entries@.subrange(0, e as int));
            assert(entries@.subrange(0, e + 1).last() == entries@[e as int]);
        }
        e = e + 1;
    }
    proof {
        assert(entries@.subrange(0, entries@.len() as int) =~= entries@);
    }
    r
}

} // verus!
