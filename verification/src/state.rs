//! Per-row representation state of cover art. A row can hold an inline
//! payload, a path pointer to a content file, both, or neither; the two
//! representations drift independently, so each engine's eligibility is an
//! explicit state check rather than an ad hoc null test.

use vstd::prelude::*;

verus! {

/// Which cover representations a store row carries.
#[derive(PartialEq, Eq, Structural, Clone, Copy, Debug)]
pub enum CoverState {
    InlineOnly,
    PathOnly,
    Both,
    Neither,
}

/// The state a row with the given presence flags is in.
pub open spec fn cover_state(has_inline: bool, has_path: bool) -> CoverState {
    if has_inline && has_path {
        CoverState::Both
    } else if has_inline {
        CoverState::InlineOnly
    } else if has_path {
        CoverState::PathOnly
    } else {
        CoverState::Neither
    }
}

/// Classifies a row by which representations are present.
pub fn classify_cover(has_inline: bool, has_path: bool) -> (r: CoverState)
    ensures
        r == cover_state(has_inline, has_path),
{
    if has_inline && has_path {
        CoverState::Both
    } else if has_inline {
        CoverState::InlineOnly
    } else if has_path {
        CoverState::PathOnly
    } else {
        CoverState::Neither
    }
}

/// Migration converts inline payloads to files; it selects exactly the rows
/// that still lack a path pointer for their inline payload.
pub open spec fn eligible_for_migration(s: CoverState) -> bool {
    s is InlineOnly
}

/// Merge rewrites path pointers; it considers exactly the rows that carry
/// one.
pub open spec fn eligible_for_merge(s: CoverState) -> bool {
    s is PathOnly || s is Both
}

/// Effect of one migration attempt on a row's state: a row eligible for
/// migration whose file write and pointer update both succeeded gains the
/// path pointer and keeps its inline payload; every other row is untouched.
pub open spec fn migrate_row(s: CoverState, succeeded: bool) -> CoverState {
    if eligible_for_migration(s) && succeeded {
        CoverState::Both
    } else {
        s
    }
}

/// Effect of one migration run over a snapshot of row states, given which
/// attempts succeeded.
pub open spec fn run_migration(rows: Seq<CoverState>, ok: Seq<bool>) -> Seq<CoverState> {
    Seq::new(rows.len(), |i: int| migrate_row(rows[i], ok[i]))
}

/// Idempotence of migration: a fully successful run leaves no row eligible
/// for migration, so an immediately following run selects nothing, changes
/// nothing, and reports zero additional migrations and zero errors.
pub proof fn lemma_migration_idempotent(rows: Seq<CoverState>, ok: Seq<bool>)
    requires
        ok.len() == rows.len(),
        forall|i: int| 0 <= i < ok.len() ==> ok[i],
    ensures
        forall|i: int|
            0 <= i < rows.len() ==> !eligible_for_migration(
                #[trigger] run_migration(rows, ok)[i],
            ),
        run_migration(run_migration(rows, ok), ok) =~= run_migration(rows, ok),
{
}

} // verus!
