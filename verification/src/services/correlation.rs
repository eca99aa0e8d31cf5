//! The correlation finder: the reports that are similar to a given one.

use crate::error::EngineError;
use crate::models::error_report::Model;
use crate::services::query::{
    lemma_pick_step, lookup, newest_first, newest_leading, pick, position_of,
};
use crate::utils::ranking::leading;
use vstd::prelude::*;

verus! {

/// How many similar reports are shown at most.
pub const SIMILAR_LIMIT: usize = 5;

/// Whether `other` is similar to `target`: another report of the same error type
/// for the same package.
pub open spec fn resembles(target: Model, other: Model) -> bool {
    &&& other.error_type@ == target.error_type@
    &&& other.failure_package@ == target.failure_package@
    &&& other.id != target.id
}

/// The reports that are similar to `target`, newest first, five at most.
pub open spec fn similar_to(reports: Seq<Model>, target: Model) -> Seq<Model> {
    leading(
        newest_first(reports.filter(|other: Model| resembles(target, other))),
        SIMILAR_LIMIT as int,
    )
}

/// The positions of the reports that are similar to `target`, ascending.
fn similar_positions(reports: &Vec<Model>, target: &Model) -> (positions: Vec<usize>)
    ensures
        pick(reports@, positions@) == reports@.filter(|other: Model| resembles(*target, other)),
        forall|i: int| 0 <= i < positions.len() ==> (#[trigger] positions[i]) < reports.len(),
{
    let ghost chosen = |other: Model| resembles(*target, other);
    let mut positions: Vec<usize> = Vec::new();
    let mut at: usize = 0;
    proof {
        reveal(Seq::filter);
        assert(pick(reports@, positions@) =~= reports@.take(0).filter(chosen));
    }
    while at < reports.len()
        invariant
            at <= reports.len(),
            chosen == (|other: Model| resembles(*target, other)),
            pick(reports@, positions@) == reports@.take(at as int).filter(chosen),
            forall|i: int| 0 <= i < positions.len() ==> (#[trigger] positions[i]) < reports.len(),
        decreases reports.len() - at,
    {
        proof {
            lemma_pick_step(reports@, chosen, positions@, at);
        }
        let other = &reports[at];
        if other.error_type == target.error_type && other.failure_package == target.failure_package
            && other.id != target.id {
            positions.push(at);
        }
        at += 1;
    }
    proof {
        assert(reports@.take(reports.len() as int) =~= reports@);
    }
    positions
}

/// The reports that are similar to `target`: those of the same error type for the
/// same package, `target` itself left out, newest first, five at most.
pub fn find_similar_to(reports: &Vec<Model>, target: &Model) -> (similar: Vec<Model>)
    ensures
        similar@ == similar_to(reports@, *target),
{
    let positions = similar_positions(reports, target);
    newest_leading(reports, &positions, SIMILAR_LIMIT)
}

/// Finds the reports that are similar to the report `report_id`. Fails with
/// `NotFound` where no report has that identifier.
pub fn find_similar(reports: &Vec<Model>, report_id: i32) -> (found: Result<
    Vec<Model>,
    EngineError,
>)
    ensures
        match lookup(reports@, report_id) {
            Some(target) => found matches Ok(similar) && similar@ == similar_to(reports@, target),
            None => found == Err::<Vec<Model>, EngineError>(EngineError::NotFound),
        },
{
    match position_of(reports, report_id) {
        Some(target) => Ok(find_similar_to(reports, &reports[target])),
        None => Err(EngineError::NotFound),
    }
}

} // verus!
