//! What a caller is told beside the records of a query.

use crate::chromosome::{alternate_chromosome_name, alternate_spelling, sample_names};
use crate::query::VcfIndex;
use vstd::prelude::*;

verus! {

/// How a query ended.
#[derive(Debug, Clone, Copy, PartialEq, Eq, Structural)]
pub enum QueryStatus {
    Success,
    ChromosomeNotFound,
    NotFound,
}

/// The number of names at most that a hint shows.
pub open spec fn hint_size(available: int) -> int {
    if available < 5 {
        available
    } else {
        5
    }
}

/// Draws up what a caller is told of the chromosome of a position or
/// region query. Where the chromosome was matched the query is in order,
/// whether or not it found records, and there is nothing to add. Where it
/// was not, the caller gets the first names that the file uses, five at
/// most, and the request in its other spelling.
pub fn build_chromosome_response(
    index: &VcfIndex,
    requested_chromosome: &str,
    matched_chr: &Option<String>,
) -> (told: (QueryStatus, Option<Vec<String>>, Option<String>))
    ensures
        matched_chr is Some ==> told == (
            QueryStatus::Success,
            None::<Vec<String>>,
            None::<String>,
        ),
        matched_chr is None ==> {
            &&& told.0 == QueryStatus::ChromosomeNotFound
            &&& told.1 is Some
            &&& told.1.unwrap()@ == index.available().take(
                hint_size(index.available().len() as int),
            )
            &&& told.2 is Some
            &&& told.2.unwrap()@ == alternate_spelling(requested_chromosome@)
        },
{
    match matched_chr {
        Some(_) => (QueryStatus::Success, None, None),
        None => {
            let names = index.get_available_chromosomes();
            let sample = sample_names(&names);
            let other = alternate_chromosome_name(requested_chromosome);
            (QueryStatus::ChromosomeNotFound, Some(sample), Some(other))
        },
    }
}

/// How an identifier query ended that found `count` records.
pub fn id_query_status(count: usize) -> (status: QueryStatus)
    ensures
        status == if count > 0 {
            QueryStatus::Success
        } else {
            QueryStatus::NotFound
        },
{
    if count > 0 {
        QueryStatus::Success
    } else {
        QueryStatus::NotFound
    }
}

} // verus!
