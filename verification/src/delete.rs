//! Validation of a deletion request: every given event identity must
//! parse, and each is normalized to its hex form before the request is
//! built.

use vstd::prelude::*;
use crate::error::AppError;
use crate::resolve::event_id_parse;
use crate::resolve::parse_event_id;

verus! {

/// Normalizes a list of event identities for a deletion request. Every
/// identity must parse; the first that does not is an invalid-identity
/// error carrying that input, and nothing is returned in its stead.
pub fn validate_event_ids(ids: &Vec<String>) -> (r: Result<Vec<String>, AppError>)
    ensures
        match r {
            Ok(v) => v.deep_view().len() == ids@.len() && forall|i: int|
                0 <= i < ids@.len() ==> event_id_parse(#[trigger] ids@[i]@) == Some(
                    v.deep_view()[i],
                ),
            Err(e) => (e matches AppError::InvalidEventId { id } && exists|i: int|
                0 <= i < ids@.len() && #[trigger] ids@[i]@ == id@ && event_id_parse(ids@[i]@)
                    is None),
        },
{
    let mut out: Vec<String> = Vec::new();
    let mut i: usize = 0;
    while i < ids.len()
        invariant
            i <= ids@.len(),
            out.deep_view().len() == i,
            forall|j: int|
                0 <= j < i ==> event_id_parse(#[trigger] ids@[j]@) == Some(out.deep_view()[j]),
        decreases ids@.len() - i,
    {
        match parse_event_id(ids[i].as_str()) {
            Some(hex) => {
                out.push(hex);
            },
            None => {
                proof {
                    assert(event_id_parse(ids@[i as int]@) is None);
                }
                return Err(AppError::InvalidEventId { id: ids[i].clone() });
            },
        }
        i = i + 1;
    }
    Ok(out)
}

} // verus!
