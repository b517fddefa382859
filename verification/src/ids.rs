use vstd::prelude::*;

verus! {

/// Relies on uuid::Uuid::new_v4 and its Display form: a random
/// version-4 identifier, rendered as the 36-character hyphenated
/// lowercase form. The value is random, so nothing else is promised
/// of it; callers check freshness against the collection themselves.
#[verifier::external_body]
pub(crate) fn fresh_id() -> (r: String)
    ensures
        r@.len() == 36,
{
    uuid::Uuid::new_v4().to_string()
}

} // verus!
