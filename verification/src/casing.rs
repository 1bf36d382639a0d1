//! Identifier casing for generated type and enum names.

use vstd::prelude::*;

verus! {

/// The camel-case image of a string, as the `case` crate computes it. The
/// result is a function of the characters alone.
pub uninterp spec fn camel_of(s: Seq<char>) -> Seq<char>;

/// Relies on `case::CaseExt::to_camel`: leading underscores are dropped,
/// each remaining underscore run is dropped with the following letter
/// ASCII upper-cased, and the first letter is ASCII upper-cased; an empty
/// string stays empty.
#[verifier::external_body]
pub(crate) fn to_camel(s: &str) -> (r: String)
    ensures
        r@ == camel_of(s@),
        s@.len() == 0 ==> r@.len() == 0,
{
    case::CaseExt::to_camel(s)
}

} // verus!
