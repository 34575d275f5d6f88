//! The casing of type-facing identifiers: table, enum and variant names and
//! referenced user-defined types. Field and module names are kept as they are.

use convert_case::{Case, Casing};
use vstd::prelude::*;

verus! {

/// The Pascal-case form of an identifier, as convert_case computes it.
pub uninterp spec fn pascal_case_of(s: Seq<char>) -> Seq<char>;

/// Relies on convert_case's `Casing::to_case` with `Case::Pascal`: the result
/// depends on the characters of the input alone.
#[verifier::external_body]
pub(crate) fn to_pascal_case(s: &String) -> (r: String)
    ensures
        r@ == pascal_case_of(s@),
{
    s.to_case(Case::Pascal)
}

} // verus!
