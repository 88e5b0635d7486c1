//! Conversion of names between cases, done by the crate `heck`.
use vstd::prelude::*;

verus! {

/// The snake case form of a name, as `heck` computes it.
pub uninterp spec fn snake_case_of(s: Seq<char>) -> Seq<char>;

/// The Pascal case form of a name, as `heck` computes it.
pub uninterp spec fn pascal_case_of(s: Seq<char>) -> Seq<char>;

/// The name in snake case.
///
/// Calls `heck::ToSnakeCase::to_snake_case` on the string. That function reads nothing
/// but its argument, so the contract gives its result a name and claims no more.
#[verifier::external_body]
pub(crate) fn to_snake_case(s: &str) -> (r: String)
    ensures
        r@ == snake_case_of(s@),
{
    heck::ToSnakeCase::to_snake_case(s)
}

/// The name in Pascal case.
///
/// Calls `heck::ToPascalCase::to_pascal_case` on the string. That function reads
/// nothing but its argument, so the contract gives its result a name and claims no
/// more.
#[verifier::external_body]
pub(crate) fn to_pascal_case(s: &str) -> (r: String)
    ensures
        r@ == pascal_case_of(s@),
{
    heck::ToPascalCase::to_pascal_case(s)
}

} // verus!
