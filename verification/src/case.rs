use vstd::prelude::*;

verus! {

/// The snake-case form of a name, as `heck` computes it (`NotNotHot0` becomes
/// `not_not_hot0`).
pub uninterp spec fn snake_case(s: Seq<char>) -> Seq<char>;

/// The snake-case form of a name.
///
/// Trusted: calls `heck::ToSnakeCase::to_snake_case` on `str`, which splits the text into
/// words at case changes and non-alphanumeric characters and joins them lower-cased with
/// `_`. Its result depends on the text alone; the contract only names it (`snake_case`) and
/// states nothing more of it.
#[verifier::external_body]
pub(crate) fn to_snake_case(s: &str) -> (r: String)
    ensures
        r@ == snake_case(s@),
{
    heck::ToSnakeCase::to_snake_case(s)
}

} // verus!
