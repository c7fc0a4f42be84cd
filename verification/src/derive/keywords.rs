use vstd::prelude::*;
use crate::text::str_eq;

verus! {

/// The name of the proposition that stands for a contradiction.
pub open spec fn absurd_name() -> Seq<char> {
    "Absurd"@
}

/// The name `Absurd`, as a new string.
pub fn absurd_string() -> (s: String)
    ensures
        s@ == absurd_name(),
{
    String::from_str("Absurd")
}

/// Whether a name is the keyword of the proposition language (`Absurd`).
pub fn is_keyword(ident: &str) -> (r: bool)
    ensures
        r == (ident@ == absurd_name()),
{
    str_eq(ident, "Absurd")
}

} // verus!
