use vstd::prelude::*;
use crate::tokens::{Tok, TokV, toks_view, push_ident, push_punct};

verus! {

/// The type of the natural-number parameters of generic propositions (`rprop::Nat`).
pub type Nat = u32;

/// The tokens `::rprop::Nat`.
pub open spec fn nat_ty_spec() -> Seq<TokV> {
    seq![
        TokV::Punct(':', true),
        TokV::Punct(':', false),
        TokV::Ident("rprop"@),
        TokV::Punct(':', true),
        TokV::Punct(':', false),
        TokV::Ident("Nat"@),
    ]
}

/// The tokens that name the natural-number type in generated code.
pub fn emit_nat_ty() -> (r: Vec<Tok>)
    ensures
        toks_view(r@) == nat_ty_spec(),
{
    let mut r: Vec<Tok> = Vec::new();
    push_punct(&mut r, ':', true);
    push_punct(&mut r, ':', false);
    push_ident(&mut r, "rprop");
    push_punct(&mut r, ':', true);
    push_punct(&mut r, ':', false);
    push_ident(&mut r, "Nat");
    assert(toks_view(r@) =~= nat_ty_spec());
    r
}

/// The value of a non-empty run of decimal digits.
pub open spec fn digits_value(s: Seq<char>) -> int
    decreases s.len(),
{
    if s.len() == 0 {
        0
    } else {
        digits_value(s.drop_last()) * 10 + (s.last() as int - '0' as int)
    }
}

/// The value of an integer literal as `syn` reads it (`3`, `1_000`, `0x10`, `7u32`), if it
/// is one and fits a `u32`.
pub uninterp spec fn int_lit_value(s: Seq<char>) -> Option<u32>;

/// Whether the text is a non-empty run of decimal digits.
pub open spec fn all_digits(s: Seq<char>) -> bool {
    s.len() > 0 && forall|i: int| 0 <= i < s.len() ==> '0' <= #[trigger] s[i] && s[i] <= '9'
}

/// The value of an integer literal.
///
/// Trusted: reads the text with `syn::parse_str::<syn::LitInt>` and takes
/// `LitInt::base10_parse::<u32>`, which strips underscores and a type suffix, reads the
/// base prefix, and fails where the value does not fit; either failure gives `None`. The
/// result depends on the text alone and is named `int_lit_value`; for plain decimal digits
/// the contract says the value, which fails where it does not fit.
#[verifier::external_body]
pub(crate) fn parse_lit(s: &str) -> (r: Option<u32>)
    ensures
        r == int_lit_value(s@),
        all_digits(s@) ==> r == (if digits_value(s@) <= u32::MAX {
            Some(digits_value(s@) as u32)
        } else {
            None
        }),
{
    syn::parse_str::<syn::LitInt>(s).ok()?.base10_parse::<u32>().ok()
}

} // verus!
