use rprop::derive::api::{claim, define_conjunction, define_disjunction, propose, prove};
use rprop::error::MacroError;

#[test]
fn define_conjunction_writes_struct_and_impls() {
    let out = define_conjunction("Both, [A, B]").unwrap();
    assert_eq!(
        out,
        "# [derive (Clone , Copy)] pub struct Both { pub a : A , pub b : B , } \
         impl :: rprop :: Prop for Both { } impl :: rprop :: Conjunction for Both { } \
         impl Both { pub fn new (a : A , b : B) -> Self { Self { a , b , } } } \
         impl :: rprop :: HasProp < A > for Both { fn prop (& self) -> A { self . a } } \
         impl :: rprop :: HasProp < B > for Both { fn prop (& self) -> B { self . b } }"
    );
}

#[test]
fn define_conjunction_commas_are_optional() {
    let with = define_conjunction("Both, [A, B]").unwrap();
    let without = define_conjunction("Both, [A B]").unwrap();
    assert_eq!(with, without);
}

#[test]
fn define_conjunction_needs_a_proposition() {
    let err = define_conjunction("Empty, []").unwrap_err();
    assert!(matches!(&err, MacroError::NoPropositions(n) if n == "Empty"));
    assert_eq!(err.message(), "define_conjunction requires at least one proposition");
}

#[test]
fn define_conjunction_rejects_duplicate_member() {
    let err = define_conjunction("Twice, [A, A]").unwrap_err();
    assert!(matches!(&err, MacroError::DuplicateMember { key, other } if key == "A" && other == "A"));
    assert_eq!(err.message(), "duplicate member `A` (already listed as `A`)");
}

#[test]
fn define_conjunction_rejects_field_clash() {
    let err = define_conjunction("Clash, [FooBar, Foo_Bar]").unwrap_err();
    assert!(matches!(&err, MacroError::FieldClash { member, field, other }
        if member == "Foo_Bar" && field == "foo_bar" && other == "FooBar"));
}

#[test]
fn define_disjunction_writes_enum_and_from_impls() {
    let out = define_disjunction("Water, [TapWater, BottledWater]").unwrap();
    assert_eq!(
        out,
        "# [derive (Clone , Copy)] pub enum Water { TapWater (TapWater) , BottledWater (BottledWater) } \
         impl :: rprop :: Prop for Water { } impl :: rprop :: Disjunction for Water { } \
         impl From < TapWater > for Water { fn from (prop : TapWater) -> Self { Self :: TapWater (prop) } } \
         impl From < BottledWater > for Water { fn from (prop : BottledWater) -> Self { Self :: BottledWater (prop) } }"
    );
}

#[test]
fn define_disjunction_needs_two_propositions() {
    let err = define_disjunction("One, [A]").unwrap_err();
    assert!(matches!(&err, MacroError::TooFewPropositions(n) if n == "One"));
}

#[test]
fn define_lists_need_brackets() {
    assert!(matches!(define_conjunction("Both, A, B"), Err(MacroError::Syntax(_))));
    assert!(matches!(define_disjunction("Both [A, B]"), Err(MacroError::Syntax(_))));
}

#[test]
fn propose_atomic_has_private_field() {
    let out = propose("TapWater").unwrap();
    assert_eq!(
        out,
        "# [derive (Clone , Copy)] pub struct TapWater { _private : () , } impl :: rprop :: Prop for TapWater { }"
    );
}

#[test]
fn propose_keeps_doc_comment_on_root() {
    let out = propose("#[doc = \" Hot water\"] HotWater = Water && Heat").unwrap();
    assert!(out.starts_with("# [doc = \" Hot water\"] # [derive (Clone , Copy)] pub struct HotWater"));
}

#[test]
fn propose_readme_example() {
    let out = propose("BoilWater = Water && Kettle -> BoilingWater").unwrap();
    assert_eq!(
        out,
        "pub type BoilWater = fn (water : Water , kettle : Kettle) -> BoilingWater ;"
    );
}

#[test]
fn claim_requires_implication() {
    let err = claim("NotAClaim = A && B").unwrap_err();
    assert!(matches!(&err, MacroError::NotAnImplication(n) if n == "NotAClaim"));
    assert!(err.message().contains("implication"));
    assert!(matches!(claim("Atom"), Err(MacroError::NotAnImplication(_))));
}

#[test]
fn claim_writes_obligation() {
    let out = claim("BoilTapWater = TapWater && Kettle && BoilWater -> BoilingWater").unwrap();
    assert_eq!(
        out,
        "pub type BoilTapWater = fn (tap_water : TapWater , kettle : Kettle , boil_water : BoilWater) -> BoilingWater ; \
         # [doc (hidden)] # [allow (non_camel_case_types)] pub trait __rprop_BoilTapWater_proof { const PROOF : Self ; } \
         # [doc (hidden)] # [allow (non_upper_case_globals)] const __rprop_BoilTapWater_obligation : BoilTapWater = \
         < BoilTapWater as __rprop_BoilTapWater_proof > :: PROOF ;"
    );
}

#[test]
fn claim_with_parameters_checks_at_zero() {
    let out = claim("Refl<N> = At<N> -> Eq<N, N>").unwrap();
    assert!(out.contains("pub trait __rprop_Refl_proof < const N : :: rprop :: Nat > { const PROOF : Refl < N > ; }"));
    assert!(out.contains("const __rprop_Refl_obligation : Refl < 0 > = < Refl < 0 > as __rprop_Refl_proof < 0 > > :: PROOF ;"));
}

#[test]
fn prove_binds_function_to_claim() {
    let item = "fn boil(tap_water: TapWater) -> BoilingWater { todo!() }";
    let out = prove("BoilTapWater", item).unwrap();
    assert_eq!(
        out,
        format!("{item} impl __rprop_BoilTapWater_proof for BoilTapWater {{ const PROOF : Self = boil ; }}")
    );
}

#[test]
fn prove_forwards_const_parameters() {
    let item = "fn refl<'a, T, const N: Nat>(at: At<N>) -> Eq<N, N> { todo!() }";
    let out = prove("Refl", item).unwrap();
    assert!(out.ends_with(
        "impl < const N : :: rprop :: Nat > __rprop_Refl_proof < N > for Refl < N > { const PROOF : Self = refl ; }"
    ));
}

#[test]
fn prove_rejects_non_function() {
    assert!(matches!(prove("Claim", "struct NotAFunction;"), Err(MacroError::Syntax(_))));
    assert!(matches!(prove("A B", "fn f() {}"), Err(MacroError::Syntax(_))));
}

#[test]
fn negation_is_sugar_for_implication_to_absurd() {
    assert_eq!(propose("Cold = !Hot").unwrap(), propose("Cold = Hot -> Absurd").unwrap());
    assert_eq!(propose("Cold = !Hot").unwrap(), "pub type Cold = fn (hot : Hot) -> :: rprop :: Absurd ;");
}

#[test]
fn nested_terms_get_intermediate_declarations() {
    let out = propose("A = B && (C || D) -> E || F").unwrap();
    assert!(out.contains("pub enum A0 { C (C) , D (D) }"));
    assert!(!out.contains("struct A1"));
    assert!(out.contains("pub enum A2 { E (E) , F (F) }"));
    assert!(out.ends_with("pub type A = fn (b : B , a0 : A0) -> A2 ;"));
}

#[test]
fn disjunction_of_atoms() {
    let out = propose("Water = TapWater || BottledWater").unwrap();
    assert!(out.starts_with("# [derive (Clone , Copy)] pub enum Water { TapWater (TapWater) , BottledWater (BottledWater) }"));
    assert!(out.contains("impl From < TapWater > for Water"));
    assert!(out.contains("impl From < BottledWater > for Water"));
}

#[test]
fn prove_rejects_keyword_claim() {
    assert!(matches!(prove("self", "fn f() {}"), Err(MacroError::Syntax(_))));
    assert!(matches!(prove("_", "fn f() {}"), Err(MacroError::Syntax(_))));
}

#[test]
fn list_refusal_lies_at_its_name() {
    let text = "#[doc = \" One\"] One, [A]";
    let e = rprop::derive::api::define_disjunction(text).unwrap_err();
    let site = rprop::site::refusal_site(text, &e).unwrap();
    assert_eq!((site.index, site.inner), (2, None));
    assert!(rprop::site::refusal_site("X = A B", &MacroError::Syntax("x".to_string())).is_none());
}

#[test]
fn claim_accepts_negation() {
    let out = claim("Cold = !Hot").unwrap();
    assert_eq!(out, claim("Cold = Hot -> Absurd").unwrap());
    assert!(matches!(claim("Warm = Hot"), Err(MacroError::NotAnImplication(_))));
}
