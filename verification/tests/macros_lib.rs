use rprop::derive::ast::{Atom, PropExpr, ProposeInput};
use rprop::derive::lower::lower_propose;
use rprop::error::MacroError;
use rprop::macros::api::{claim, define_conjunction, define_disjunction, parse_propose_input, propose, prove};
use rprop::macros::emit::{emit_claim, emit_propose};
use rprop::tokens::render;

fn parse_str(s: &str) -> ProposeInput {
    parse_propose_input(s).unwrap()
}

#[test]
fn macros_lib_emit_nested_proposition() {
    let atom = |n: &str| PropExpr::Atom(Atom { name: n.to_string(), args: vec![] });
    let input = ProposeInput {
        attrs: vec![],
        name: "PureSignatures".to_string(),
        binders: vec![],
        expr: Some(PropExpr::And(vec![
            atom("InternalPureSignatures"),
            PropExpr::Or(vec![atom("A"), atom("B")]),
        ])),
    };
    let named = lower_propose(input.copy()).unwrap();
    let tokens = emit_propose(input, &named).unwrap();
    let rendered = render(&tokens);
    assert!(rendered.contains("struct PureSignatures"));
    assert!(rendered.contains("enum PureSignatures0"));
}

#[test]
fn macros_lib_parse_assign_input() {
    let input = parse_str("StructCanon = NoNumberedFields || NumberedFieldsRenamed");
    assert_eq!(input.name.to_string(), "StructCanon");
    assert!(matches!(input.expr, Some(PropExpr::Or(_))));
}

#[test]
fn macros_lib_parse_implication_input() {
    let input = parse_str("Renamed = FieldOrder -> NumberedFieldsRenamed");
    assert_eq!(input.name.to_string(), "Renamed");
    assert!(matches!(input.expr, Some(PropExpr::Imply(_, _))));
}

#[test]
fn macros_lib_claim_emits_obligation() {
    let input = parse_str("TeaFromTap = A && B -> Tea");
    let tokens = emit_claim(input).unwrap();
    let rendered = render(&tokens);
    assert!(rendered.contains("struct TeaFromTap"));
    assert!(rendered.contains("__rprop_TeaFromTap_obligation"));
    assert!(rendered.contains("__rprop_TeaFromTap_proof"));
}

#[test]
fn macros_lib_claim_rejects_non_implication() {
    let input = parse_str("NotAClaim = A && B");
    let err = emit_claim(input).unwrap_err();
    assert!(err.message().contains("implication"));
}

#[test]
fn macros_language_has_no_negation_or_parameters() {
    assert!(matches!(parse_propose_input("X = !A"), Err(MacroError::Syntax(_))));
    assert!(matches!(parse_propose_input("X<N> = A"), Err(MacroError::Syntax(_))));
}

#[test]
fn macros_atomic_is_sorry() {
    let out = propose("Kettle").unwrap();
    assert_eq!(
        out,
        "# [derive (Clone , Copy)] pub struct Kettle { _private : () , } \
         impl crate :: framework :: Prop for Kettle { } \
         impl crate :: framework :: Sorry for Kettle { fn sorry () -> Self { Self { _private : () } } }"
    );
}

#[test]
fn macros_conjunction_is_sorry_member_by_member() {
    let out = define_conjunction("Tea, [Water, Leaves]").unwrap();
    assert!(out.contains(
        "impl crate :: framework :: Sorry for Tea { fn sorry () -> Self { Self { water : < Water as crate :: framework :: Sorry > :: sorry () , leaves : < Leaves as crate :: framework :: Sorry > :: sorry () , } } }"
    ));
    assert!(out.contains("impl crate :: framework :: HasProp < Water > for Tea { fn prop (& self) -> Water { self . water } }"));
}

#[test]
fn macros_disjunction_is_sorry_through_first_variant() {
    let out = define_disjunction("Water, [TapWater, BottledWater]").unwrap();
    assert!(out.ends_with(
        "impl :: rprop :: Sorry for Water { fn sorry () -> Self { Self :: TapWater (< TapWater as :: rprop :: Sorry > :: sorry ()) } }"
    ));
}

#[test]
fn macros_implication_keeps_conjunction_struct() {
    let out = claim("TeaFromTap = A && B -> Tea").unwrap();
    assert!(out.contains("pub struct TeaFromTap0 { pub a : A , pub b : B , }"));
    assert!(out.contains("pub type TeaFromTap = fn (a : A , b : B) -> Tea ;"));
    assert!(out.contains("pub trait __rprop_TeaFromTap_proof { const PROOF : Self ; }"));
}

#[test]
fn macros_conclusion_tuple() {
    let out = propose("Split = A -> B && C").unwrap();
    assert!(out.contains("pub type Split = fn (a : A) -> (B , C) ;"));
}

#[test]
fn macros_prove_binding() {
    let out = prove("TeaFromTap", "fn brew(a: A, b: B) -> Tea { todo!() }").unwrap();
    assert!(out.ends_with("impl __rprop_TeaFromTap_proof for TeaFromTap { const PROOF : Self = brew ; }"));
}

#[test]
fn macros_conjunction_rejects_repeated_name() {
    let err = define_conjunction("Twice, [Water, Water]").unwrap_err();
    assert!(matches!(&err, MacroError::DuplicateMember { key, other } if key == "Water" && other == "Water"));
    let err = define_conjunction("Clash, [HotWater, Hot_Water]").unwrap_err();
    assert!(matches!(&err, MacroError::FieldClash { member, field, other }
        if member == "Hot_Water" && field == "hot_water" && other == "HotWater"));
    assert_eq!(err.message(), "`Hot_Water` maps to field `hot_water`, already used by `HotWater`");
}
