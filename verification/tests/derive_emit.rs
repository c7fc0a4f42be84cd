use rprop::derive::ast::{Atom, PropExpr, ProposeInput};
use rprop::derive::emit::{emit_claim, emit_propose};
use rprop::derive::lower::lower_propose;
use rprop::tokens::render;

fn atom(name: &str) -> PropExpr {
    PropExpr::Atom(Atom { name: name.to_string(), args: vec![] })
}

fn parse_str(s: &str) -> ProposeInput {
    ProposeInput::parse(s).unwrap()
}

fn propose_rendered(input: ProposeInput) -> String {
    let named = lower_propose(input.copy()).unwrap();
    let tokens = emit_propose(input, &named).unwrap();
    render(&tokens)
}

#[test]
fn lib_emit_nested_proposition() {
    let input = ProposeInput {
        attrs: vec![],
        name: "PureSignatures".to_string(),
        binders: vec![],
        expr: Some(PropExpr::And(vec![
            atom("InternalPureSignatures"),
            PropExpr::Or(vec![atom("A"), atom("B")]),
        ])),
    };
    let rendered = propose_rendered(input);
    assert!(rendered.contains("struct PureSignatures"));
    assert!(rendered.contains("enum PureSignatures0"));
}

#[test]
fn lib_parse_assign_input() {
    let input = parse_str("StructCanon = NoNumberedFields || NumberedFieldsRenamed");
    assert_eq!(input.name.to_string(), "StructCanon");
    assert!(matches!(input.expr, Some(PropExpr::Or(_))));
}

#[test]
fn lib_parse_implication_input() {
    let input = parse_str("Renamed = FieldOrder -> NumberedFieldsRenamed");
    assert_eq!(input.name.to_string(), "Renamed");
    assert!(matches!(input.expr, Some(PropExpr::Imply(_, _))));
}

#[test]
fn lib_claim_emits_obligation() {
    let input = parse_str("TeaFromTap = A && B -> Tea");
    let tokens = emit_claim(input).unwrap();
    let rendered = render(&tokens);
    assert!(!rendered.contains("struct TeaFromTap0"));
    assert!(rendered.contains("type TeaFromTap = fn"));
    assert!(rendered.contains("a : A"));
    assert!(rendered.contains("b : B"));
    assert!(rendered.contains("-> Tea"));
    assert!(rendered.contains("__rprop_TeaFromTap_obligation"));
    assert!(rendered.contains("__rprop_TeaFromTap_proof"));
}

#[test]
fn implication_flattens_conjunction_premise_and_conclusion() {
    let rendered = propose_rendered(parse_str("Both = A && B -> C && D"));
    assert!(!rendered.contains("struct Both0"));
    assert!(!rendered.contains("struct Both1"));
    assert!(rendered.contains("type Both = fn"));
    assert!(rendered.contains("a : A"));
    assert!(rendered.contains("b : B"));
    assert!(rendered.contains("-> (C , D)"));
}

#[test]
fn nested_implication_flattens_operands() {
    let rendered = propose_rendered(parse_str("BoilWaterEnclosed = Water && Heat -> PressurizedSteam"));
    assert!(!rendered.contains("struct BoilWaterEnclosed0"));
    assert!(rendered.contains("type BoilWaterEnclosed = fn"));
    assert!(rendered.contains("water : Water"));
    assert!(rendered.contains("heat : Heat"));
    assert!(rendered.contains("-> PressurizedSteam"));
}

#[test]
fn standalone_conjunction_still_emits_struct() {
    let rendered = propose_rendered(parse_str("BoiledWater = Kettle && HasWater"));
    assert!(rendered.contains("struct BoiledWater"));
    assert!(rendered.contains("kettle : Kettle"));
    assert!(rendered.contains("has_water : HasWater"));
}

#[test]
fn atomic_implication_unchanged() {
    let rendered = propose_rendered(parse_str("Renamed = FieldOrder -> NumberedFieldsRenamed"));
    assert!(rendered.contains("type Renamed = fn (field_order : FieldOrder) -> NumberedFieldsRenamed"));
}

#[test]
fn lib_claim_rejects_non_implication() {
    let input = parse_str("NotAClaim = A && B");
    let err = emit_claim(input).unwrap_err();
    assert!(err.message().contains("implication"));
}

#[test]
fn negation_emits_implication_to_absurd() {
    let rendered = propose_rendered(parse_str("NotHot = !Hot"));
    assert!(rendered.contains("type NotHot = fn"));
    assert!(rendered.contains("hot : Hot"));
    assert!(rendered.contains(":: rprop :: Absurd"));
}

#[test]
fn double_negation_emits_nested_implication() {
    let rendered = propose_rendered(parse_str("NotNotHot = !!Hot"));
    assert!(rendered.contains("type NotNotHot0 = fn"));
    assert!(rendered.contains("hot : Hot"));
    assert!(rendered.contains(":: rprop :: Absurd"));
    assert!(rendered.contains("type NotNotHot = fn"));
    assert!(rendered.contains("not_not_hot0 : NotNotHot0"));
}

#[test]
fn contradiction_with_negation_in_premise() {
    let input = parse_str("Contradiction = Hot && !Hot -> Absurd");
    let tokens = emit_claim(input).unwrap();
    let rendered = render(&tokens);
    assert!(rendered.contains("type Contradiction = fn"));
    assert!(rendered.contains("hot : Hot"));
    assert!(rendered.contains(":: rprop :: Absurd"));
}

#[test]
fn parse_generic_propose() {
    let input = parse_str("At<N>");
    assert_eq!(input.name.to_string(), "At");
    assert_eq!(input.binders.len(), 1);
    assert!(input.expr.is_none());
}

#[test]
fn emit_generic_atomic() {
    let rendered = propose_rendered(parse_str("At<N>"));
    assert!(rendered.contains("struct At"));
    assert!(rendered.contains("const N :"));
    assert!(rendered.contains(":: rprop :: Nat"));
    assert!(!rendered.contains("PhantomData"));
}

#[test]
fn emit_generic_conjunction_field_names() {
    let rendered = propose_rendered(parse_str("Pair<N, M> = At<N> && At<M>"));
    assert!(rendered.contains("at_n : At < N >"));
    assert!(rendered.contains("at_m : At < M >"));
}

#[test]
fn emit_generic_claim() {
    let input = parse_str("Refl<N> = At<N> -> Eq<N, N>");
    let tokens = emit_claim(input).unwrap();
    let rendered = render(&tokens);
    assert!(rendered.contains("type Refl"));
    assert!(rendered.contains("const N :"));
    assert!(rendered.contains("at : At < N >"));
    assert!(rendered.contains("__rprop_Refl_proof"));
    assert!(rendered.contains("__rprop_Refl_obligation"));
}

#[test]
fn emit_concrete_nat_literal() {
    let rendered = propose_rendered(parse_str("AtThree = At<3>"));
    assert!(rendered.contains("at_3 : At < 3 >"));
}

#[test]
fn emit_nested_generic_intermediate() {
    let rendered = propose_rendered(parse_str("X = A<N> && (B<M> || C<P>)"));
    println!("{rendered}");
    assert!(rendered.contains("enum X0"));
    assert!(rendered.contains("const M :"));
    assert!(rendered.contains("const P :"));
    assert!(rendered.contains("struct X"));
    assert!(rendered.contains("const N :"));
    assert!(rendered.contains("a_n : A < N >"));
    assert!(rendered.contains("x0_m_p : X0"));
}

#[test]
fn lowering_rejects_disjunction_of_one() {
    let input = ProposeInput {
        attrs: vec![],
        name: "X".to_string(),
        binders: vec![],
        expr: Some(PropExpr::And(vec![atom("A"), PropExpr::Or(vec![atom("B")])])),
    };
    let err = lower_propose(input).unwrap_err();
    assert!(matches!(&err, rprop::error::MacroError::DisjunctionOperands(n) if n == "X"));
    assert_eq!(err.message(), "disjunction requires at least two operands");
}

#[test]
fn lowering_names_parts_in_post_order() {
    let input = parse_str("X = (A || B) && (C || D) -> E");
    let named = lower_propose(input).unwrap();
    let mut nodes = Vec::new();
    named.collect_postorder(&mut nodes);
    let names: Vec<String> = nodes.iter().map(|n| n.name()).collect();
    assert_eq!(names, vec!["A", "B", "X0", "C", "D", "X1", "X2", "E", "X"]);
}

#[test]
fn lowering_bare_atom_is_single_member_conjunction() {
    let named = lower_propose(parse_str("Renamed = FieldOrder")).unwrap();
    let rprop::derive::lower::NamedExpr::And { name, children } = &named else {
        panic!("expected and");
    };
    assert_eq!(name, "Renamed");
    assert_eq!(children.len(), 1);
    assert_eq!(children[0].name(), "FieldOrder");
}

#[test]
fn parameters_bound_once_in_order_of_use() {
    let named = lower_propose(parse_str("X<N, M> = A<M> && B<N, M> && C<3, N>")).unwrap();
    assert_eq!(named.collect_param_binders(), vec!["M".to_string(), "N".to_string()]);
}

#[test]
fn atom_field_suffix_joins_arguments() {
    let input = parse_str("X = At<N, 3>");
    let Some(PropExpr::Atom(atom)) = input.expr else {
        panic!("expected atom");
    };
    assert_eq!(atom.field_suffix(), "n_3");
    assert_eq!(atom.field_name(), "at_n_3");
}

#[test]
fn conjunction_needs_a_member() {
    let ctx = rprop::derive::generics::GenericContext { binders: vec![] };
    let err = rprop::derive::emit::conjunction::emit_conjunction(&vec![], &"Empty".to_string(), &vec![], &ctx)
        .unwrap_err();
    assert!(matches!(&err, rprop::error::MacroError::EmptyConjunction(n) if n == "Empty"));
    assert_eq!(err.message(), "conjunction requires at least one member");
}

#[test]
fn disjunction_needs_two_variants() {
    let ctx = rprop::derive::generics::GenericContext { binders: vec![] };
    let only = rprop::derive::lower::NamedExpr::Atom(Atom { name: "A".to_string(), args: vec![] });
    let err = rprop::derive::emit::disjunction::emit_disjunction(&vec![], &"One".to_string(), &vec![&only], &ctx)
        .unwrap_err();
    assert!(matches!(&err, rprop::error::MacroError::TooFewVariants(n) if n == "One"));
    assert_eq!(err.message(), "disjunction requires at least two variants");
}

#[test]
fn naming_refusal_leaves_factory_after_names_drawn() {
    let atom = |n: &str| PropExpr::Atom(Atom { name: n.to_string(), args: vec![] });
    let mut factory = rprop::derive::lower::NameFactory::new("X".to_string());
    assert!(PropExpr::Or(vec![atom("A")]).into_named(&mut factory).is_err());
    assert_eq!(factory.counter, 0);
    let expr = PropExpr::And(vec![PropExpr::Not(Box::new(atom("A"))), PropExpr::Or(vec![atom("B")])]);
    assert!(expr.into_named(&mut factory).is_err());
    assert_eq!(factory.counter, 1);
}

#[test]
fn claim_of_negation_is_claim_of_implication_to_absurd() {
    let negated = render(&emit_claim(parse_str("Cold = !Hot")).unwrap());
    let implied = render(&emit_claim(parse_str("Cold = Hot -> Absurd")).unwrap());
    assert_eq!(negated, implied);
    assert!(negated.contains("type Cold = fn"));
    assert!(negated.contains("__rprop_Cold_obligation"));
}
