use rprop::error::MacroError;
use rprop::rose::ast::{NamedShape, PropExpr, ProposeInput};
use rprop::rose::emit::{emit_disjunction, propose, ProposeKind};
use rprop::rose::facts::define_fact_set;
use rprop::rose::lower::{lower_propose, NameFactory};
use rprop::rose::named::NamedExpr;
use rprop::tokens::render;

fn atom(name: &str) -> PropExpr {
    PropExpr::Atom(name.to_string())
}

fn parse_input(s: &str) -> ProposeInput {
    ProposeInput::parse(s).expect("parse")
}

fn parse_only_expr(s: &str) -> PropExpr {
    ProposeInput::parse(&format!("X = {s}")).expect("parse").expr.expect("expr")
}

#[test]
fn factory_yields_incrementing_names() {
    let mut factory = NameFactory::new("PureSignatures".to_string());
    assert_eq!(factory.next().to_string(), "PureSignatures_0");
    assert_eq!(factory.next().to_string(), "PureSignatures_1");
}

#[test]
fn nested_or_gets_factory_name() {
    let input = ProposeInput {
        attrs: vec![],
        name: "X".to_string(),
        expr: Some(PropExpr::And(vec![atom("A"), PropExpr::Or(vec![atom("B"), atom("C")])])),
    };
    let named = lower_propose(input).unwrap();
    assert_eq!(named.name.to_string(), "X");
    let NamedShape::And(children) = &named.expr else {
        panic!("expected And");
    };
    assert_eq!(children[1].name.to_string(), "X_0");
}

#[test]
fn rose_parse_precedence_and_over_or() {
    let PropExpr::Or(or) = parse_only_expr("A || B && C") else {
        panic!("expected or");
    };
    assert!(matches!(&or[0], PropExpr::Atom(_)));
    assert!(matches!(&or[1], PropExpr::And(_)));
}

#[test]
fn rose_parse_parentheses() {
    let PropExpr::And(and) = parse_only_expr("(A || B) && C") else {
        panic!("expected and");
    };
    assert!(matches!(&and[0], PropExpr::Or(_)));
    assert!(matches!(&and[1], PropExpr::Atom(_)));
}

#[test]
fn rose_parse_bare_atomic() {
    let input = parse_input("ValidSourceProgram");
    assert!(input.expr.is_none());
}

#[test]
fn rose_parse_named_conjunction() {
    let input = parse_input("PureSignatures = A && B");
    assert!(input.expr.is_some());
}

#[test]
fn rose_language_has_no_implication() {
    assert!(matches!(ProposeInput::parse("X = A -> B"), Err(MacroError::Syntax(_))));
    assert!(matches!(ProposeInput::parse("X = !A"), Err(MacroError::Syntax(_))));
}

#[test]
fn rose_names_nested_parts_before_their_operands() {
    let input = ProposeInput {
        attrs: vec![],
        name: "X".to_string(),
        expr: Some(PropExpr::Or(vec![
            PropExpr::And(vec![atom("A"), PropExpr::Or(vec![atom("B"), atom("C")])]),
            PropExpr::And(vec![atom("D"), atom("E")]),
        ])),
    };
    let named = lower_propose(input).unwrap();
    let NamedShape::Or(children) = &named.expr else {
        panic!("expected Or");
    };
    assert_eq!(children[0].name, "X_0");
    let NamedShape::And(inner) = &children[0].expr else {
        panic!("expected And");
    };
    assert_eq!(inner[1].name, "X_1");
    assert_eq!(children[1].name, "X_2");
}

#[test]
fn rose_bare_atom_becomes_single_member_conjunction() {
    let named = lower_propose(parse_input("NumberedFieldsRenamed = FieldOrder")).unwrap();
    assert_eq!(named.name, "NumberedFieldsRenamed");
    let NamedShape::And(children) = &named.expr else {
        panic!("expected And");
    };
    assert_eq!(children.len(), 1);
    assert_eq!(children[0].name, "FieldOrder");
}

#[test]
fn rose_atomic_can_be_provided() {
    let out = propose("SingleExit").unwrap();
    assert!(out.contains(
        "impl SingleExit { pub (crate) fn provide < P : crate :: framework :: ProvideProp < Self >> (_provider : & P) -> Self { Self { _private : () } } }"
    ));
    assert!(out.contains("impl crate :: framework :: Sorry for SingleExit { fn sorry () -> Self { Self { _private : () } } }"));
}

#[test]
fn rose_disjunction_kinds() {
    let names = vec!["NoNumberedFields".to_string(), "NumberedFieldsRenamed".to_string()];
    let prop = render(&emit_disjunction(&vec![], &"StructCanon".to_string(), &names, ProposeKind::Proposition).unwrap());
    let claim = render(&emit_disjunction(&vec![], &"StructCanon".to_string(), &names, ProposeKind::Claim).unwrap());
    assert!(!prop.contains("fn provide"));
    assert!(!claim.contains("fn provide"));
    assert_eq!(prop, claim);
    assert!(claim.contains("impl crate :: framework :: Disjunction for StructCanon { }"));
}

#[test]
fn rose_propose_conjunction() {
    let out = propose("SourceAST = ValidSourceProgram && FieldOrder").unwrap();
    assert!(out.contains("pub struct SourceAST { pub valid_source_program : ValidSourceProgram , pub field_order : FieldOrder , }"));
}

#[test]
fn fact_set_struct_fields_and_accessors() {
    let out = define_fact_set("Facts, [ValidSourceProgram, FieldOrder as order]").unwrap();
    assert_eq!(
        out,
        "# [derive (Clone , Copy)] pub struct Facts { pub valid_source_program : ValidSourceProgram , pub order : FieldOrder , } \
         impl Facts { pub fn new (valid_source_program : ValidSourceProgram , order : FieldOrder ,) -> Self { Self { valid_source_program , order , } } } \
         impl crate :: framework :: HasFact < ValidSourceProgram > for Facts { fn fact (& self) -> ValidSourceProgram { self . valid_source_program } } \
         impl crate :: framework :: HasFact < FieldOrder > for Facts { fn fact (& self) -> FieldOrder { self . order } }"
    );
}

#[test]
fn fact_set_needs_a_fact() {
    let err = define_fact_set("Facts, []").unwrap_err();
    assert!(matches!(&err, MacroError::NoFacts(n) if n == "Facts"));
    assert_eq!(err.message(), "define_fact_set requires at least one fact");
}

#[test]
fn fact_set_rejects_duplicate_fact() {
    let err = define_fact_set("Facts, [A, B, A as again]").unwrap_err();
    assert!(matches!(&err, MacroError::DuplicateFact { fact, other } if fact == "A" && other == "A"));
}

#[test]
fn fact_set_rejects_field_clash() {
    let err = define_fact_set("Facts, [FieldOrder, Other as field_order]").unwrap_err();
    assert!(matches!(&err, MacroError::FactFieldClash { fact, field, other }
        if fact == "Other" && field == "field_order" && other == "FieldOrder"));
    assert_eq!(
        err.message(),
        "`Other` maps to field `field_order`, which is already used by `FieldOrder`; use `Other as custom_name` to disambiguate"
    );
}

#[test]
fn fact_set_alias_resolves_clash() {
    assert!(define_fact_set("Facts, [FooBar, Foo_Bar as other]").is_ok());
    assert!(define_fact_set("Facts, [FooBar, Foo_Bar]").is_err());
}

#[test]
fn rose_into_named_names_operands_first() {
    let expr = PropExpr::And(vec![atom("A"), PropExpr::Or(vec![atom("B"), atom("C")])]);
    let mut factory = NameFactory::new("X".to_string());
    let named = expr.into_named(&mut factory).unwrap();
    assert_eq!(named.name(), "X_1");
    let NamedExpr::And { children, .. } = &named else {
        panic!("expected And");
    };
    assert_eq!(children[1].name(), "X_0");
    let mut nodes = Vec::new();
    named.collect_postorder(&mut nodes);
    let names: Vec<String> = nodes.iter().map(|n| n.name()).collect();
    assert_eq!(names, vec!["A", "B", "C", "X_0", "X_1"]);
}

#[test]
fn rose_into_named_rejects_short_disjunction() {
    let mut factory = NameFactory::new("X".to_string());
    let err = PropExpr::Or(vec![atom("A")]).into_named(&mut factory).unwrap_err();
    assert!(matches!(err, MacroError::DisjunctionOperands(_)));
}

#[test]
fn fact_set_rejects_keyword_names() {
    assert!(matches!(define_fact_set("Facts, [A as type]"), Err(MacroError::Syntax(_))));
    assert!(matches!(define_fact_set("struct, [A]"), Err(MacroError::Syntax(_))));
    assert!(matches!(define_fact_set("Facts, [_]"), Err(MacroError::Syntax(_))));
}

fn site_of(text: &str, e: &MacroError) -> Option<(usize, Option<usize>)> {
    rprop::site::refusal_site(text, e).map(|s| (s.index, s.inner))
}

#[test]
fn fact_set_refusals_lie_at_the_entry() {
    let text = "Facts, [FieldOrder as order, Order]";
    let e = define_fact_set(text).unwrap_err();
    assert_eq!(site_of(text, &e), Some((2, Some(4))));
    let text = "Facts, [A, B as x, C as x]";
    let e = define_fact_set(text).unwrap_err();
    assert!(matches!(e, MacroError::FactFieldClash { .. }));
    assert_eq!(site_of(text, &e), Some((2, Some(8))));
    let text = "Facts, [A, B, A as again]";
    let e = define_fact_set(text).unwrap_err();
    assert_eq!(site_of(text, &e), Some((2, Some(4))));
}

#[test]
fn empty_fact_set_refusal_lies_at_its_name() {
    let text = "Facts, []";
    let e = define_fact_set(text).unwrap_err();
    assert_eq!(site_of(text, &e), Some((0, None)));
}

#[test]
fn rose_refusal_leaves_factory_after_names_drawn() {
    let mut factory = NameFactory::new("X".to_string());
    assert!(rprop::rose::lower::name_expr(PropExpr::Or(vec![atom("A")]), None, &mut factory).is_err());
    assert_eq!(factory.counter, 0);
    let expr = PropExpr::And(vec![PropExpr::Or(vec![atom("A"), atom("B")]), PropExpr::Or(vec![atom("C")])]);
    assert!(rprop::rose::lower::name_expr(expr, None, &mut factory).is_err());
    assert_eq!(factory.counter, 2);
}
