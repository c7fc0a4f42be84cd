use rprop::derive::ast::{PropExpr, ProposeInput};

fn parse_input(s: &str) -> ProposeInput {
    ProposeInput::parse(s).expect("parse")
}

fn parse_only_expr(s: &str) -> PropExpr {
    ProposeInput::parse(&format!("X = {s}")).expect("parse").expr.expect("expr")
}

#[test]
fn parse_precedence_and_over_or() {
    let PropExpr::Or(or) = parse_only_expr("A || B && C") else {
        panic!("expected or");
    };
    assert!(matches!(&or[0], PropExpr::Atom(_)));
    assert!(matches!(&or[1], PropExpr::And(_)));
}

#[test]
fn parse_parentheses() {
    let PropExpr::And(and) = parse_only_expr("(A || B) && C") else {
        panic!("expected and");
    };
    assert!(matches!(&and[0], PropExpr::Or(_)));
    assert!(matches!(&and[1], PropExpr::Atom(_)));
}

#[test]
fn parse_bare_atomic() {
    let input = parse_input("ValidSourceProgram");
    assert!(input.expr.is_none());
}

#[test]
fn parse_named_conjunction() {
    let input = parse_input("PureSignatures = A && B");
    assert!(input.expr.is_some());
}

#[test]
fn implies_over_and() {
    let PropExpr::Imply(premise, conclusion) = parse_only_expr("A && B -> C") else {
        panic!("expected imply");
    };
    assert!(matches!(&*premise, PropExpr::And(_)));
    assert!(matches!(&*conclusion, PropExpr::Atom(_)));
}

#[test]
fn implies_right_associative() {
    let PropExpr::Imply(a, bc) = parse_only_expr("A -> B -> C") else {
        panic!("expected imply");
    };
    assert!(matches!(&*a, PropExpr::Atom(_)));
    let PropExpr::Imply(b, c) = &*bc else {
        panic!("expected nested imply");
    };
    assert!(matches!(&**b, PropExpr::Atom(_)));
    assert!(matches!(&**c, PropExpr::Atom(_)));
}

#[test]
fn implies_in_parentheses_with_and() {
    let PropExpr::And(and) = parse_only_expr("(A -> B) && C") else {
        panic!("expected and");
    };
    assert!(matches!(&and[0], PropExpr::Imply(_, _)));
    assert!(matches!(&and[1], PropExpr::Atom(_)));
}

#[test]
fn parse_negation() {
    let PropExpr::Not(inner) = parse_only_expr("!A") else {
        panic!("expected not");
    };
    assert!(matches!(&*inner, PropExpr::Atom(_)));
}

#[test]
fn parse_double_negation() {
    let PropExpr::Not(inner) = parse_only_expr("!!A") else {
        panic!("expected not");
    };
    assert!(matches!(&*inner, PropExpr::Not(_)));
}

#[test]
fn precedence_not_over_and() {
    let PropExpr::And(and) = parse_only_expr("!A && B") else {
        panic!("expected and");
    };
    assert!(matches!(&and[0], PropExpr::Not(_)));
    assert!(matches!(&and[1], PropExpr::Atom(_)));
}

#[test]
fn precedence_not_over_or() {
    let PropExpr::Or(or) = parse_only_expr("!A || B") else {
        panic!("expected or");
    };
    assert!(matches!(&or[0], PropExpr::Not(_)));
    assert!(matches!(&or[1], PropExpr::Atom(_)));
}

#[test]
fn precedence_not_in_implication_lhs() {
    let PropExpr::Imply(premise, conclusion) = parse_only_expr("!A -> B") else {
        panic!("expected imply");
    };
    assert!(matches!(&*premise, PropExpr::Not(_)));
    assert!(matches!(&*conclusion, PropExpr::Atom(_)));
}

#[test]
fn precedence_not_in_implication_rhs() {
    let PropExpr::Imply(premise, conclusion) = parse_only_expr("A -> !B") else {
        panic!("expected imply");
    };
    assert!(matches!(&*premise, PropExpr::Atom(_)));
    assert!(matches!(&*conclusion, PropExpr::Not(_)));
}

#[test]
fn negation_over_parenthesized_or() {
    let PropExpr::Not(inner) = parse_only_expr("!(A || B)") else {
        panic!("expected not");
    };
    assert!(matches!(&*inner, PropExpr::Or(_)));
}

#[test]
fn parse_flattens_nested_conjunctions() {
    let PropExpr::And(and) = parse_only_expr("A && (B && C) && D") else {
        panic!("expected and");
    };
    assert_eq!(and.len(), 4);
}

#[test]
fn parse_generic_atom_arguments() {
    let PropExpr::Atom(atom) = parse_only_expr("Eq<N, 3>") else {
        panic!("expected atom");
    };
    assert_eq!(atom.name, "Eq");
    assert_eq!(atom.args.len(), 2);
    assert!(matches!(&atom.args[0], rprop::derive::ast::NatArg::Param(p) if p == "N"));
    assert!(matches!(&atom.args[1], rprop::derive::ast::NatArg::Lit(3)));
}

#[test]
fn parse_keeps_doc_attributes() {
    let input = parse_input("#[doc = \" A fact\"] Fact");
    assert_eq!(input.name, "Fact");
    assert_eq!(input.attrs.len(), 2);
}

#[test]
fn parse_rejects_trailing_tokens() {
    let err = ProposeInput::parse("X = A B").unwrap_err();
    assert!(matches!(err, rprop::error::MacroError::Syntax(_)));
}

#[test]
fn parse_rejects_unbalanced_delimiters() {
    let err = ProposeInput::parse("X = (A && B").unwrap_err();
    assert!(matches!(err, rprop::error::MacroError::Lex));
}

#[test]
fn parse_accepts_trailing_comma() {
    let input = parse_input("X = A && B,");
    assert!(matches!(input.expr, Some(PropExpr::And(_))));
}

#[test]
fn parse_reads_literal_arguments_as_rust_does() {
    let PropExpr::Atom(atom) = parse_only_expr("At<0x10, 7u32, 1_000>") else {
        panic!("expected atom");
    };
    assert!(matches!(&atom.args[0], rprop::derive::ast::NatArg::Lit(16)));
    assert!(matches!(&atom.args[1], rprop::derive::ast::NatArg::Lit(7)));
    assert!(matches!(&atom.args[2], rprop::derive::ast::NatArg::Lit(1000)));
}

#[test]
fn parse_rejects_literal_too_large() {
    let err = ProposeInput::parse("X = At<4294967296>").unwrap_err();
    assert!(matches!(err, rprop::error::MacroError::Syntax(_)));
}

#[test]
fn parse_rejects_keywords_as_names() {
    let err = ProposeInput::parse("type").unwrap_err();
    assert!(matches!(err, rprop::error::MacroError::Syntax(_)));
    let err = ProposeInput::parse("X = A && self").unwrap_err();
    assert!(matches!(err, rprop::error::MacroError::Syntax(_)));
    let err = ProposeInput::parse("X = _").unwrap_err();
    assert!(matches!(err, rprop::error::MacroError::Syntax(_)));
    let err = ProposeInput::parse("X<fn> = A").unwrap_err();
    assert!(matches!(err, rprop::error::MacroError::Syntax(_)));
}

#[test]
fn lexer_reads_char_literals_lifetimes_raw_and_unicode_identifiers() {
    let input = parse_input("#[note('x', '\\'', 'a)] Größe");
    assert_eq!(input.name, "Größe");
    let input = parse_input("r#Fact");
    assert_eq!(input.name, "r#Fact");
    let ts = rprop::lexer::lex("&'a x").expect("lex");
    assert_eq!(rprop::tokens::render(&ts), "&'a x");
    let ts = rprop::lexer::lex("1.5 2..3").expect("lex");
    assert_eq!(ts.len(), 5);
    assert!(matches!(&ts[0], rprop::tokens::Tok::Lit(l) if l == "1.5"));
}
