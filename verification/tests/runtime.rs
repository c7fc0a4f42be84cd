use rprop::framework::{HasProp, Process, Sorry};
use rprop::lowering::{struct_canon_proof, GetAST, Kir1_2S1, KirBuilder, PropagateExtern};
use rprop::props::{FieldOrder, PureSignatures, ResolvedSubstitutions, SingleExit, StructCanon};

#[test]
fn pipeline_runs_stage_by_stage() {
    let source = GetAST.run(());
    let kir1 = KirBuilder.run(source);
    let kir1_2s1 = PropagateExtern.run(kir1);
    let _order: FieldOrder = HasProp::<FieldOrder>::prop(&kir1_2s1);
    let _pure: PureSignatures = HasProp::<PureSignatures>::prop(&kir1_2s1);
}

#[test]
fn struct_canon_proof_renames_fields() {
    let input = Kir1_2S1::new(
        SingleExit::sorry(),
        PureSignatures::sorry(),
        FieldOrder::sorry(),
        ResolvedSubstitutions::sorry(),
    );
    let out = struct_canon_proof(input);
    assert!(matches!(out.struct_canon, StructCanon::NumberedFieldsRenamed(_)));
}

#[test]
fn disjunction_sorry_is_first_variant() {
    assert!(matches!(StructCanon::sorry(), StructCanon::NoNumberedFields(_)));
}

#[test]
fn from_picks_variant() {
    let renamed = rprop::props::NumberedFieldsRenamed::new(FieldOrder::sorry());
    assert!(matches!(StructCanon::from(renamed), StructCanon::NumberedFieldsRenamed(_)));
}

#[test]
fn kir1_2_sorry_takes_first_struct_canon_variant() {
    let k = rprop::lowering::Kir1_2::sorry();
    assert!(matches!(k.struct_canon, StructCanon::NoNumberedFields(_)));
}

#[test]
fn syntax_keeps_message() {
    let e = rprop::derive::parse::syntax("expected `,`");
    assert!(matches!(&e, rprop::error::MacroError::Syntax(m) if m == "expected `,`"));
}

#[test]
fn root_names_the_generated_code_uses() {
    let _: Option<&dyn rprop::Prop> = None;
    let _: Option<&dyn rprop::HasProp<u8>> = None;
    let n: rprop::Nat = 3;
    assert_eq!(n, 3);
    let _: fn() -> StructCanon = <StructCanon as rprop::Sorry>::sorry;
    let _: Option<rprop::Absurd> = None;
}
