use vstd::prelude::*;
use crate::framework::{Prop, Conjunction, Sorry, ProvideProp, HasProp, Process};
use crate::props::{
    ExternStateInSignatures, FieldOrder, InternalPureSignatures, NumberedFieldsRenamed, PureSignatures,
    ResolvedSubstitutions, SingleExit, StructCanon, ValidSourceProgram,
};

verus! {

/// The stage that reads the source program.
pub struct GetAST;

impl ProvideProp<ValidSourceProgram> for GetAST {}

impl ProvideProp<FieldOrder> for GetAST {}

/// The source program, with its field order
#[derive(Clone, Copy)]
pub struct SourceAST {
    pub valid_source_program: ValidSourceProgram,
    pub field_order: FieldOrder,
}

impl Prop for SourceAST {}

impl Conjunction for SourceAST {}

impl SourceAST {
    /// The conjunction of its members.
    pub fn new(valid_source_program: ValidSourceProgram, field_order: FieldOrder) -> (r: Self)
        ensures
            r.valid_source_program == valid_source_program,
            r.field_order == field_order,
    {
        Self { valid_source_program, field_order }
    }
}

impl Sorry for SourceAST {
    fn sorry() -> Self {
        Self { valid_source_program: <ValidSourceProgram as Sorry>::sorry(), field_order: <FieldOrder as Sorry>::sorry() }
    }
}

impl HasProp<ValidSourceProgram> for SourceAST {
    open spec fn held(&self) -> ValidSourceProgram {
        self.valid_source_program
    }

    fn prop(&self) -> ValidSourceProgram {
        self.valid_source_program
    }
}

impl HasProp<FieldOrder> for SourceAST {
    open spec fn held(&self) -> FieldOrder {
        self.field_order
    }

    fn prop(&self) -> FieldOrder {
        self.field_order
    }
}

impl Process for GetAST {
    type Requires = ();
    type Provides = SourceAST;

    fn run(self, _input: ()) -> SourceAST {
        SourceAST::new(ValidSourceProgram::provide::<Self>(&self), FieldOrder::provide::<Self>(&self))
    }
}

/// The stage that builds the first kernel representation.
pub struct KirBuilder;

impl ProvideProp<SingleExit> for KirBuilder {}

impl ProvideProp<InternalPureSignatures> for KirBuilder {}

impl ProvideProp<ResolvedSubstitutions> for KirBuilder {}

/// The first kernel representation
#[derive(Clone, Copy)]
pub struct Kir1 {
    pub single_exit: SingleExit,
    pub internal_pure_signatures: InternalPureSignatures,
    pub field_order: FieldOrder,
    pub resolved_substitutions: ResolvedSubstitutions,
}

impl Prop for Kir1 {}

impl Conjunction for Kir1 {}

impl Kir1 {
    /// The conjunction of its members.
    pub fn new(single_exit: SingleExit, internal_pure_signatures: InternalPureSignatures, field_order: FieldOrder, resolved_substitutions: ResolvedSubstitutions) -> (r: Self)
        ensures
            r.single_exit == single_exit,
            r.internal_pure_signatures == internal_pure_signatures,
            r.field_order == field_order,
            r.resolved_substitutions == resolved_substitutions,
    {
        Self { single_exit, internal_pure_signatures, field_order, resolved_substitutions }
    }
}

impl Sorry for Kir1 {
    fn sorry() -> Self {
        Self { single_exit: <SingleExit as Sorry>::sorry(), internal_pure_signatures: <InternalPureSignatures as Sorry>::sorry(), field_order: <FieldOrder as Sorry>::sorry(), resolved_substitutions: <ResolvedSubstitutions as Sorry>::sorry() }
    }
}

impl HasProp<SingleExit> for Kir1 {
    open spec fn held(&self) -> SingleExit {
        self.single_exit
    }

    fn prop(&self) -> SingleExit {
        self.single_exit
    }
}

impl HasProp<InternalPureSignatures> for Kir1 {
    open spec fn held(&self) -> InternalPureSignatures {
        self.internal_pure_signatures
    }

    fn prop(&self) -> InternalPureSignatures {
        self.internal_pure_signatures
    }
}

impl HasProp<FieldOrder> for Kir1 {
    open spec fn held(&self) -> FieldOrder {
        self.field_order
    }

    fn prop(&self) -> FieldOrder {
        self.field_order
    }
}

impl HasProp<ResolvedSubstitutions> for Kir1 {
    open spec fn held(&self) -> ResolvedSubstitutions {
        self.resolved_substitutions
    }

    fn prop(&self) -> ResolvedSubstitutions {
        self.resolved_substitutions
    }
}

impl Process for KirBuilder {
    type Requires = SourceAST;
    type Provides = Kir1;

    fn run(self, input: SourceAST) -> (r: Kir1)
        ensures
            r.field_order == input.field_order,
    {
        Kir1::new(
            SingleExit::provide::<Self>(&self),
            InternalPureSignatures::provide::<Self>(&self),
            HasProp::<FieldOrder>::prop(&input),
            ResolvedSubstitutions::provide::<Self>(&self),
        )
    }
}

/// The stage that makes extern state part of the signatures.
pub struct PropagateExtern;

impl ProvideProp<ExternStateInSignatures> for PropagateExtern {}

/// The kernel representation with pure signatures
#[allow(non_camel_case_types)]
#[derive(Clone, Copy)]
pub struct Kir1_2S1 {
    pub single_exit: SingleExit,
    pub pure_signatures: PureSignatures,
    pub field_order: FieldOrder,
    pub resolved_substitutions: ResolvedSubstitutions,
}

impl Prop for Kir1_2S1 {}

impl Conjunction for Kir1_2S1 {}

impl Kir1_2S1 {
    /// The conjunction of its members.
    pub fn new(single_exit: SingleExit, pure_signatures: PureSignatures, field_order: FieldOrder, resolved_substitutions: ResolvedSubstitutions) -> (r: Self)
        ensures
            r.single_exit == single_exit,
            r.pure_signatures == pure_signatures,
            r.field_order == field_order,
            r.resolved_substitutions == resolved_substitutions,
    {
        Self { single_exit, pure_signatures, field_order, resolved_substitutions }
    }
}

impl Sorry for Kir1_2S1 {
    fn sorry() -> Self {
        Self { single_exit: <SingleExit as Sorry>::sorry(), pure_signatures: <PureSignatures as Sorry>::sorry(), field_order: <FieldOrder as Sorry>::sorry(), resolved_substitutions: <ResolvedSubstitutions as Sorry>::sorry() }
    }
}

impl HasProp<SingleExit> for Kir1_2S1 {
    open spec fn held(&self) -> SingleExit {
        self.single_exit
    }

    fn prop(&self) -> SingleExit {
        self.single_exit
    }
}

impl HasProp<PureSignatures> for Kir1_2S1 {
    open spec fn held(&self) -> PureSignatures {
        self.pure_signatures
    }

    fn prop(&self) -> PureSignatures {
        self.pure_signatures
    }
}

impl HasProp<FieldOrder> for Kir1_2S1 {
    open spec fn held(&self) -> FieldOrder {
        self.field_order
    }

    fn prop(&self) -> FieldOrder {
        self.field_order
    }
}

impl HasProp<ResolvedSubstitutions> for Kir1_2S1 {
    open spec fn held(&self) -> ResolvedSubstitutions {
        self.resolved_substitutions
    }

    fn prop(&self) -> ResolvedSubstitutions {
        self.resolved_substitutions
    }
}

impl Process for PropagateExtern {
    type Requires = Kir1;
    type Provides = Kir1_2S1;

    fn run(self, input: Kir1) -> (r: Kir1_2S1)
        ensures
            r.single_exit == input.single_exit,
            r.pure_signatures.internal_pure_signatures == input.internal_pure_signatures,
            r.field_order == input.field_order,
            r.resolved_substitutions == input.resolved_substitutions,
    {
        Kir1_2S1::new(
            HasProp::<SingleExit>::prop(&input),
            PureSignatures::new(
                HasProp::<InternalPureSignatures>::prop(&input),
                ExternStateInSignatures::provide::<Self>(&self),
            ),
            HasProp::<FieldOrder>::prop(&input),
            HasProp::<ResolvedSubstitutions>::prop(&input),
        )
    }
}

/// The kernel representation with canonical structs
#[allow(non_camel_case_types)]
#[derive(Clone, Copy)]
pub struct Kir1_2 {
    pub single_exit: SingleExit,
    pub pure_signatures: PureSignatures,
    pub struct_canon: StructCanon,
    pub resolved_substitutions: ResolvedSubstitutions,
}

impl Prop for Kir1_2 {}

impl Conjunction for Kir1_2 {}

impl Kir1_2 {
    /// The conjunction of its members.
    pub fn new(single_exit: SingleExit, pure_signatures: PureSignatures, struct_canon: StructCanon, resolved_substitutions: ResolvedSubstitutions) -> (r: Self)
        ensures
            r.single_exit == single_exit,
            r.pure_signatures == pure_signatures,
            r.struct_canon == struct_canon,
            r.resolved_substitutions == resolved_substitutions,
    {
        Self { single_exit, pure_signatures, struct_canon, resolved_substitutions }
    }
}

impl Sorry for Kir1_2 {
    fn sorry() -> (r: Self)
        ensures
            r.struct_canon is NoNumberedFields,
    {
        Self { single_exit: <SingleExit as Sorry>::sorry(), pure_signatures: <PureSignatures as Sorry>::sorry(), struct_canon: <StructCanon as Sorry>::sorry(), resolved_substitutions: <ResolvedSubstitutions as Sorry>::sorry() }
    }
}

impl HasProp<SingleExit> for Kir1_2 {
    open spec fn held(&self) -> SingleExit {
        self.single_exit
    }

    fn prop(&self) -> SingleExit {
        self.single_exit
    }
}

impl HasProp<PureSignatures> for Kir1_2 {
    open spec fn held(&self) -> PureSignatures {
        self.pure_signatures
    }

    fn prop(&self) -> PureSignatures {
        self.pure_signatures
    }
}

impl HasProp<StructCanon> for Kir1_2 {
    open spec fn held(&self) -> StructCanon {
        self.struct_canon
    }

    fn prop(&self) -> StructCanon {
        self.struct_canon
    }
}

impl HasProp<ResolvedSubstitutions> for Kir1_2 {
    open spec fn held(&self) -> ResolvedSubstitutions {
        self.resolved_substitutions
    }

    fn prop(&self) -> ResolvedSubstitutions {
        self.resolved_substitutions
    }
}

/// Constructive proof of `StructCanonStep`: `Kir1_2S1 -> Kir1_2`. The field order proves
/// that numbered fields were renamed, which proves canonical structs; the other members
/// carry over.
pub fn struct_canon_proof(input: Kir1_2S1) -> (r: Kir1_2)
    ensures
        r.single_exit == input.single_exit,
        r.pure_signatures == input.pure_signatures,
        r.struct_canon == StructCanon::NumberedFieldsRenamed(NumberedFieldsRenamed { field_order: input.field_order }),
        r.resolved_substitutions == input.resolved_substitutions,
{
    let renamed = NumberedFieldsRenamed::new(HasProp::<FieldOrder>::prop(&input));
    Kir1_2::new(
        HasProp::<SingleExit>::prop(&input),
        HasProp::<PureSignatures>::prop(&input),
        StructCanon::from(renamed),
        HasProp::<ResolvedSubstitutions>::prop(&input),
    )
}

} // verus!
