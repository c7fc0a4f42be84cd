use vstd::prelude::*;
use crate::framework::{Prop, Conjunction, Disjunction, Sorry, ProvideProp, HasProp};

verus! {

/// The given program is well formed in its language
#[derive(Clone, Copy)]
pub struct ValidSourceProgram {
    _private: (),
}

impl Prop for ValidSourceProgram {}

impl ValidSourceProgram {
    /// The proposition, from a provider that may introduce it.
    pub(crate) fn provide<P: ProvideProp<Self>>(_provider: &P) -> Self {
        Self { _private: () }
    }
}

impl Sorry for ValidSourceProgram {
    fn sorry() -> Self {
        Self { _private: () }
    }
}

/// If the language has a notion of field order, the order is provided
#[derive(Clone, Copy)]
pub struct FieldOrder {
    _private: (),
}

impl Prop for FieldOrder {}

impl FieldOrder {
    /// The proposition, from a provider that may introduce it.
    pub(crate) fn provide<P: ProvideProp<Self>>(_provider: &P) -> Self {
        Self { _private: () }
    }
}

impl Sorry for FieldOrder {
    fn sorry() -> Self {
        Self { _private: () }
    }
}

/// At every point in the program, we know which locations the source names are bound to
#[derive(Clone, Copy)]
pub struct LocNameBindings {
    _private: (),
}

impl Prop for LocNameBindings {}

impl LocNameBindings {
    /// The proposition, from a provider that may introduce it.
    pub(crate) fn provide<P: ProvideProp<Self>>(_provider: &P) -> Self {
        Self { _private: () }
    }
}

impl Sorry for LocNameBindings {
    fn sorry() -> Self {
        Self { _private: () }
    }
}

/// Every return only has a single exit point, no diverging execution paths
#[derive(Clone, Copy)]
pub struct SingleExit {
    _private: (),
}

impl Prop for SingleExit {}

impl SingleExit {
    /// The proposition, from a provider that may introduce it.
    pub(crate) fn provide<P: ProvideProp<Self>>(_provider: &P) -> Self {
        Self { _private: () }
    }
}

impl Sorry for SingleExit {
    fn sorry() -> Self {
        Self { _private: () }
    }
}

/// All functions are pure, not accounting for ExternState
#[derive(Clone, Copy)]
pub struct InternalPureSignatures {
    _private: (),
}

impl Prop for InternalPureSignatures {}

impl InternalPureSignatures {
    /// The proposition, from a provider that may introduce it.
    pub(crate) fn provide<P: ProvideProp<Self>>(_provider: &P) -> Self {
        Self { _private: () }
    }
}

impl Sorry for InternalPureSignatures {
    fn sorry() -> Self {
        Self { _private: () }
    }
}

/// ExternState is in function signatures
#[derive(Clone, Copy)]
pub struct ExternStateInSignatures {
    _private: (),
}

impl Prop for ExternStateInSignatures {}

impl ExternStateInSignatures {
    /// The proposition, from a provider that may introduce it.
    pub(crate) fn provide<P: ProvideProp<Self>>(_provider: &P) -> Self {
        Self { _private: () }
    }
}

impl Sorry for ExternStateInSignatures {
    fn sorry() -> Self {
        Self { _private: () }
    }
}

/// There is no dead code; every statement is executed
#[derive(Clone, Copy)]
pub struct NoDeadCode {
    _private: (),
}

impl Prop for NoDeadCode {}

impl NoDeadCode {
    /// The proposition, from a provider that may introduce it.
    pub(crate) fn provide<P: ProvideProp<Self>>(_provider: &P) -> Self {
        Self { _private: () }
    }
}

impl Sorry for NoDeadCode {
    fn sorry() -> Self {
        Self { _private: () }
    }
}

/// Call substitutions have been resolved
#[derive(Clone, Copy)]
pub struct ResolvedSubstitutions {
    _private: (),
}

impl Prop for ResolvedSubstitutions {}

impl ResolvedSubstitutions {
    /// The proposition, from a provider that may introduce it.
    pub(crate) fn provide<P: ProvideProp<Self>>(_provider: &P) -> Self {
        Self { _private: () }
    }
}

impl Sorry for ResolvedSubstitutions {
    fn sorry() -> Self {
        Self { _private: () }
    }
}

/// Struct fields are only identified by their names, never positions
#[derive(Clone, Copy)]
pub struct NoNumberedFields {
    _private: (),
}

impl Prop for NoNumberedFields {}

impl NoNumberedFields {
    /// The proposition, from a provider that may introduce it.
    pub(crate) fn provide<P: ProvideProp<Self>>(_provider: &P) -> Self {
        Self { _private: () }
    }
}

impl Sorry for NoNumberedFields {
    fn sorry() -> Self {
        Self { _private: () }
    }
}
/// All functions are pure; no side effects or external reads
#[derive(Clone, Copy)]
pub struct PureSignatures {
    pub internal_pure_signatures: InternalPureSignatures,
    pub extern_state_in_signatures: ExternStateInSignatures,
}

impl Prop for PureSignatures {}

impl Conjunction for PureSignatures {}

impl PureSignatures {
    /// The conjunction of its members.
    pub fn new(internal_pure_signatures: InternalPureSignatures, extern_state_in_signatures: ExternStateInSignatures) -> (r: Self)
        ensures
            r.internal_pure_signatures == internal_pure_signatures,
            r.extern_state_in_signatures == extern_state_in_signatures,
    {
        Self { internal_pure_signatures, extern_state_in_signatures }
    }
}

impl Sorry for PureSignatures {
    fn sorry() -> Self {
        Self { internal_pure_signatures: <InternalPureSignatures as Sorry>::sorry(), extern_state_in_signatures: <ExternStateInSignatures as Sorry>::sorry() }
    }
}

impl HasProp<InternalPureSignatures> for PureSignatures {
    open spec fn held(&self) -> InternalPureSignatures {
        self.internal_pure_signatures
    }

    fn prop(&self) -> InternalPureSignatures {
        self.internal_pure_signatures
    }
}

impl HasProp<ExternStateInSignatures> for PureSignatures {
    open spec fn held(&self) -> ExternStateInSignatures {
        self.extern_state_in_signatures
    }

    fn prop(&self) -> ExternStateInSignatures {
        self.extern_state_in_signatures
    }
}

/// Numbered fields have been switched to named fields
#[derive(Clone, Copy)]
pub struct NumberedFieldsRenamed {
    pub field_order: FieldOrder,
}

impl Prop for NumberedFieldsRenamed {}

impl Conjunction for NumberedFieldsRenamed {}

impl NumberedFieldsRenamed {
    /// The conjunction of its members.
    pub fn new(field_order: FieldOrder) -> (r: Self)
        ensures
            r.field_order == field_order,
    {
        Self { field_order }
    }
}

impl Sorry for NumberedFieldsRenamed {
    fn sorry() -> Self {
        Self { field_order: <FieldOrder as Sorry>::sorry() }
    }
}

impl HasProp<FieldOrder> for NumberedFieldsRenamed {
    open spec fn held(&self) -> FieldOrder {
        self.field_order
    }

    fn prop(&self) -> FieldOrder {
        self.field_order
    }
}

/// Struct fields are in canonized form
#[derive(Clone, Copy)]
pub enum StructCanon {
    NoNumberedFields(NoNumberedFields),
    NumberedFieldsRenamed(NumberedFieldsRenamed),
}

impl Prop for StructCanon {}

impl Disjunction for StructCanon {}

impl From<NoNumberedFields> for StructCanon {
    fn from(prop: NoNumberedFields) -> (r: Self) {
        Self::NoNumberedFields(prop)
    }
}

impl vstd::std_specs::convert::FromSpecImpl<NoNumberedFields> for StructCanon {
    open spec fn obeys_from_spec() -> bool {
        true
    }

    open spec fn from_spec(prop: NoNumberedFields) -> Self {
        StructCanon::NoNumberedFields(prop)
    }
}

impl From<NumberedFieldsRenamed> for StructCanon {
    fn from(prop: NumberedFieldsRenamed) -> (r: Self) {
        Self::NumberedFieldsRenamed(prop)
    }
}

impl vstd::std_specs::convert::FromSpecImpl<NumberedFieldsRenamed> for StructCanon {
    open spec fn obeys_from_spec() -> bool {
        true
    }

    open spec fn from_spec(prop: NumberedFieldsRenamed) -> Self {
        StructCanon::NumberedFieldsRenamed(prop)
    }
}

impl Sorry for StructCanon {
    fn sorry() -> (r: Self)
        ensures
            r is NoNumberedFields,
    {
        Self::NoNumberedFields(<NoNumberedFields as Sorry>::sorry())
    }
}

} // verus!
