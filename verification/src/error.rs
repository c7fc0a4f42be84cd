use vstd::prelude::*;

verus! {

/// Why a propositional macro refused its input.
#[derive(Clone, Debug)]
pub enum MacroError {
    /// The input text could not be read as tokens with matched delimiters.
    Lex,
    /// The tokens do not follow the grammar; the text says what was expected.
    Syntax(String),
    /// A disjunction with fewer than two operands, in the proposition of the given name.
    DisjunctionOperands(String),
    /// A conjunction of the given name without members.
    EmptyConjunction(String),
    /// A disjunction of the given name with fewer than two variants.
    TooFewVariants(String),
    /// A conjunction lists a member twice: the member's key and the name it was first
    /// listed as.
    DuplicateMember { key: String, other: String },
    /// Two members of a conjunction map to the same field: the member, the field and the
    /// member that already uses the field.
    FieldClash { member: String, field: String, other: String },
    /// A claim of the given name that is not an implication.
    NotAnImplication(String),
    /// `define_conjunction` without propositions, for the given name.
    NoPropositions(String),
    /// `define_disjunction` with fewer than two propositions, for the given name.
    TooFewPropositions(String),
    /// `define_fact_set` without facts, for the given name.
    NoFacts(String),
    /// A fact set lists a fact twice: the fact and the name it was first listed as.
    DuplicateFact { fact: String, other: String },
    /// Two facts of a fact set map to the same field: the fact, the field and the fact that
    /// already uses it.
    FactFieldClash { fact: String, field: String, other: String },
    /// A proposition with more composite parts than intermediate names can be counted.
    TooManyParts,
}

/// The model of a refusal.
pub enum ErrV {
    Lex,
    Syntax(Seq<char>),
    DisjunctionOperands(Seq<char>),
    EmptyConjunction(Seq<char>),
    TooFewVariants(Seq<char>),
    DuplicateMember { key: Seq<char>, other: Seq<char> },
    FieldClash { member: Seq<char>, field: Seq<char>, other: Seq<char> },
    NotAnImplication(Seq<char>),
    NoPropositions(Seq<char>),
    TooFewPropositions(Seq<char>),
    NoFacts(Seq<char>),
    DuplicateFact { fact: Seq<char>, other: Seq<char> },
    FactFieldClash { fact: Seq<char>, field: Seq<char>, other: Seq<char> },
    TooManyParts,
}

impl View for MacroError {
    type V = ErrV;

    open spec fn view(&self) -> ErrV {
        match self {
            MacroError::Lex => ErrV::Lex,
            MacroError::Syntax(s) => ErrV::Syntax(s@),
            MacroError::DisjunctionOperands(s) => ErrV::DisjunctionOperands(s@),
            MacroError::EmptyConjunction(s) => ErrV::EmptyConjunction(s@),
            MacroError::TooFewVariants(s) => ErrV::TooFewVariants(s@),
            MacroError::DuplicateMember { key, other } => ErrV::DuplicateMember { key: key@, other: other@ },
            MacroError::FieldClash { member, field, other } => ErrV::FieldClash {
                member: member@,
                field: field@,
                other: other@,
            },
            MacroError::NotAnImplication(s) => ErrV::NotAnImplication(s@),
            MacroError::NoPropositions(s) => ErrV::NoPropositions(s@),
            MacroError::TooFewPropositions(s) => ErrV::TooFewPropositions(s@),
            MacroError::NoFacts(s) => ErrV::NoFacts(s@),
            MacroError::DuplicateFact { fact, other } => ErrV::DuplicateFact { fact: fact@, other: other@ },
            MacroError::FactFieldClash { fact, field, other } => ErrV::FactFieldClash {
                fact: fact@,
                field: field@,
                other: other@,
            },
            MacroError::TooManyParts => ErrV::TooManyParts,
        }
    }
}

/// The message with which a refusal is reported.
pub open spec fn message_spec(e: ErrV) -> Seq<char> {
    match e {
        ErrV::Lex => "the input could not be read as tokens"@,
        ErrV::Syntax(s) => s,
        ErrV::DisjunctionOperands(_) => "disjunction requires at least two operands"@,
        ErrV::EmptyConjunction(_) => "conjunction requires at least one member"@,
        ErrV::TooFewVariants(_) => "disjunction requires at least two variants"@,
        ErrV::DuplicateMember{ key, other } => "duplicate member `"@ + key + "` (already listed as `"@ + other + "`)"@,
        ErrV::FieldClash{ member, field, other } => "`"@ + member + "` maps to field `"@ + field + "`, already used by `"@ + other + "`"@,
        ErrV::NotAnImplication(_) => "claim requires an implication (`Premise -> Conclusion`)"@,
        ErrV::NoPropositions(_) => "define_conjunction requires at least one proposition"@,
        ErrV::TooFewPropositions(_) => "define_disjunction requires at least two propositions"@,
        ErrV::NoFacts(_) => "define_fact_set requires at least one fact"@,
        ErrV::DuplicateFact{ fact, other } => "duplicate fact `"@ + fact + "` (already listed as `"@ + other + "`)"@,
        ErrV::FactFieldClash{ fact, field, other } => "`"@ + fact + "` maps to field `"@ + field + "`, which is already used by `"@ + other + "`; use `"@ + fact + " as custom_name` to disambiguate"@,
        ErrV::TooManyParts => "the proposition has more composite parts than can be named"@,
    }
}

impl MacroError {
    /// The message with which the refusal is reported.
    pub fn message(&self) -> (r: String)
        ensures
            r@ == message_spec(self@),
    {
        match self {
            MacroError::Lex => {
                let mut m = String::from_str("the input could not be read as tokens");
                m
            },
            MacroError::Syntax(s) => s.clone(),
            MacroError::DisjunctionOperands(_) => {
                let mut m = String::from_str("disjunction requires at least two operands");
                m
            },
            MacroError::EmptyConjunction(_) => {
                let mut m = String::from_str("conjunction requires at least one member");
                m
            },
            MacroError::TooFewVariants(_) => {
                let mut m = String::from_str("disjunction requires at least two variants");
                m
            },
            MacroError::DuplicateMember{ key, other } => {
                let mut m = String::from_str("duplicate member `");
                m.append(key.as_str());
                m.append("` (already listed as `");
                m.append(other.as_str());
                m.append("`)");
                m
            },
            MacroError::FieldClash{ member, field, other } => {
                let mut m = String::from_str("`");
                m.append(member.as_str());
                m.append("` maps to field `");
                m.append(field.as_str());
                m.append("`, already used by `");
                m.append(other.as_str());
                m.append("`");
                m
            },
            MacroError::NotAnImplication(_) => {
                let mut m = String::from_str("claim requires an implication (`Premise -> Conclusion`)");
                m
            },
            MacroError::NoPropositions(_) => {
                let mut m = String::from_str("define_conjunction requires at least one proposition");
                m
            },
            MacroError::TooFewPropositions(_) => {
                let mut m = String::from_str("define_disjunction requires at least two propositions");
                m
            },
            MacroError::NoFacts(_) => {
                let mut m = String::from_str("define_fact_set requires at least one fact");
                m
            },
            MacroError::DuplicateFact{ fact, other } => {
                let mut m = String::from_str("duplicate fact `");
                m.append(fact.as_str());
                m.append("` (already listed as `");
                m.append(other.as_str());
                m.append("`)");
                m
            },
            MacroError::FactFieldClash{ fact, field, other } => {
                let mut m = String::from_str("`");
                m.append(fact.as_str());
                m.append("` maps to field `");
                m.append(field.as_str());
                m.append("`, which is already used by `");
                m.append(other.as_str());
                m.append("`; use `");
                m.append(fact.as_str());
                m.append(" as custom_name` to disambiguate");
                m
            },
            MacroError::TooManyParts => {
                let mut m = String::from_str("the proposition has more composite parts than can be named");
                m
            },
        }
    }
}

} // verus!
