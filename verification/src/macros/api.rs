use vstd::prelude::*;
use crate::error::{MacroError, ErrV};
use crate::lexer::{lex, lex_spec};
use crate::tokens::{TokV, render, render_seq, lemma_toks_view_len};
use crate::text::push_char;
use crate::derive::ast::{PropV, ProposeInput, InputV};
use crate::derive::parse::{Dialect, sp_input, parse_input, name_at_exec, syntax};
use crate::derive::lower::{lower_spec, lower_propose, parts};
use crate::derive::emit::obligation::proof_binding_spec;
use crate::derive::api::{answers, single_ident, BracketPropList, BracketV, sp_bracket_list, item_fn_signature, parse_item_fn};
use crate::macros::emit::{
    emit_propose, emit_claim, propose_spec, claim_spec, emit_conjunction, emit_conjunction_spec, emit_disjunction,
    emit_disjunction_spec_simple, emit_proof_binding,
};

verus! {

/// The language of these macros: implication, conjunction, disjunction and parentheses,
/// over atoms without parameters.
pub open spec fn macros_dialect() -> Dialect {
    Dialect { implies: true, negation: false, generics: false }
}

/// The reading of the input of `propose!` or `claim!`.
pub open spec fn sp_macros_input(ts: Seq<TokV>) -> Option<InputV> {
    sp_input(macros_dialect(), ts)
}

/// Reads the input of `propose!` or `claim!` from its text.
pub fn parse_propose_input(text: &str) -> (r: Result<ProposeInput, MacroError>)
    ensures
        r matches Ok(i) ==> lex_spec(text@) matches Some(ts) && sp_macros_input(ts) == Some(i@),
        r matches Err(e) ==> (e is Lex <==> lex_spec(text@) is None),
        r matches Err(e) ==> (e is Syntax <==> (lex_spec(text@) matches Some(ts) && sp_macros_input(ts) is None)),
        r is Err ==> (r->Err_0 is Lex || r->Err_0 is Syntax),
{
    match lex(text) {
        None => Err(MacroError::Lex),
        Some(ts) => parse_input(Dialect { implies: true, negation: false, generics: false }, &ts),
    }
}

/// What `propose!` writes for a read input (see `derive::api::propose_input_spec`).
pub open spec fn propose_input_spec(i: InputV) -> Result<Seq<TokV>, ErrV> {
    if i.expr matches Some(x) && parts(x) > u32::MAX {
        Err(ErrV::TooManyParts)
    } else {
        match lower_spec(i) {
            None => Err(ErrV::DisjunctionOperands(i.name)),
            Some(n) => propose_spec(i, n),
        }
    }
}

/// What `claim!` writes for a read input.
pub open spec fn claim_input_spec(i: InputV) -> Result<Seq<TokV>, ErrV> {
    if !(i.expr matches Some(PropV::Imply(_, _))) {
        Err(ErrV::NotAnImplication(i.name))
    } else if i.expr matches Some(x) && parts(x) > u32::MAX {
        Err(ErrV::TooManyParts)
    } else {
        match lower_spec(i) {
            None => Err(ErrV::DisjunctionOperands(i.name)),
            Some(_) => claim_spec(i),
        }
    }
}

/// The items that `propose!` writes for the given input tokens.
pub fn emit_propose_macro(text: &str) -> (r: Result<String, MacroError>)
    ensures
        match lex_spec(text@) {
            None => r matches Err(e) && e is Lex,
            Some(ts) => match sp_macros_input(ts) {
                None => r matches Err(e) && e is Syntax,
                Some(i) => answers(r, propose_input_spec(i)),
            },
        },
{
    let input = match parse_propose_input(text) {
        Ok(v) => v,
        Err(e) => return Err(e),
    };
    let name = input.name.clone();
    let named = match lower_propose(input.copy()) {
        Ok(v) => v,
        Err(e) => return Err(e),
    };
    proof {
        crate::derive::shape::law_parsed_propositions_well_shaped(macros_dialect(), lex_spec(text@)->Some_0);
    }
    match emit_propose(input, &named) {
        Ok(items) => Ok(render(&items)),
        Err(e) => Err(e),
    }
}

/// `propose!`: the items of a proposition.
pub fn propose(text: &str) -> (r: Result<String, MacroError>)
    ensures
        match lex_spec(text@) {
            None => r matches Err(e) && e is Lex,
            Some(ts) => match sp_macros_input(ts) {
                None => r matches Err(e) && e is Syntax,
                Some(i) => answers(r, propose_input_spec(i)),
            },
        },
{
    emit_propose_macro(text)
}

/// `claim!`: the items of an implication and the obligation to prove it.
pub fn claim(text: &str) -> (r: Result<String, MacroError>)
    ensures
        match lex_spec(text@) {
            None => r matches Err(e) && e is Lex,
            Some(ts) => match sp_macros_input(ts) {
                None => r matches Err(e) && e is Syntax,
                Some(i) => answers(r, claim_input_spec(i)),
            },
        },
{
    let input = match parse_propose_input(text) {
        Ok(v) => v,
        Err(e) => return Err(e),
    };
    let is_implication = match &input.expr {
        Some(crate::derive::ast::PropExpr::Imply(_, _)) => true,
        _ => false,
    };
    if !is_implication {
        return Err(MacroError::NotAnImplication(input.name.clone()));
    }
    let named = match lower_propose(input.copy()) {
        Ok(v) => v,
        Err(e) => return Err(e),
    };
    proof {
        crate::derive::shape::law_parsed_propositions_well_shaped(macros_dialect(), lex_spec(text@)->Some_0);
    }
    match emit_claim(input) {
        Ok(items) => Ok(render(&items)),
        Err(e) => Err(e),
    }
}

/// The text that `#[prove(Claim)]` writes for a function of the given name: the function
/// itself, then the impl that makes it the claim's proof.
pub fn prove_binding(claim: &String, item: &str, fn_name: &String) -> (r: String)
    ensures
        r@ == item@ + seq![' '] + render_seq(proof_binding_spec(claim@, fn_name@, seq![])),
{
    let binding = emit_proof_binding(claim, fn_name);
    let mut r = String::from_str(item);
    push_char(&mut r, ' ');
    r.append(render(&binding).as_str());
    r
}

/// `#[prove(Claim)]`: the function, then the impl that makes it the claim's proof.
pub fn prove(args: &str, item: &str) -> (r: Result<String, MacroError>)
    ensures
        match lex_spec(args@) {
            None => r matches Err(e) && e is Lex,
            Some(ts) => match single_ident(ts) {
                None => r matches Err(e) && e is Syntax,
                Some(c) => match item_fn_signature(item@) {
                    None => r matches Err(e) && e is Syntax,
                    Some(f) => r matches Ok(s) && s@ == item@ + seq![' '] + render_seq(proof_binding_spec(c, f.name, seq![])),
                },
            },
        },
{
    let ts = match lex(args) {
        Some(ts) => ts,
        None => return Err(MacroError::Lex),
    };
    proof {
        lemma_toks_view_len(ts@);
    }
    if ts.len() != 1 {
        return Err(syntax("expected the name of a claim"));
    }
    let claim = match name_at_exec(&ts, 0) {
        Some(c) => c,
        None => return Err(syntax("expected the name of a claim")),
    };
    match parse_item_fn(item) {
        None => Err(syntax("expected a function")),
        Some(func) => Ok(prove_binding(&claim, item, &func.name)),
    }
}

/// What `define_conjunction!` writes: refused without propositions, else the conjunction.
pub open spec fn define_conjunction_spec(l: BracketV) -> Result<Seq<TokV>, ErrV> {
    if l.props.len() == 0 {
        Err(ErrV::NoPropositions(l.name))
    } else {
        emit_conjunction_spec(l.attrs, l.name, l.props)
    }
}

/// What `define_disjunction!` writes: refused with fewer than two propositions, else the
/// disjunction.
pub open spec fn define_disjunction_spec(l: BracketV) -> Result<Seq<TokV>, ErrV> {
    if l.props.len() < 2 {
        Err(ErrV::TooFewPropositions(l.name))
    } else {
        emit_disjunction_spec_simple(l.attrs, l.name, l.props)
    }
}

/// `define_conjunction!`: a conjunction of the listed propositions.
pub fn define_conjunction(text: &str) -> (r: Result<String, MacroError>)
    ensures
        match lex_spec(text@) {
            None => r matches Err(e) && e is Lex,
            Some(ts) => match sp_bracket_list(ts) {
                None => r matches Err(e) && e is Syntax,
                Some(i) => answers(r, define_conjunction_spec(i)),
            },
        },
{
    let input = match BracketPropList::parse(text) {
        Ok(v) => v,
        Err(e) => return Err(e),
    };
    if input.props.len() == 0 {
        return Err(MacroError::NoPropositions(input.name.clone()));
    }
    match emit_conjunction(&input.attrs, &input.name, &input.props) {
        Ok(items) => Ok(render(&items)),
        Err(e) => Err(e),
    }
}

/// `define_disjunction!`: a disjunction of the listed propositions.
pub fn define_disjunction(text: &str) -> (r: Result<String, MacroError>)
    ensures
        match lex_spec(text@) {
            None => r matches Err(e) && e is Lex,
            Some(ts) => match sp_bracket_list(ts) {
                None => r matches Err(e) && e is Syntax,
                Some(i) => answers(r, define_disjunction_spec(i)),
            },
        },
{
    let input = match BracketPropList::parse(text) {
        Ok(v) => v,
        Err(e) => return Err(e),
    };
    if input.props.len() < 2 {
        return Err(MacroError::TooFewPropositions(input.name.clone()));
    }
    match emit_disjunction(&input.attrs, &input.name, &input.props) {
        Ok(items) => Ok(render(&items)),
        Err(e) => Err(e),
    }
}

} // verus!
