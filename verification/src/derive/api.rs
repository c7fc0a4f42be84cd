use vstd::prelude::*;
use crate::error::{MacroError, ErrV};
use crate::lexer::{lex, lex_spec};
use crate::tokens::{Delim, Tok, TokV, toks_view, render, render_seq, copy_range, lemma_toks_view_len};
use crate::text::push_char;
use crate::derive::ast::{Atom, AtomV, NatArg, PropV, ProposeInput, InputV, strings_view, args_view};
use crate::derive::parse::{
    full_dialect, sp_input, sp_attrs, name_at, ident_accepted, punct_at, name_at_exec, punct_at_exec, parse_attrs, syntax,
};
use crate::derive::lower::{NamedExpr, NamedV, lower_spec, lower_propose, parts, nameds_view, lemma_nameds_view_push};
use crate::derive::generics::GenericContext;
use crate::derive::emit::{
    emit_propose, emit_claim, propose_spec, claim_spec, claims_implication,
};
use crate::derive::emit::conjunction::{emit_conjunction, emit_conjunction_spec};
use crate::derive::emit::disjunction::{emit_disjunction, emit_disjunction_spec};
use crate::derive::emit::members::{child_refs};
use crate::derive::emit::obligation::{
    FnSignature, FnSignatureV, GenericParamKind, proof_binding_spec, const_binders_spec, emit_proof_binding,
};

verus! {

/// What `propose!` writes for a read input: refused when the proposition has more parts
/// than can be named, when a disjunction has fewer than two operands, or when an
/// implication would return a conjunction without members; else the proposition's items.
pub open spec fn propose_input_spec(i: InputV) -> Result<Seq<TokV>, ErrV> {
    if i.expr matches Some(x) && parts(x) > u32::MAX {
        Err(ErrV::TooManyParts)
    } else {
        match lower_spec(i) {
            None => Err(ErrV::DisjunctionOperands(i.name)),
            Some(n) => propose_spec(i, n),
        }
    }
}

/// What `claim!` writes for a read input (see `claim_spec`).
pub open spec fn claim_input_spec(i: InputV) -> Result<Seq<TokV>, ErrV> {
    if !claims_implication(i.expr) {
        Err(ErrV::NotAnImplication(i.name))
    } else if i.expr matches Some(x) && parts(x) > u32::MAX {
        Err(ErrV::TooManyParts)
    } else {
        match lower_spec(i) {
            None => Err(ErrV::DisjunctionOperands(i.name)),
            Some(_) => claim_spec(i),
        }
    }
}

/// The reading of the input of `propose!` or `claim!` in the full language.
pub open spec fn sp_full_input(ts: Seq<TokV>) -> Option<InputV> {
    sp_input(full_dialect(), ts)
}

/// How a text-level macro answers: the text of the items it writes, or its refusal.
pub open spec fn answers(r: Result<String, MacroError>, s: Result<Seq<TokV>, ErrV>) -> bool {
    match r {
        Ok(text) => s matches Ok(t) && text@ == render_seq(t),
        Err(e) => s == Err::<Seq<TokV>, ErrV>(e@),
    }
}

/// The items that `propose!` writes for the given input tokens.
pub fn emit_propose_macro(text: &str) -> (r: Result<String, MacroError>)
    ensures
        match lex_spec(text@) {
            None => r matches Err(e) && e is Lex,
            Some(ts) => match sp_full_input(ts) {
                None => r matches Err(e) && e is Syntax,
                Some(i) => answers(r, propose_input_spec(i)),
            },
        },
{
    let input = match ProposeInput::parse(text) {

        Ok(v) => v,

        Err(e) => return Err(e),

    };
    let ghost iv = input@;
    let name = input.name.clone();
    let named = match lower_propose(input.copy()) {

        Ok(v) => v,

        Err(e) => return Err(e),

    };
    proof {
        crate::derive::shape::law_parsed_propositions_well_shaped(full_dialect(), lex_spec(text@)->Some_0);
    }
    let items = match emit_propose(input, &named) {

        Ok(v) => v,

        Err(e) => return Err(e),

    };
    Ok(render(&items))
}

/// `propose!`: the items of a proposition.
pub fn propose(text: &str) -> (r: Result<String, MacroError>)
    ensures
        match lex_spec(text@) {
            None => r matches Err(e) && e is Lex,
            Some(ts) => match sp_full_input(ts) {
                None => r matches Err(e) && e is Syntax,
                Some(i) => answers(r, propose_input_spec(i)),
            },
        },
{
    emit_propose_macro(text)
}

/// `claim!`: the items of a proposition that must be an implication, and the obligation
/// to prove it.
pub fn claim(text: &str) -> (r: Result<String, MacroError>)
    ensures
        match lex_spec(text@) {
            None => r matches Err(e) && e is Lex,
            Some(ts) => match sp_full_input(ts) {
                None => r matches Err(e) && e is Syntax,
                Some(i) => answers(r, claim_input_spec(i)),
            },
        },
{
    let input = match ProposeInput::parse(text) {

        Ok(v) => v,

        Err(e) => return Err(e),

    };
    let is_implication = match &input.expr {
        Some(crate::derive::ast::PropExpr::Imply(_, _)) => true,
        Some(crate::derive::ast::PropExpr::Not(_)) => true,
        _ => false,
    };
    if !is_implication {
        return Err(MacroError::NotAnImplication(input.name.clone()));
    }
    let named = match lower_propose(input.copy()) {

        Ok(v) => v,

        Err(e) => return Err(e),

    };
    proof {
        crate::derive::shape::law_parsed_propositions_well_shaped(full_dialect(), lex_spec(text@)->Some_0);
    }
    let items = match emit_claim(input) {

        Ok(v) => v,

        Err(e) => return Err(e),

    };
    Ok(render(&items))
}

/// The name of the proving function and its generic parameters, as `syn` reads an item
/// function from text; `None` where the text is not one.
pub uninterp spec fn item_fn_signature(text: Seq<char>) -> Option<FnSignatureV>;

/// Reads an item function with `syn::parse_str::<syn::ItemFn>`, keeping its name and, in
/// order, the kind and name of each generic parameter. Trusted: the result is whatever
/// `syn` reads, named `item_fn_signature`; `None` stands for `syn`'s error.
#[verifier::external_body]
pub(crate) fn parse_item_fn(text: &str) -> (r: Option<FnSignature>)
    ensures
        r matches Some(s) ==> item_fn_signature(text@) == Some(s@),
        r is None ==> item_fn_signature(text@) is None,
{
    let func = syn::parse_str::<syn::ItemFn>(text).ok()?;
    let generics = func.sig.generics.params.iter().map(|p| match p {
        syn::GenericParam::Lifetime(_) => GenericParamKind::Lifetime,
        syn::GenericParam::Type(t) => GenericParamKind::Type(t.ident.to_string()),
        syn::GenericParam::Const(c) => GenericParamKind::Const(c.ident.to_string()),
    }).collect();
    Some(FnSignature { name: func.sig.ident.to_string(), generics })
}

/// The identifier that the tokens consist of, if they are one identifier that may name
/// something (not `_` nor a keyword).
pub open spec fn single_ident(ts: Seq<TokV>) -> Option<Seq<char>> {
    if ts.len() == 1 && ts[0] is Ident && ident_accepted(ts[0]->Ident_0) {
        Some(ts[0]->Ident_0)
    } else {
        None
    }
}

/// The text that `#[prove(Claim)]` writes for a function with the given signature: the
/// function itself, then the impl that makes it the claim's proof.
pub fn prove_binding(claim: &String, item: &str, func: &FnSignature) -> (r: String)
    ensures
        r@ == item@ + seq![' '] + render_seq(proof_binding_spec(claim@, func@.name, const_binders_spec(func@.generics))),
{
    let binding = emit_proof_binding(claim, func);
    let mut r = String::from_str(item);
    push_char(&mut r, ' ');
    r.append(render(&binding).as_str());
    r
}

/// `#[prove(Claim)]` on a function: the function, then the impl that makes it the claim's
/// proof. Refused when the argument is not one identifier or the item not a function.
pub fn prove(args: &str, item: &str) -> (r: Result<String, MacroError>)
    ensures
        match lex_spec(args@) {
            None => r matches Err(e) && e is Lex,
            Some(ts) => match single_ident(ts) {
                None => r matches Err(e) && e is Syntax,
                Some(c) => match item_fn_signature(item@) {
                    None => r matches Err(e) && e is Syntax,
                    Some(f) => r matches Ok(s) && s@ == item@ + seq![' '] + render_seq(
                        proof_binding_spec(c, f.name, const_binders_spec(f.generics)),
                    ),
                },
            },
        },
{
    let ts = match lex(args) {
        Some(ts) => ts,
        None => return Err(MacroError::Lex),
    };
    proof {
        lemma_toks_view_len(ts@);
    }
    if ts.len() != 1 {
        return Err(syntax("expected the name of a claim"));
    }
    let claim = match name_at_exec(&ts, 0) {
        Some(c) => c,
        None => return Err(syntax("expected the name of a claim")),
    };
    match parse_item_fn(item) {
        None => Err(syntax("expected a function")),
        Some(func) => Ok(prove_binding(&claim, item, &func)),
    }
}

/// The input of `define_conjunction!` and `define_disjunction!`: attributes, a name, a
/// comma, and the propositions in brackets (commas between them optional).
#[derive(Debug)]
pub struct BracketPropList {
    pub attrs: Vec<Tok>,
    pub name: String,
    pub props: Vec<String>,
}

pub struct BracketV {
    pub attrs: Seq<TokV>,
    pub name: Seq<char>,
    pub props: Seq<Seq<char>>,
}

impl View for BracketPropList {
    type V = BracketV;

    open spec fn view(&self) -> BracketV {
        BracketV { attrs: toks_view(self.attrs@), name: self.name@, props: strings_view(self.props@) }
    }
}

/// The identifiers from `p` to the end, each optionally followed by one comma.
pub open spec fn sp_prop_list(ts: Seq<TokV>, p: int) -> Option<Seq<Seq<char>>>
    decreases ts.len() - p,
{
    if p < 0 || p > ts.len() {
        None
    } else if p == ts.len() {
        Some(seq![])
    } else {
        match name_at(ts, p) {
            None => None,
            Some(x) => {
                let q = if punct_at(ts, p + 1, ',') {
                    p + 2
                } else {
                    p + 1
                };
                match sp_prop_list(ts, q) {
                    Some(rest) => Some(seq![x] + rest),
                    None => None,
                }
            },
        }
    }
}

/// The reading of the whole input of `define_conjunction!` or `define_disjunction!`.
pub open spec fn sp_bracket_list(ts: Seq<TokV>) -> Option<BracketV> {
    match sp_attrs(ts, 0) {
        None => None,
        Some(a) => match name_at(ts, a) {
            None => None,
            Some(name) => if punct_at(ts, a + 1, ',') && a + 3 == ts.len() && ts[a + 2] is Group
                && ts[a + 2]->Group_0 == Delim::Bracket {
                match sp_prop_list(ts[a + 2]->Group_1, 0) {
                    Some(ps) => Some(BracketV { attrs: ts.take(a), name, props: ps }),
                    None => None,
                }
            } else {
                None
            },
        },
    }
}

fn parse_prop_list(ts: &Vec<Tok>) -> (r: Result<Vec<String>, MacroError>)
    ensures
        r matches Ok(v) ==> sp_prop_list(toks_view(ts@), 0) == Some(strings_view(v@)),
        r is Err ==> sp_prop_list(toks_view(ts@), 0) is None && r->Err_0 is Syntax,
{
    let ghost tv = toks_view(ts@);
    proof {
        lemma_toks_view_len(ts@);
    }
    let n = ts.len();
    let mut props: Vec<String> = Vec::new();
    let mut p: usize = 0;
    assert(strings_view(props@) =~= seq![]);
    while p < n
        invariant
            n == ts@.len(),
            tv == toks_view(ts@),
            tv.len() == n,
            p <= n,
            sp_prop_list(tv, 0) == match sp_prop_list(tv, p as int) {
                Some(rest) => Some(strings_view(props@) + rest),
                None => None::<Seq<Seq<char>>>,
            },
        decreases n - p,
    {
        let x = match name_at_exec(ts, p) {
            Some(x) => x,
            None => return Err(syntax("expected the name of a proposition")),
        };
        let q = if punct_at_exec(ts, p + 1, ',') {
            p + 2
        } else {
            p + 1
        };
        let ghost before = strings_view(props@);
        props.push(x);
        proof {
            assert(strings_view(props@) =~= before.push(x@));
            match sp_prop_list(tv, q as int) {
                Some(rest) => {
                    assert(before + (seq![x@] + rest) =~= strings_view(props@) + rest);
                },
                None => {},
            }
        }
        p = q;
    }
    assert(strings_view(props@) + seq![] =~= strings_view(props@));
    Ok(props)
}

impl BracketPropList {
    /// Reads the input of `define_conjunction!` or `define_disjunction!` from its text.
    pub fn parse(text: &str) -> (r: Result<BracketPropList, MacroError>)
        ensures
            r matches Ok(l) ==> lex_spec(text@) matches Some(ts) && sp_bracket_list(ts) == Some(l@),
            r matches Err(e) ==> (e is Lex <==> lex_spec(text@) is None),
            r matches Err(e) ==> (e is Syntax <==> (lex_spec(text@) matches Some(ts) && sp_bracket_list(ts) is None)),
            r is Err ==> (r->Err_0 is Lex || r->Err_0 is Syntax),
    {
        let ts = match lex(text) {
            Some(ts) => ts,
            None => return Err(MacroError::Lex),
        };
        let ghost tv = toks_view(ts@);
        proof {
            lemma_toks_view_len(ts@);
        }
        let a = match parse_attrs(&ts, 0) {

            Ok(v) => v,

            Err(e) => return Err(e),

        };
        let name = match name_at_exec(&ts, a) {
            Some(name) => name,
            None => return Err(syntax("expected a name")),
        };
        if !punct_at_exec(&ts, a + 1, ',') {
            return Err(syntax("expected `,`"));
        }
        if ts.len() - a != 3 {
            return Err(syntax("expected one bracketed list of propositions"));
        }
        let props = match &ts[a + 2] {
            Tok::Group(Delim::Bracket, inner) => match parse_prop_list(inner) {
                Ok(v) => v,
                Err(e) => return Err(e),
            },
            _ => return Err(syntax("expected one bracketed list of propositions")),
        };
        let attrs = copy_range(&ts, 0, a);
        Ok(BracketPropList { attrs, name, props })
    }
}

/// The atoms of the given names, without arguments.
pub open spec fn name_atoms(ps: Seq<Seq<char>>) -> Seq<NamedV> {
    ps.map_values(|p: Seq<char>| NamedV::Atom(AtomV { name: p, args: seq![] }))
}

/// The atoms of the given names, without arguments.
pub fn atoms_of(props: &Vec<String>) -> (r: Vec<NamedExpr>)
    ensures
        nameds_view(r@) == name_atoms(strings_view(props@)),
{
    let mut r: Vec<NamedExpr> = Vec::new();
    let n = props.len();
    let mut i: usize = 0;
    while i < n
        invariant
            n == props@.len(),
            i <= n,
            nameds_view(r@) == name_atoms(strings_view(props@)).take(i as int),
        decreases n - i,
    {
        let args: Vec<NatArg> = Vec::new();
        assert(args_view(args@) =~= seq![]);
        let atom = NamedExpr::Atom(Atom { name: props[i].clone(), args });
        proof {
            lemma_nameds_view_push(r@, atom);
        }
        r.push(atom);
        assert(nameds_view(r@) =~= name_atoms(strings_view(props@)).take(i + 1));
        i = i + 1;
    }
    assert(name_atoms(strings_view(props@)).take(n as int) =~= name_atoms(strings_view(props@)));
    r
}

/// What `define_conjunction!` writes: refused without propositions, else the conjunction
/// of the atoms.
pub open spec fn define_conjunction_spec(l: BracketV) -> Result<Seq<TokV>, ErrV> {
    if l.props.len() == 0 {
        Err(ErrV::NoPropositions(l.name))
    } else {
        emit_conjunction_spec(l.attrs, l.name, name_atoms(l.props), seq![])
    }
}

/// What `define_disjunction!` writes: refused with fewer than two propositions, else the
/// disjunction of the atoms.
pub open spec fn define_disjunction_spec(l: BracketV) -> Result<Seq<TokV>, ErrV> {
    if l.props.len() < 2 {
        Err(ErrV::TooFewPropositions(l.name))
    } else {
        emit_disjunction_spec(l.attrs, l.name, name_atoms(l.props), seq![])
    }
}

/// `define_conjunction!`: a conjunction of the listed atomic propositions.
pub fn define_conjunction(text: &str) -> (r: Result<String, MacroError>)
    ensures
        match lex_spec(text@) {
            None => r matches Err(e) && e is Lex,
            Some(ts) => match sp_bracket_list(ts) {
                None => r matches Err(e) && e is Syntax,
                Some(i) => answers(r, define_conjunction_spec(i)),
            },
        },
{
    let input = match BracketPropList::parse(text) {

        Ok(v) => v,

        Err(e) => return Err(e),

    };
    if input.props.len() == 0 {
        return Err(MacroError::NoPropositions(input.name.clone()));
    }
    let members = atoms_of(&input.props);
    let refs = child_refs(&members);
    let ctx = GenericContext { binders: Vec::new() };
    assert(strings_view(ctx.binders@) =~= seq![]);
    let items = match emit_conjunction(&input.attrs, &input.name, &refs, &ctx) {

        Ok(v) => v,

        Err(e) => return Err(e),

    };
    Ok(render(&items))
}

/// `define_disjunction!`: a disjunction of the listed atomic propositions.
pub fn define_disjunction(text: &str) -> (r: Result<String, MacroError>)
    ensures
        match lex_spec(text@) {
            None => r matches Err(e) && e is Lex,
            Some(ts) => match sp_bracket_list(ts) {
                None => r matches Err(e) && e is Syntax,
                Some(i) => answers(r, define_disjunction_spec(i)),
            },
        },
{
    let input = match BracketPropList::parse(text) {

        Ok(v) => v,

        Err(e) => return Err(e),

    };
    if input.props.len() < 2 {
        return Err(MacroError::TooFewPropositions(input.name.clone()));
    }
    let variants = atoms_of(&input.props);
    let refs = child_refs(&variants);
    let ctx = GenericContext { binders: Vec::new() };
    assert(strings_view(ctx.binders@) =~= seq![]);
    let items = match emit_disjunction(&input.attrs, &input.name, &refs, &ctx) {

        Ok(v) => v,

        Err(e) => return Err(e),

    };
    Ok(render(&items))
}

} // verus!
