use vstd::prelude::*;
use crate::error::{MacroError, ErrV};
use crate::tokens::{Delim, Tok, TokV, toks_view, extend_toks, copy_toks, push_punct, word, mark, group, app_word, app_name, app_mark, app_group, app_copy};
use crate::derive::ast::strings_view;
use crate::derive::keywords::{absurd_name, is_keyword};
use crate::derive::lower::{NamedExpr, NamedV};
use crate::derive::generics::{GenericContext, const_params_spec, emit_const_params, comma_list, lemma_comma_list_push};
use crate::derive::emit::common::{arrow, rprop_path, push_arrow, push_rprop_path};
use crate::derive::emit::conjunction::{ConjunctionMember, MemberV, members_view, new_param_toks};
use crate::derive::emit::members::{premise_params, premise_params_spec, conclusion_ty, conclusion_ty_spec, conclusion_ok};

verus! {

/// Whether the conclusion is the atom `Absurd`.
pub open spec fn is_absurd(c: NamedV) -> bool {
    c matches NamedV::Atom(a) && a.name == absurd_name()
}

/// The type an implication returns: `::rprop::Absurd` for the conclusion `Absurd`, else the
/// conclusion's type.
pub open spec fn return_ty_spec(c: NamedV) -> Seq<TokV> {
    if is_absurd(c) {
        rprop_path("Absurd"@)
    } else {
        conclusion_ty_spec(c)
    }
}

/// `pub type Name<params> = fn(param: Type, ...) -> Return;` after the attributes.
pub open spec fn implication_spec(attrs: Seq<TokV>, name: Seq<char>, params: Seq<MemberV>, ret: Seq<TokV>, binders: Seq<Seq<char>>) -> Seq<TokV> {
    attrs + word("pub"@) + word("type"@) + word(name) + const_params_spec(binders) + mark('=') + word("fn"@) + group(
        Delim::Paren,
        comma_list(params.map_values(|r: MemberV| new_param_toks(r))),
    ) + arrow() + ret + mark(';')
}

/// What `emit_implication` gives: the refusal of the premise's members, else the type alias.
pub open spec fn emit_implication_spec(attrs: Seq<TokV>, name: Seq<char>, premise: NamedV, conclusion: NamedV, binders: Seq<Seq<char>>) -> Result<Seq<TokV>, ErrV> {
    match premise_params_spec(premise) {
        Err(e) => Err(e),
        Ok(ps) => Ok(implication_spec(attrs, name, ps, return_ty_spec(conclusion), binders)),
    }
}

/// The type an implication with the given conclusion returns.
pub fn conclusion_return_ty(conclusion: &NamedExpr) -> (r: Vec<Tok>)
    requires
        conclusion_ok(conclusion@),
    ensures
        toks_view(r@) == return_ty_spec(conclusion@),
{
    match conclusion {
        NamedExpr::Atom(atom) => {
            if is_keyword(atom.base_name().as_str()) {
                let mut r: Vec<Tok> = Vec::new();
                push_rprop_path(&mut r, "Absurd");
                assert(toks_view(r@) =~= rprop_path("Absurd"@));
                return r;
            }
            conclusion_ty(conclusion)
        },
        _ => conclusion_ty(conclusion),
    }
}

/// The parameters `field: Type, ...` of an implication's function type.
pub fn params_tokens(params: &Vec<ConjunctionMember>) -> (out: Vec<Tok>)
    ensures
        toks_view(out@) == comma_list(members_view(params@).map_values(|r: MemberV| new_param_toks(r))),
{
    let ghost pv = members_view(params@);
    let mut out: Vec<Tok> = Vec::new();
    let n = params.len();
    let mut i: usize = 0;
    assert(pv.map_values(|r: MemberV| new_param_toks(r)).take(0) =~= seq![]);
    while i < n
        invariant
            n == params@.len(),
            pv == members_view(params@),
            i <= n,
            toks_view(out@) == comma_list(pv.map_values(|r: MemberV| new_param_toks(r)).take(i as int)),
        decreases n - i,
    {
        let ghost before = toks_view(out@);
        let mut item: Vec<Tok> = Vec::new();
        app_name(&mut item, &params[i].field);
        app_mark(&mut item, ':');
        app_copy(&mut item, &params[i].ty);
        assert(toks_view(item@) =~= new_param_toks(pv[i as int]));
        if i > 0 {
            push_punct(&mut out, ',', false);
        }
        extend_toks(&mut out, item);
        proof {
            let items = pv.map_values(|r: MemberV| new_param_toks(r));
            assert(items.take(i + 1) =~= items.take(i as int).push(new_param_toks(pv[i as int])));
            lemma_comma_list_push(items.take(i as int), new_param_toks(pv[i as int]));
            if i > 0 {
                assert(toks_view(out@) =~= before + seq![TokV::Punct(',', false)] + new_param_toks(pv[i as int]));
            } else {
                assert(toks_view(out@) =~= new_param_toks(pv[i as int]));
            }
        }
        i = i + 1;
    }
    assert(pv.map_values(|r: MemberV| new_param_toks(r)).take(n as int) =~= pv.map_values(|r: MemberV| new_param_toks(r)));
    out
}

/// The function type that an implication stands for: a proof of it turns proofs of the
/// premise (its members one by one, when it is a conjunction) into a proof of the
/// conclusion.
pub fn emit_implication(attrs: &Vec<Tok>, name: &String, premise: &NamedExpr, conclusion: &NamedExpr, ctx: &GenericContext) -> (r: Result<Vec<Tok>, MacroError>)
    requires
        conclusion_ok(conclusion@),
    ensures
        match r {
            Ok(v) => emit_implication_spec(toks_view(attrs@), name@, premise@, conclusion@, strings_view(ctx.binders@))
                == Ok::<Seq<TokV>, ErrV>(toks_view(v@)),
            Err(e) => emit_implication_spec(toks_view(attrs@), name@, premise@, conclusion@, strings_view(ctx.binders@))
                == Err::<Seq<TokV>, ErrV>(e@),
        },
{
    let params = match premise_params(premise) {
        Ok(p) => p,
        Err(e) => return Err(e),
    };
    let return_ty = conclusion_return_ty(conclusion);
    let mut out = copy_toks(attrs);
    app_word(&mut out, "pub");
    app_word(&mut out, "type");
    app_name(&mut out, name);
    extend_toks(&mut out, emit_const_params(&ctx.binders));
    app_mark(&mut out, '=');
    app_word(&mut out, "fn");
    app_group(&mut out, Delim::Paren, params_tokens(&params));
    push_arrow(&mut out);
    extend_toks(&mut out, return_ty);
    app_mark(&mut out, ';');
    Ok(out)
}

} // verus!
