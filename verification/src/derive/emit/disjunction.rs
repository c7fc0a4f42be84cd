use vstd::prelude::*;
use crate::error::{MacroError, ErrV};
use crate::tokens::{
    Delim, Tok, TokV, toks_view, extend_toks, copy_toks, push_punct, word, mark, group, app_word, app_name, app_mark,
    app_group, word_toks,
};
use crate::derive::ast::strings_view;
use crate::derive::lower::{NamedExpr, NamedV, named_name, refs_view};
use crate::derive::generics::{
    GenericContext, const_params_spec, const_args_spec, emit_const_params, comma_list, lemma_comma_list_push, reference_spec,
};
use crate::derive::emit::common::{
    arrow, path_sep, derive_clone_copy, marker_impl, self_ty, concat_seqs, lemma_concat_push, push_arrow, push_path_sep,
    in_order, lemma_concat_in_order,
    push_derive_clone_copy, push_marker_impl, push_self_ty,
};

verus! {

/// `Name(Type)` among the variants.
pub open spec fn variant_toks(v: NamedV) -> Seq<TokV> {
    word(named_name(v)) + group(Delim::Paren, reference_spec(v))
}

/// `impl<params> From<Type> for Name<args> { fn from(prop: Type) -> Self { Self::Variant(prop) } }`.
pub open spec fn from_impl(v: NamedV, name: Seq<char>, binders: Seq<Seq<char>>) -> Seq<TokV> {
    word("impl"@) + const_params_spec(binders) + word("From"@) + mark('<') + reference_spec(v) + mark('>') + word("for"@)
        + self_ty(name, binders) + group(
        Delim::Brace,
        word("fn"@) + word("from"@) + group(Delim::Paren, word("prop"@) + mark(':') + reference_spec(v)) + arrow()
            + word("Self"@) + group(
            Delim::Brace,
            word("Self"@) + path_sep() + word(named_name(v)) + group(Delim::Paren, word("prop"@)),
        ),
    )
}

/// The items of a disjunction: the attributes, a `Clone + Copy` enum with one variant per
/// operand (named as the operand, holding it), its `Prop` and `Disjunction` impls, and one
/// `From` impl per operand.
pub open spec fn disjunction_spec(attrs: Seq<TokV>, name: Seq<char>, vs: Seq<NamedV>, binders: Seq<Seq<char>>) -> Seq<TokV> {
    attrs + derive_clone_copy() + word("pub"@) + word("enum"@) + word(name) + const_params_spec(binders) + group(
        Delim::Brace,
        comma_list(vs.map_values(|v: NamedV| variant_toks(v))),
    ) + marker_impl("Prop"@, name, binders) + marker_impl("Disjunction"@, name, binders) + concat_seqs(
        vs.map_values(|v: NamedV| from_impl(v, name, binders)),
    )
}

/// What `emit_disjunction` gives: a refusal with fewer than two variants, else the items.
pub open spec fn emit_disjunction_spec(attrs: Seq<TokV>, name: Seq<char>, vs: Seq<NamedV>, binders: Seq<Seq<char>>) -> Result<Seq<TokV>, ErrV> {
    if vs.len() < 2 {
        Err(ErrV::TooFewVariants(name))
    } else {
        Ok(disjunction_spec(attrs, name, vs, binders))
    }
}

/// The variants of a disjunction's enum, each named as its operand and holding it.
pub fn variants_tokens(variants: &Vec<&NamedExpr>) -> (out: Vec<Tok>)
    ensures
        toks_view(out@) == comma_list(refs_view(variants@).map_values(|v: NamedV| variant_toks(v))),
{
    let ghost vv = refs_view(variants@);
    let mut out: Vec<Tok> = Vec::new();
    let n = variants.len();
    let mut i: usize = 0;
    assert(vv.map_values(|v: NamedV| variant_toks(v)).take(0) =~= seq![]);
    while i < n
        invariant
            n == variants@.len(),
            vv == refs_view(variants@),
            i <= n,
            toks_view(out@) == comma_list(vv.map_values(|v: NamedV| variant_toks(v)).take(i as int)),
        decreases n - i,
    {
        let ghost before = toks_view(out@);
        let v = variants[i];
        let mut item: Vec<Tok> = Vec::new();
        app_name(&mut item, &v.name());
        app_group(&mut item, Delim::Paren, v.reference_tokens());
        assert(toks_view(item@) =~= variant_toks(vv[i as int]));
        if i > 0 {
            push_punct(&mut out, ',', false);
        }
        extend_toks(&mut out, item);
        proof {
            let items = vv.map_values(|v: NamedV| variant_toks(v));
            assert(items.take(i + 1) =~= items.take(i as int).push(variant_toks(vv[i as int])));
            lemma_comma_list_push(items.take(i as int), variant_toks(vv[i as int]));
            if i > 0 {
                assert(toks_view(out@) =~= before + seq![TokV::Punct(',', false)] + variant_toks(vv[i as int]));
            } else {
                assert(toks_view(out@) =~= variant_toks(vv[i as int]));
            }
        }
        i = i + 1;
    }
    assert(vv.map_values(|v: NamedV| variant_toks(v)).take(n as int) =~= vv.map_values(|v: NamedV| variant_toks(v)));
    out
}

/// One `From` impl per operand of a disjunction.
pub fn from_impls_tokens(name: &String, binders: &Vec<String>, variants: &Vec<&NamedExpr>) -> (out: Vec<Tok>)
    ensures
        toks_view(out@) == concat_seqs(
            refs_view(variants@).map_values(|v: NamedV| from_impl(v, name@, strings_view(binders@))),
        ),
{
    let ghost vv = refs_view(variants@);
    let ghost bv = strings_view(binders@);
    let mut out: Vec<Tok> = Vec::new();
    let n = variants.len();
    let mut i: usize = 0;
    assert(vv.map_values(|v: NamedV| from_impl(v, name@, bv)).take(0) =~= seq![]);
    while i < n
        invariant
            n == variants@.len(),
            vv == refs_view(variants@),
            bv == strings_view(binders@),
            i <= n,
            toks_view(out@) == concat_seqs(vv.map_values(|v: NamedV| from_impl(v, name@, bv)).take(i as int)),
        decreases n - i,
    {
        let v = variants[i];
        let ghost vi = vv[i as int];
        assert(vi == v@);
        let vname = v.name();
        let mut param = word_toks("prop");
        app_mark(&mut param, ':');
        extend_toks(&mut param, v.reference_tokens());
        let mut call = word_toks("Self");
        push_path_sep(&mut call);
        app_name(&mut call, &vname);
        app_group(&mut call, Delim::Paren, word_toks("prop"));
        let mut body = word_toks("fn");
        app_word(&mut body, "from");
        app_group(&mut body, Delim::Paren, param);
        push_arrow(&mut body);
        app_word(&mut body, "Self");
        app_group(&mut body, Delim::Brace, call);
        let mut item = word_toks("impl");
        extend_toks(&mut item, emit_const_params(binders));
        app_word(&mut item, "From");
        app_mark(&mut item, '<');
        extend_toks(&mut item, v.reference_tokens());
        app_mark(&mut item, '>');
        app_word(&mut item, "for");
        push_self_ty(&mut item, name, binders);
        app_group(&mut item, Delim::Brace, body);
        extend_toks(&mut out, item);
        proof {
            let items = vv.map_values(|v: NamedV| from_impl(v, name@, bv));
            assert(items.take(i + 1) =~= items.take(i as int).push(from_impl(vi, name@, bv)));
            lemma_concat_push(items.take(i as int), from_impl(vi, name@, bv));
        }
        i = i + 1;
    }
    assert(vv.map_values(|v: NamedV| from_impl(v, name@, bv)).take(n as int) =~= vv.map_values(|v: NamedV| from_impl(v, name@, bv)));
    out
}

/// The items of a disjunction of the given variants; refused with fewer than two.
pub fn emit_disjunction(attrs: &Vec<Tok>, name: &String, variants: &Vec<&NamedExpr>, ctx: &GenericContext) -> (r: Result<Vec<Tok>, MacroError>)
    ensures
        match r {
            Ok(v) => emit_disjunction_spec(toks_view(attrs@), name@, refs_view(variants@), strings_view(ctx.binders@))
                == Ok::<Seq<TokV>, ErrV>(toks_view(v@)),
            Err(e) => emit_disjunction_spec(toks_view(attrs@), name@, refs_view(variants@), strings_view(ctx.binders@))
                == Err::<Seq<TokV>, ErrV>(e@),
        },
{
    if variants.len() < 2 {
        return Err(MacroError::TooFewVariants(name.clone()));
    }
    let binders = &ctx.binders;
    let mut out = copy_toks(attrs);
    push_derive_clone_copy(&mut out);
    app_word(&mut out, "pub");
    app_word(&mut out, "enum");
    app_name(&mut out, name);
    extend_toks(&mut out, emit_const_params(binders));
    app_group(&mut out, Delim::Brace, variants_tokens(variants));
    push_marker_impl(&mut out, "Prop", name, binders);
    push_marker_impl(&mut out, "Disjunction", name, binders);
    extend_toks(&mut out, from_impls_tokens(name, binders, variants));
    Ok(out)
}

} // verus!

verus! {

/// The `From` impl that makes an operand a value of the disjunction:
/// `impl<params> From<Type> for Name<args> { fn from(prop: Type) -> Self { Self::Variant(prop) } }`.
pub open spec fn from_operand_item(v: NamedV, name: Seq<char>, binders: Seq<Seq<char>>) -> Seq<TokV> {
    seq![TokV::Ident("impl"@)] + const_params_spec(binders) + seq![TokV::Ident("From"@), TokV::Punct('<', false)]
        + reference_spec(v) + seq![TokV::Punct('>', false), TokV::Ident("for"@)] + seq![TokV::Ident(name)]
        + const_args_spec(binders) + seq![
        TokV::Group(
            Delim::Brace,
            seq![
                TokV::Ident("fn"@),
                TokV::Ident("from"@),
                TokV::Group(Delim::Paren, seq![TokV::Ident("prop"@), TokV::Punct(':', false)] + reference_spec(v)),
                TokV::Punct('-', true),
                TokV::Punct('>', false),
                TokV::Ident("Self"@),
                TokV::Group(
                    Delim::Brace,
                    seq![
                        TokV::Ident("Self"@),
                        TokV::Punct(':', true),
                        TokV::Punct(':', false),
                        TokV::Ident(named_name(v)),
                        TokV::Group(Delim::Paren, seq![TokV::Ident("prop"@)]),
                    ],
                ),
            ],
        ),
    ]
}

pub proof fn lemma_from_impl_is_item(v: NamedV, name: Seq<char>, binders: Seq<Seq<char>>)
    ensures
        from_impl(v, name, binders) == from_operand_item(v, name, binders),
{
    let call = word("Self"@) + path_sep() + word(named_name(v)) + group(Delim::Paren, word("prop"@));
    assert(call =~= seq![
        TokV::Ident("Self"@),
        TokV::Punct(':', true),
        TokV::Punct(':', false),
        TokV::Ident(named_name(v)),
        TokV::Group(Delim::Paren, seq![TokV::Ident("prop"@)]),
    ]);
    let param = word("prop"@) + mark(':') + reference_spec(v);
    assert(param =~= seq![TokV::Ident("prop"@), TokV::Punct(':', false)] + reference_spec(v));
    let body = word("fn"@) + word("from"@) + group(Delim::Paren, param) + arrow() + word("Self"@) + group(Delim::Brace, call);
    assert(body =~= seq![
        TokV::Ident("fn"@),
        TokV::Ident("from"@),
        TokV::Group(Delim::Paren, seq![TokV::Ident("prop"@), TokV::Punct(':', false)] + reference_spec(v)),
        TokV::Punct('-', true),
        TokV::Punct('>', false),
        TokV::Ident("Self"@),
        TokV::Group(
            Delim::Brace,
            seq![
                TokV::Ident("Self"@),
                TokV::Punct(':', true),
                TokV::Punct(':', false),
                TokV::Ident(named_name(v)),
                TokV::Group(Delim::Paren, seq![TokV::Ident("prop"@)]),
            ],
        ),
    ]);
    assert(from_impl(v, name, binders) =~= from_operand_item(v, name, binders));
}

/// Every operand of a disjunction, whatever their number, becomes a value of it: the
/// items hold one `From` impl per operand, in the operands' order.
pub proof fn law_disjunction_from_every_operand(attrs: Seq<TokV>, name: Seq<char>, vs: Seq<NamedV>, binders: Seq<Seq<char>>)
    requires
        vs.len() >= 2,
    ensures
        emit_disjunction_spec(attrs, name, vs, binders) matches Ok(out)
            && in_order(out, vs.map_values(|v: NamedV| from_operand_item(v, name, binders))),
{
    let parts = vs.map_values(|v: NamedV| from_impl(v, name, binders));
    let pre = attrs + derive_clone_copy() + word("pub"@) + word("enum"@) + word(name) + const_params_spec(binders) + group(
        Delim::Brace,
        comma_list(vs.map_values(|v: NamedV| variant_toks(v))),
    ) + marker_impl("Prop"@, name, binders) + marker_impl("Disjunction"@, name, binders);
    lemma_concat_in_order(pre, parts, seq![]);
    assert(disjunction_spec(attrs, name, vs, binders) =~= pre + concat_seqs(parts) + seq![]);
    assert forall|i: int| 0 <= i < vs.len() implies #[trigger] parts[i] == from_operand_item(vs[i], name, binders) by {
        lemma_from_impl_is_item(vs[i], name, binders);
    }
    assert(parts =~= vs.map_values(|v: NamedV| from_operand_item(v, name, binders)));
}

} // verus!

verus! {

/// `enum Name<params> { Variant(Type), ... }`, one variant per operand, named as the
/// operand and holding it, in order.
pub open spec fn enum_of_operands(name: Seq<char>, binders: Seq<Seq<char>>, vs: Seq<NamedV>) -> Seq<TokV> {
    seq![TokV::Ident("enum"@), TokV::Ident(name)] + const_params_spec(binders) + seq![
        TokV::Group(
            Delim::Brace,
            comma_list(vs.map_values(|v: NamedV| seq![TokV::Ident(named_name(v)), TokV::Group(Delim::Paren, reference_spec(v))])),
        ),
    ]
}

/// The enum of a disjunction has one variant per operand, whatever their number, named as
/// the operand, holding it, in the operands' order.
pub proof fn law_disjunction_enum_holds_every_operand(attrs: Seq<TokV>, name: Seq<char>, vs: Seq<NamedV>, binders: Seq<Seq<char>>)
    requires
        vs.len() >= 2,
    ensures
        emit_disjunction_spec(attrs, name, vs, binders) matches Ok(out) && in_order(
            out,
            seq![enum_of_operands(name, binders, vs)],
        ),
{
    let e = enum_of_operands(name, binders, vs);
    assert forall|i: int| 0 <= i < vs.len() implies #[trigger] variant_toks(vs[i]) == seq![
        TokV::Ident(named_name(vs[i])),
        TokV::Group(Delim::Paren, reference_spec(vs[i])),
    ] by {
        assert(variant_toks(vs[i]) =~= seq![TokV::Ident(named_name(vs[i])), TokV::Group(Delim::Paren, reference_spec(vs[i]))]);
    }
    assert(vs.map_values(|v: NamedV| variant_toks(v)) =~= vs.map_values(
        |v: NamedV| seq![TokV::Ident(named_name(v)), TokV::Group(Delim::Paren, reference_spec(v))],
    ));
    let pre = attrs + derive_clone_copy() + word("pub"@);
    let post = marker_impl("Prop"@, name, binders) + marker_impl("Disjunction"@, name, binders) + concat_seqs(
        vs.map_values(|v: NamedV| from_impl(v, name, binders)),
    );
    assert(seq![e].drop_last() =~= Seq::<Seq<TokV>>::empty());
    assert(concat_seqs(Seq::<Seq<TokV>>::empty()) == Seq::<TokV>::empty());
    assert(concat_seqs(seq![e]) == concat_seqs(seq![e].drop_last()) + e);
    assert(concat_seqs(seq![e]) =~= e);
    assert(disjunction_spec(attrs, name, vs, binders) =~= pre + concat_seqs(seq![e]) + post);
    lemma_concat_in_order(pre, seq![e], post);
}

} // verus!
