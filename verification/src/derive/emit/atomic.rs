use vstd::prelude::*;
use crate::tokens::{Delim, Tok, TokV, toks_view, extend_toks, copy_toks, word, mark, group, app_word, app_name, app_mark, app_group, word_toks};
use crate::derive::ast::strings_view;
use crate::derive::generics::{GenericContext, const_params_spec, emit_const_params};
use crate::derive::emit::common::{derive_clone_copy, marker_impl, push_derive_clone_copy, push_marker_impl};

verus! {

/// The items of an atomic proposition: the attributes, a `Clone + Copy` struct with one
/// private unit field (so that only the defining code can make one), and its `Prop` impl.
pub open spec fn atomic_spec(attrs: Seq<TokV>, name: Seq<char>, binders: Seq<Seq<char>>) -> Seq<TokV> {
    attrs + derive_clone_copy() + word("pub"@) + word("struct"@) + word(name) + const_params_spec(binders) + group(
        Delim::Brace,
        word("_private"@) + mark(':') + group(Delim::Paren, seq![]) + mark(','),
    ) + marker_impl("Prop"@, name, binders)
}

/// The items of an atomic proposition.
pub fn emit_atomic(attrs: &Vec<Tok>, name: &String, ctx: &GenericContext) -> (r: Vec<Tok>)
    ensures
        toks_view(r@) == atomic_spec(toks_view(attrs@), name@, strings_view(ctx.binders@)),
{
    let mut field = word_toks("_private");
    app_mark(&mut field, ':');
    let unit: Vec<Tok> = Vec::new();
    assert(toks_view(unit@) =~= seq![]);
    app_group(&mut field, Delim::Paren, unit);
    app_mark(&mut field, ',');
    let mut out = copy_toks(attrs);
    push_derive_clone_copy(&mut out);
    app_word(&mut out, "pub");
    app_word(&mut out, "struct");
    app_name(&mut out, name);
    extend_toks(&mut out, emit_const_params(&ctx.binders));
    app_group(&mut out, Delim::Brace, field);
    push_marker_impl(&mut out, "Prop", name, &ctx.binders);
    out
}

} // verus!
