use vstd::prelude::*;
use crate::tokens::{Delim, Tok, TokV, toks_view, extend_toks, word, mark, group, app_word, app_name, app_mark, app_group, word_toks};
use crate::derive::ast::strings_view;
use crate::derive::generics::{
    GenericContext, const_params_spec, const_args_spec, obligation_args_spec, emit_const_params, emit_const_arg_list, comma_list, comma,
    emit_obligation_args,
};
use crate::derive::emit::common::{doc_hidden, allow_lint, path_sep, push_doc_hidden, push_allow, push_path_sep};

verus! {

/// `__rprop_{name}_proof`: the hidden trait through which a claim's proof is given.
pub open spec fn proof_trait_spec(name: Seq<char>) -> Seq<char> {
    "__rprop_"@ + name + "_proof"@
}

/// `__rprop_{name}_obligation`: the hidden constant that fails to compile until the claim
/// has a proof.
pub open spec fn obligation_spec(name: Seq<char>) -> Seq<char> {
    "__rprop_"@ + name + "_obligation"@
}

/// The name of the trait through which a claim's proof is given.
pub fn proof_trait_name(name: &String) -> (r: String)
    ensures
        r@ == proof_trait_spec(name@),
{
    let mut r = String::from_str("__rprop_");
    r.append(name.as_str());
    r.append("_proof");
    r
}

fn obligation_name(name: &String) -> (r: String)
    ensures
        r@ == obligation_spec(name@),
{
    let mut r = String::from_str("__rprop_");
    r.append(name.as_str());
    r.append("_obligation");
    r
}

/// The obligation of a claim. Without parameters: a hidden trait with `const PROOF: Self`
/// and a hidden constant `<Name as Trait>::PROOF`. With parameters: the trait takes the
/// claim's parameters and holds `const PROOF: Name<args>`, and the constant asks for the
/// proof at every parameter `0`.
pub open spec fn claim_obligation_spec(name: Seq<char>, binders: Seq<Seq<char>>) -> Seq<TokV> {
    let tr = proof_trait_spec(name);
    let ob = obligation_spec(name);
    if binders.len() > 0 {
        let zeros = obligation_args_spec(binders);
        doc_hidden() + allow_lint("non_camel_case_types"@) + word("pub"@) + word("trait"@) + word(tr) + const_params_spec(
            binders,
        ) + group(Delim::Brace, word("const"@) + word("PROOF"@) + mark(':') + word(name) + const_args_spec(binders) + mark(';'))
            + doc_hidden() + allow_lint("non_upper_case_globals"@) + word("const"@) + word(ob) + mark(':') + word(name)
            + zeros + mark('=') + mark('<') + word(name) + zeros + word("as"@) + word(tr) + zeros + mark('>') + path_sep()
            + word("PROOF"@) + mark(';')
    } else {
        doc_hidden() + allow_lint("non_camel_case_types"@) + word("pub"@) + word("trait"@) + word(tr) + group(
            Delim::Brace,
            word("const"@) + word("PROOF"@) + mark(':') + word("Self"@) + mark(';'),
        ) + doc_hidden() + allow_lint("non_upper_case_globals"@) + word("const"@) + word(ob) + mark(':') + word(name)
            + mark('=') + mark('<') + word(name) + word("as"@) + word(tr) + mark('>') + path_sep() + word("PROOF"@)
            + mark(';')
    }
}

/// The obligation that a claim of the given name and parameters places on its crate.
pub fn emit_claim_obligation(name: &String, ctx: &GenericContext) -> (r: Vec<Tok>)
    ensures
        toks_view(r@) == claim_obligation_spec(name@, strings_view(ctx.binders@)),
{
    let tr = proof_trait_name(name);
    let ob = obligation_name(name);
    let binders = &ctx.binders;
    let mut out: Vec<Tok> = Vec::new();
    push_doc_hidden(&mut out);
    assert(toks_view(out@) =~= doc_hidden());
    push_allow(&mut out, "non_camel_case_types");
    app_word(&mut out, "pub");
    app_word(&mut out, "trait");
    app_name(&mut out, &tr);
    if ctx.has_binders() {
        extend_toks(&mut out, emit_const_params(binders));
        let mut body = word_toks("const");
        app_word(&mut body, "PROOF");
        app_mark(&mut body, ':');
        app_name(&mut body, name);
        extend_toks(&mut body, emit_const_arg_list(binders));
        app_mark(&mut body, ';');
        app_group(&mut out, Delim::Brace, body);
        push_doc_hidden(&mut out);
        push_allow(&mut out, "non_upper_case_globals");
        app_word(&mut out, "const");
        app_name(&mut out, &ob);
        app_mark(&mut out, ':');
        app_name(&mut out, name);
        extend_toks(&mut out, emit_obligation_args(binders));
        app_mark(&mut out, '=');
        app_mark(&mut out, '<');
        app_name(&mut out, name);
        extend_toks(&mut out, emit_obligation_args(binders));
        app_word(&mut out, "as");
        app_name(&mut out, &tr);
        extend_toks(&mut out, emit_obligation_args(binders));
        app_mark(&mut out, '>');
        push_path_sep(&mut out);
        app_word(&mut out, "PROOF");
        app_mark(&mut out, ';');
    } else {
        let mut body = word_toks("const");
        app_word(&mut body, "PROOF");
        app_mark(&mut body, ':');
        app_word(&mut body, "Self");
        app_mark(&mut body, ';');
        app_group(&mut out, Delim::Brace, body);
        push_doc_hidden(&mut out);
        push_allow(&mut out, "non_upper_case_globals");
        app_word(&mut out, "const");
        app_name(&mut out, &ob);
        app_mark(&mut out, ':');
        app_name(&mut out, name);
        app_mark(&mut out, '=');
        app_mark(&mut out, '<');
        app_name(&mut out, name);
        app_word(&mut out, "as");
        app_name(&mut out, &tr);
        app_mark(&mut out, '>');
        push_path_sep(&mut out);
        app_word(&mut out, "PROOF");
        app_mark(&mut out, ';');
    }
    out
}

/// A generic parameter of a function, as the proof binding reads it.
#[derive(Clone, Debug)]
pub enum GenericParamKind {
    Lifetime,
    Type(String),
    Const(String),
}

pub enum GenericParamV {
    Lifetime,
    Type(Seq<char>),
    Const(Seq<char>),
}

impl View for GenericParamKind {
    type V = GenericParamV;

    open spec fn view(&self) -> GenericParamV {
        match self {
            GenericParamKind::Lifetime => GenericParamV::Lifetime,
            GenericParamKind::Type(s) => GenericParamV::Type(s@),
            GenericParamKind::Const(s) => GenericParamV::Const(s@),
        }
    }
}

/// What a proof binding reads of the proving function: its name and its generic
/// parameters in order.
#[derive(Clone, Debug)]
pub struct FnSignature {
    pub name: String,
    pub generics: Vec<GenericParamKind>,
}

pub struct FnSignatureV {
    pub name: Seq<char>,
    pub generics: Seq<GenericParamV>,
}

impl View for FnSignature {
    type V = FnSignatureV;

    open spec fn view(&self) -> FnSignatureV {
        FnSignatureV { name: self.name@, generics: self.generics@.map_values(|g: GenericParamKind| g@) }
    }
}

/// The names of the const parameters, in order.
pub open spec fn const_binders_spec(gs: Seq<GenericParamV>) -> Seq<Seq<char>>
    decreases gs.len(),
{
    if gs.len() == 0 {
        seq![]
    } else {
        match gs.last() {
            GenericParamV::Const(c) => const_binders_spec(gs.drop_last()).push(c),
            _ => const_binders_spec(gs.drop_last()),
        }
    }
}

/// The names of the function's const parameters, in order.
pub fn const_binders(func: &FnSignature) -> (r: Vec<String>)
    ensures
        strings_view(r@) == const_binders_spec(func@.generics),
{
    let ghost gv = func@.generics;
    let mut r: Vec<String> = Vec::new();
    let n = func.generics.len();
    let mut i: usize = 0;
    assert(gv.take(0) =~= seq![]);
    while i < n
        invariant
            n == func.generics@.len(),
            gv == func@.generics,
            i <= n,
            strings_view(r@) == const_binders_spec(gv.take(i as int)),
        decreases n - i,
    {
        assert(gv.take(i + 1).drop_last() =~= gv.take(i as int));
        assert(gv.take(i + 1).last() == func.generics@[i as int]@);
        match &func.generics[i] {
            GenericParamKind::Const(c) => {
                let ghost before = strings_view(r@);
                r.push(c.clone());
                assert(strings_view(r@) =~= before.push(c@));
            },
            _ => {},
        }
        i = i + 1;
    }
    assert(gv.take(n as int) =~= gv);
    r
}

/// `impl<params> Trait<args> for Claim<args> { const PROOF: Self = function; }`, with the
/// function's const parameters; without them, `impl Trait for Claim { ... }`.
pub open spec fn proof_binding_spec(claim: Seq<char>, fn_name: Seq<char>, binders: Seq<Seq<char>>) -> Seq<TokV> {
    let body = group(Delim::Brace, word("const"@) + word("PROOF"@) + mark(':') + word("Self"@) + mark('=') + word(fn_name) + mark(';'));
    word("impl"@) + const_params_spec(binders) + word(proof_trait_spec(claim)) + const_args_spec(binders) + word("for"@)
        + word(claim) + const_args_spec(binders) + body
}

/// The impl that makes a function the proof of a claim.
pub fn emit_proof_binding(claim: &String, func: &FnSignature) -> (r: Vec<Tok>)
    ensures
        toks_view(r@) == proof_binding_spec(claim@, func@.name, const_binders_spec(func@.generics)),
{
    let binders = const_binders(func);
    let mut body = word_toks("const");
    app_word(&mut body, "PROOF");
    app_mark(&mut body, ':');
    app_word(&mut body, "Self");
    app_mark(&mut body, '=');
    app_name(&mut body, &func.name);
    app_mark(&mut body, ';');
    let mut out = word_toks("impl");
    extend_toks(&mut out, emit_const_params(&binders));
    app_name(&mut out, &proof_trait_name(claim));
    extend_toks(&mut out, emit_const_arg_list(&binders));
    app_word(&mut out, "for");
    app_name(&mut out, claim);
    extend_toks(&mut out, emit_const_arg_list(&binders));
    app_group(&mut out, Delim::Brace, body);
    out
}

} // verus!

verus! {

/// The name of a const generic parameter, nothing for another kind.
pub open spec fn const_name(g: GenericParamV) -> Option<Seq<char>> {
    match g {
        GenericParamV::Const(c) => Some(c),
        _ => None,
    }
}

/// The binders read from a function's generic parameters are the names of all its const
/// parameters, each once, in their order; lifetimes and types give none.
pub proof fn law_const_binders_are_const_params(gs: Seq<GenericParamV>)
    ensures
        const_binders_spec(gs) == gs.filter_map(|g: GenericParamV| const_name(g)),
    decreases gs.len(),
{
    if gs.len() > 0 {
        law_const_binders_are_const_params(gs.drop_last());
        assert(const_binders_spec(gs) =~= gs.filter_map(|g: GenericParamV| const_name(g)));
    }
}

} // verus!

verus! {

/// `<0, 0, ..., 0>` with `k` zeros: the arguments at which a claim of `k` parameters is
/// checked.
pub open spec fn zero_args(z: Seq<TokV>, k: nat) -> bool {
    &&& z.len() == 2 * k + 1
    &&& z[0] == TokV::Punct('<', false)
    &&& z[2 * k as int] == TokV::Punct('>', false)
    &&& forall|j: int| 1 <= j < 2 * k ==> #[trigger] z[j] == if j % 2 == 1 {
        TokV::Lit("0"@)
    } else {
        TokV::Punct(',', false)
    }
}

/// The end of a claim's obligation: the constant that asks for the proof at the arguments
/// `z`, `const __rprop_Name_obligation: Name<z> = <Name<z> as __rprop_Name_proof<z>>::PROOF;`.
pub open spec fn obligation_const(name: Seq<char>, z: Seq<TokV>) -> Seq<TokV> {
    seq![TokV::Ident("const"@), TokV::Ident("__rprop_"@ + name + "_obligation"@), TokV::Punct(':', false), TokV::Ident(name)]
        + z + seq![TokV::Punct('=', false), TokV::Punct('<', false), TokV::Ident(name)] + z + seq![
        TokV::Ident("as"@),
        TokV::Ident("__rprop_"@ + name + "_proof"@),
    ] + z + seq![
        TokV::Punct('>', false),
        TokV::Punct(':', true),
        TokV::Punct(':', false),
        TokV::Ident("PROOF"@),
        TokV::Punct(';', false),
    ]
}

proof fn lemma_zero_list(items: Seq<Seq<TokV>>)
    requires
        items.len() > 0,
        forall|i: int| 0 <= i < items.len() ==> #[trigger] items[i] == seq![TokV::Lit("0"@)],
    ensures
        comma_list(items).len() == 2 * items.len() - 1,
        forall|j: int| 0 <= j < comma_list(items).len() ==> #[trigger] comma_list(items)[j] == if j % 2 == 0 {
            TokV::Lit("0"@)
        } else {
            TokV::Punct(',', false)
        },
    decreases items.len(),
{
    if items.len() > 1 {
        let d = items.drop_last();
        lemma_zero_list(d);
        let c = comma_list(items);
        let cd = comma_list(d);
        assert(c == cd + seq![comma()] + items.last());
        assert forall|j: int| 0 <= j < c.len() implies #[trigger] c[j] == if j % 2 == 0 {
            TokV::Lit("0"@)
        } else {
            TokV::Punct(',', false)
        } by {
            if j < cd.len() {
                assert(c[j] == cd[j]);
            } else if j == cd.len() {
                assert(c[j] == comma());
            } else {
                assert(c[j] == items.last()[0]);
            }
        }
    }
}

/// A claim with parameters is checked with one `0` per parameter, for each of them: its
/// obligation ends with the constant that names the claim and its proof trait at exactly
/// as many zeros as the claim has parameters.
pub proof fn law_obligation_zero_per_binder(name: Seq<char>, binders: Seq<Seq<char>>)
    requires
        binders.len() > 0,
    ensures
        zero_args(obligation_args_spec(binders), binders.len()),
        ({
            let o = claim_obligation_spec(name, binders);
            let t = obligation_const(name, obligation_args_spec(binders));
            o.len() >= t.len() && o.subrange(o.len() - t.len(), o.len() as int) == t
        }),
{
    let items = binders.map_values(|b: Seq<char>| seq![TokV::Lit("0"@)]);
    lemma_zero_list(items);
    let z = obligation_args_spec(binders);
    let c = comma_list(items);
    assert forall|j: int| 1 <= j < 2 * binders.len() implies #[trigger] z[j] == if j % 2 == 1 {
        TokV::Lit("0"@)
    } else {
        TokV::Punct(',', false)
    } by {
        assert(z[j] == c[j - 1]);
    }
    let o = claim_obligation_spec(name, binders);
    let t = obligation_const(name, z);
    let tr = proof_trait_spec(name);
    let pre = doc_hidden() + allow_lint("non_camel_case_types"@) + word("pub"@) + word("trait"@) + word(tr) + const_params_spec(
        binders,
    ) + group(Delim::Brace, word("const"@) + word("PROOF"@) + mark(':') + word(name) + const_args_spec(binders) + mark(';'))
        + doc_hidden() + allow_lint("non_upper_case_globals"@);
    assert(o =~= pre + t);
    assert(o.subrange(o.len() - t.len(), o.len() as int) =~= t);
}

} // verus!
