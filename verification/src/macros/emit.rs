use vstd::prelude::*;
use crate::error::{MacroError, ErrV};
use crate::tokens::{Delim, Tok, TokV, toks_view, extend_toks, copy_toks, word, mark, group, word_toks, app_word, app_name, app_mark, app_group, app_copy};
use crate::derive::ast::{PropV, ProposeInput, InputV, strings_view};
use crate::derive::lower::{NamedExpr, NamedV, refs_view, postorder, lower_spec, lower_propose, parts};
use crate::derive::generics::GenericContext;
use crate::case::snake_case;
use crate::derive::api::{name_atoms, atoms_of};
use crate::derive::emit::common::{
    arrow, path_sep, derive_clone_copy, framework_path, rprop_path, concat_seqs, lemma_concat_push, push_arrow,
    push_path_sep, push_derive_clone_copy, push_framework_path, push_rprop_path, in_order, lemma_concat_in_order,
    lemma_in_order_extend, lemma_two_in_order,
};
use crate::derive::emit::conjunction::{
    ConjunctionMember, MemberV, members_view, struct_field_toks, new_fn_toks, prop_fn_toks, struct_fields_tokens,
    new_fn_tokens,
};
use crate::derive::emit::disjunction::{disjunction_spec, emit_disjunction_spec, from_operand_item, law_disjunction_from_every_operand};
use crate::derive::emit::implication::{implication_spec, params_tokens};
use crate::derive::emit::members::{child_refs, conclusion_ok};
use crate::derive::emit::obligation::{proof_trait_spec, obligation_spec, proof_trait_name, claim_obligation_spec, emit_claim_obligation as emit_full_obligation, proof_binding_spec};
use crate::derive::emit::{implications_ok, imply_ok, node_attrs};
use crate::macros::members::{
    resolve_names_spec, name_member, resolve_conjunction_members, names_of, child_names, premise_params, premise_params_spec,
    conclusion_ty, conclusion_ty_spec,
};

verus! {

/// `impl crate::framework::Trait for Name {}`.
pub open spec fn framework_marker(tr: Seq<char>, name: Seq<char>) -> Seq<TokV> {
    word("impl"@) + framework_path(tr) + word("for"@) + word(name) + group(Delim::Brace, seq![])
}

/// `fn sorry() -> Self { body }`.
pub open spec fn sorry_fn(body: Seq<TokV>) -> Seq<TokV> {
    word("fn"@) + word("sorry"@) + group(Delim::Paren, seq![]) + arrow() + word("Self"@) + group(Delim::Brace, body)
}

/// `<Type as path::Sorry>::sorry()`.
pub open spec fn sorry_of(ty: Seq<TokV>, sorry_path: Seq<TokV>) -> Seq<TokV> {
    mark('<') + ty + word("as"@) + sorry_path + mark('>') + path_sep() + word("sorry"@) + group(Delim::Paren, seq![])
}

/// The unit field that keeps a proposition's constructor private.
pub open spec fn private_field() -> Seq<TokV> {
    word("_private"@) + mark(':') + group(Delim::Paren, seq![])
}

/// The items of an atomic proposition of the framework: a `Clone + Copy` struct with a
/// private unit field, its `Prop` impl and a `Sorry` impl.
pub open spec fn atomic_spec(attrs: Seq<TokV>, name: Seq<char>) -> Seq<TokV> {
    attrs + derive_clone_copy() + word("pub"@) + word("struct"@) + word(name) + group(Delim::Brace, private_field() + mark(','))
        + framework_marker("Prop"@, name) + word("impl"@) + framework_path("Sorry"@) + word("for"@) + word(name) + group(
        Delim::Brace,
        sorry_fn(word("Self"@) + group(Delim::Brace, private_field())),
    )
}

fn framework_marker_tokens(tr: &str, name: &String) -> (r: Vec<Tok>)
    ensures
        toks_view(r@) == framework_marker(tr@, name@),
{
    let mut r = word_toks("impl");
    push_framework_path(&mut r, tr);
    app_word(&mut r, "for");
    app_name(&mut r, name);
    let empty: Vec<Tok> = Vec::new();
    assert(toks_view(empty@) =~= seq![]);
    app_group(&mut r, Delim::Brace, empty);
    r
}

fn sorry_fn_tokens(body: Vec<Tok>) -> (r: Vec<Tok>)
    ensures
        toks_view(r@) == sorry_fn(toks_view(body@)),
{
    let mut r = word_toks("fn");
    app_word(&mut r, "sorry");
    let empty: Vec<Tok> = Vec::new();
    assert(toks_view(empty@) =~= seq![]);
    app_group(&mut r, Delim::Paren, empty);
    push_arrow(&mut r);
    app_word(&mut r, "Self");
    app_group(&mut r, Delim::Brace, body);
    r
}

fn private_field_tokens() -> (r: Vec<Tok>)
    ensures
        toks_view(r@) == private_field(),
{
    let mut r = word_toks("_private");
    app_mark(&mut r, ':');
    let empty: Vec<Tok> = Vec::new();
    assert(toks_view(empty@) =~= seq![]);
    app_group(&mut r, Delim::Paren, empty);
    r
}

/// The items of an atomic proposition.
pub fn emit_atomic(attrs: &Vec<Tok>, name: &String) -> (r: Vec<Tok>)
    ensures
        toks_view(r@) == atomic_spec(toks_view(attrs@), name@),
{
    let mut field = private_field_tokens();
    app_mark(&mut field, ',');
    let mut init = word_toks("Self");
    app_group(&mut init, Delim::Brace, private_field_tokens());
    let mut out = copy_toks(attrs);
    push_derive_clone_copy(&mut out);
    app_word(&mut out, "pub");
    app_word(&mut out, "struct");
    app_name(&mut out, name);
    app_group(&mut out, Delim::Brace, field);
    extend_toks(&mut out, framework_marker_tokens("Prop", name));
    app_word(&mut out, "impl");
    push_framework_path(&mut out, "Sorry");
    app_word(&mut out, "for");
    app_name(&mut out, name);
    app_group(&mut out, Delim::Brace, sorry_fn_tokens(init));
    out
}

/// `field: <Type as crate::framework::Sorry>::sorry(),`.
pub open spec fn sorry_init(r: MemberV) -> Seq<TokV> {
    word(r.field) + mark(':') + sorry_of(r.ty, framework_path("Sorry"@)) + mark(',')
}

/// `impl crate::framework::HasProp<Type> for Name { fn prop(&self) -> Type { self.field } }`.
pub open spec fn framework_has_prop(r: MemberV, name: Seq<char>) -> Seq<TokV> {
    word("impl"@) + framework_path("HasProp"@) + mark('<') + r.ty + mark('>') + word("for"@) + word(name) + group(
        Delim::Brace,
        prop_fn_toks(r),
    )
}

/// The items of a conjunction of the framework: the struct of its members, its `Prop` and
/// `Conjunction` impls, `new`, a `Sorry` impl that makes every member by `sorry`, and one
/// `HasProp` impl per member.
pub open spec fn conjunction_spec(attrs: Seq<TokV>, name: Seq<char>, rs: Seq<MemberV>) -> Seq<TokV> {
    attrs + derive_clone_copy() + word("pub"@) + word("struct"@) + word(name) + group(
        Delim::Brace,
        concat_seqs(rs.map_values(|r: MemberV| struct_field_toks(r))),
    ) + framework_marker("Prop"@, name) + framework_marker("Conjunction"@, name) + word("impl"@) + word(name) + group(
        Delim::Brace,
        new_fn_toks(rs),
    ) + word("impl"@) + framework_path("Sorry"@) + word("for"@) + word(name) + group(
        Delim::Brace,
        sorry_fn(word("Self"@) + group(Delim::Brace, concat_seqs(rs.map_values(|r: MemberV| sorry_init(r))))),
    ) + concat_seqs(rs.map_values(|r: MemberV| framework_has_prop(r, name)))
}

/// What `emit_conjunction` gives: a refusal without members or when resolving them
/// fails, else the items.
pub open spec fn emit_conjunction_spec(attrs: Seq<TokV>, name: Seq<char>, ms: Seq<Seq<char>>) -> Result<Seq<TokV>, ErrV> {
    if ms.len() == 0 {
        Err(ErrV::EmptyConjunction(name))
    } else {
        match resolve_names_spec(ms) {
            Err(e) => Err(e),
            Ok(rs) => Ok(conjunction_spec(attrs, name, rs)),
        }
    }
}

/// The per-member pieces (0: `Sorry` field init, 1: `HasProp` impl), one after the other.
pub open spec fn member_piece(kind: u8, r: MemberV, name: Seq<char>) -> Seq<TokV> {
    if kind == 0 {
        sorry_init(r)
    } else {
        framework_has_prop(r, name)
    }
}

fn member_pieces(rs: &Vec<ConjunctionMember>, kind: u8, name: &String) -> (out: Vec<Tok>)
    ensures
        toks_view(out@) == concat_seqs(members_view(rs@).map_values(|r: MemberV| member_piece(kind, r, name@))),
{
    let ghost rv = members_view(rs@);
    let mut out: Vec<Tok> = Vec::new();
    let n = rs.len();
    let mut i: usize = 0;
    assert(rv.map_values(|r: MemberV| member_piece(kind, r, name@)).take(0) =~= seq![]);
    while i < n
        invariant
            n == rs@.len(),
            rv == members_view(rs@),
            i <= n,
            toks_view(out@) == concat_seqs(rv.map_values(|r: MemberV| member_piece(kind, r, name@)).take(i as int)),
        decreases n - i,
    {
        let r = &rs[i];
        let ghost v = rv[i as int];
        assert(v == r@);
        let item = if kind == 0 {
            let mut sorry = word_toks("as");
            push_framework_path(&mut sorry, "Sorry");
            let mut item = word_toks(r.field.as_str());
            app_mark(&mut item, ':');
            app_mark(&mut item, '<');
            app_copy(&mut item, &r.ty);
            app_word(&mut item, "as");
            push_framework_path(&mut item, "Sorry");
            app_mark(&mut item, '>');
            push_path_sep(&mut item);
            app_word(&mut item, "sorry");
            let empty: Vec<Tok> = Vec::new();
            assert(toks_view(empty@) =~= seq![]);
            app_group(&mut item, Delim::Paren, empty);
            app_mark(&mut item, ',');
            assert(toks_view(item@) =~= sorry_init(v));
            item
        } else {
            let mut recv: Vec<Tok> = Vec::new();
            app_mark(&mut recv, '&');
            app_word(&mut recv, "self");
            assert(toks_view(recv@) =~= mark('&') + word("self"@));
            let mut get = word_toks("self");
            app_mark(&mut get, '.');
            app_name(&mut get, &r.field);
            let mut body = word_toks("fn");
            app_word(&mut body, "prop");
            app_group(&mut body, Delim::Paren, recv);
            push_arrow(&mut body);
            app_copy(&mut body, &r.ty);
            app_group(&mut body, Delim::Brace, get);
            let mut item = word_toks("impl");
            push_framework_path(&mut item, "HasProp");
            app_mark(&mut item, '<');
            app_copy(&mut item, &r.ty);
            app_mark(&mut item, '>');
            app_word(&mut item, "for");
            app_name(&mut item, name);
            app_group(&mut item, Delim::Brace, body);
            item
        };
        extend_toks(&mut out, item);
        proof {
            let items = rv.map_values(|r: MemberV| member_piece(kind, r, name@));
            assert(items.take(i + 1) =~= items.take(i as int).push(member_piece(kind, v, name@)));
            lemma_concat_push(items.take(i as int), member_piece(kind, v, name@));
        }
        i = i + 1;
    }
    assert(rv.map_values(|r: MemberV| member_piece(kind, r, name@)).take(n as int) =~= rv.map_values(|r: MemberV| member_piece(kind, r, name@)));
    out
}

/// The items of a conjunction of the propositions of the given names.
pub fn emit_conjunction(attrs: &Vec<Tok>, name: &String, members: &Vec<String>) -> (r: Result<Vec<Tok>, MacroError>)
    ensures
        match r {
            Ok(v) => emit_conjunction_spec(toks_view(attrs@), name@, strings_view(members@)) == Ok::<Seq<TokV>, ErrV>(toks_view(v@)),
            Err(e) => emit_conjunction_spec(toks_view(attrs@), name@, strings_view(members@)) == Err::<Seq<TokV>, ErrV>(e@),
        },
{
    if members.len() == 0 {
        return Err(MacroError::EmptyConjunction(name.clone()));
    }
    let resolved = match resolve_conjunction_members(members) {
        Ok(v) => v,
        Err(e) => return Err(e),
    };
    let ghost rv = members_view(resolved@);
    let inits = member_pieces(&resolved, 0, name);
    let impls = member_pieces(&resolved, 1, name);
    assert(rv.map_values(|r: MemberV| member_piece(0, r, name@)) =~= rv.map_values(|r: MemberV| sorry_init(r)));
    assert(rv.map_values(|r: MemberV| member_piece(1, r, name@)) =~= rv.map_values(|r: MemberV| framework_has_prop(r, name@)));
    let mut init = word_toks("Self");
    app_group(&mut init, Delim::Brace, inits);
    let mut out = copy_toks(attrs);
    push_derive_clone_copy(&mut out);
    app_word(&mut out, "pub");
    app_word(&mut out, "struct");
    app_name(&mut out, name);
    app_group(&mut out, Delim::Brace, struct_fields_tokens(&resolved));
    extend_toks(&mut out, framework_marker_tokens("Prop", name));
    extend_toks(&mut out, framework_marker_tokens("Conjunction", name));
    app_word(&mut out, "impl");
    app_name(&mut out, name);
    app_group(&mut out, Delim::Brace, new_fn_tokens(&resolved));
    app_word(&mut out, "impl");
    push_framework_path(&mut out, "Sorry");
    app_word(&mut out, "for");
    app_name(&mut out, name);
    app_group(&mut out, Delim::Brace, sorry_fn_tokens(init));
    extend_toks(&mut out, impls);
    Ok(out)
}

/// `impl path::Sorry for Name { fn sorry() -> Self { Self::First(<First as path::Sorry>::sorry()) } }`:
/// a disjunction's `sorry` is its first variant's.
pub open spec fn sorry_first_variant(name: Seq<char>, first: Seq<char>, sorry_path: Seq<TokV>) -> Seq<TokV> {
    word("impl"@) + sorry_path + word("for"@) + word(name) + group(
        Delim::Brace,
        sorry_fn(word("Self"@) + path_sep() + word(first) + group(Delim::Paren, sorry_of(word(first), sorry_path))),
    )
}

/// The `Sorry` impl of a disjunction.
pub fn sorry_first_variant_tokens(name: &String, first: &String, framework: bool) -> (r: Vec<Tok>)
    ensures
        toks_view(r@) == sorry_first_variant(
            name@,
            first@,
            if framework { framework_path("Sorry"@) } else { rprop_path("Sorry"@) },
        ),
{
    let mut path: Vec<Tok> = Vec::new();
    if framework {
        push_framework_path(&mut path, "Sorry");
    } else {
        push_rprop_path(&mut path, "Sorry");
    }
    let ghost pv = toks_view(path@);
    assert(pv =~= if framework { framework_path("Sorry"@) } else { rprop_path("Sorry"@) });
    let mut call: Vec<Tok> = Vec::new();
    app_mark(&mut call, '<');
    app_name(&mut call, first);
    app_word(&mut call, "as");
    app_copy(&mut call, &path);
    app_mark(&mut call, '>');
    push_path_sep(&mut call);
    app_word(&mut call, "sorry");
    let empty: Vec<Tok> = Vec::new();
    assert(toks_view(empty@) =~= seq![]);
    app_group(&mut call, Delim::Paren, empty);
    assert(toks_view(call@) =~= sorry_of(word(first@), pv));
    let mut body = word_toks("Self");
    push_path_sep(&mut body);
    app_name(&mut body, first);
    app_group(&mut body, Delim::Paren, call);
    let mut r = word_toks("impl");
    app_copy(&mut r, &path);
    app_word(&mut r, "for");
    app_name(&mut r, name);
    app_group(&mut r, Delim::Brace, sorry_fn_tokens(body));
    r
}

/// What `emit_disjunction` gives: a refusal with fewer than two variants, else the enum
/// of the named propositions with its impls, and a `Sorry` impl through the first variant.
pub open spec fn emit_disjunction_spec_simple(attrs: Seq<TokV>, name: Seq<char>, vs: Seq<Seq<char>>) -> Result<Seq<TokV>, ErrV> {
    if vs.len() < 2 {
        Err(ErrV::TooFewVariants(name))
    } else {
        Ok(disjunction_spec(attrs, name, name_atoms(vs), seq![]) + sorry_first_variant(name, vs[0], rprop_path("Sorry"@)))
    }
}

/// The items of a disjunction of the propositions of the given names.
pub fn emit_disjunction(attrs: &Vec<Tok>, name: &String, variants: &Vec<String>) -> (r: Result<Vec<Tok>, MacroError>)
    ensures
        match r {
            Ok(v) => emit_disjunction_spec_simple(toks_view(attrs@), name@, strings_view(variants@)) == Ok::<Seq<TokV>, ErrV>(toks_view(v@)),
            Err(e) => emit_disjunction_spec_simple(toks_view(attrs@), name@, strings_view(variants@)) == Err::<Seq<TokV>, ErrV>(e@),
        },
{
    if variants.len() < 2 {
        return Err(MacroError::TooFewVariants(name.clone()));
    }
    let atoms = atoms_of(variants);
    let refs = child_refs(&atoms);
    let ctx = GenericContext { binders: Vec::new() };
    assert(strings_view(ctx.binders@) =~= seq![]);
    let mut out = match crate::derive::emit::disjunction::emit_disjunction(attrs, name, &refs, &ctx) {
        Ok(v) => v,
        Err(e) => return Err(e),
    };
    extend_toks(&mut out, sorry_first_variant_tokens(name, &variants[0], false));
    Ok(out)
}

/// What `emit_implication` gives: the refusal of the premise's members, else
/// `pub type Name = fn(param: Type, ...) -> Conclusion;`.
pub open spec fn emit_implication_spec(attrs: Seq<TokV>, name: Seq<char>, premise: NamedV, conclusion: NamedV) -> Result<Seq<TokV>, ErrV> {
    match premise_params_spec(premise) {
        Err(e) => Err(e),
        Ok(ps) => Ok(implication_spec(attrs, name, ps, conclusion_ty_spec(conclusion), seq![])),
    }
}

/// The function type of an implication.
pub fn emit_implication(attrs: &Vec<Tok>, name: &String, premise: &NamedExpr, conclusion: &NamedExpr) -> (r: Result<Vec<Tok>, MacroError>)
    requires
        conclusion_ok(conclusion@),
    ensures
        match r {
            Ok(v) => emit_implication_spec(toks_view(attrs@), name@, premise@, conclusion@) == Ok::<Seq<TokV>, ErrV>(toks_view(v@)),
            Err(e) => emit_implication_spec(toks_view(attrs@), name@, premise@, conclusion@) == Err::<Seq<TokV>, ErrV>(e@),
        },
{
    let params = match premise_params(premise) {
        Ok(p) => p,
        Err(e) => return Err(e),
    };
    let return_ty = conclusion_ty(conclusion);
    let mut out = copy_toks(attrs);
    app_word(&mut out, "pub");
    app_word(&mut out, "type");
    app_name(&mut out, name);
    let empty: Vec<Tok> = Vec::new();
    assert(toks_view(empty@) =~= seq![]);
    assert(crate::derive::generics::const_params_spec(seq![]) =~= seq![]);
    extend_toks(&mut out, empty);
    app_mark(&mut out, '=');
    app_word(&mut out, "fn");
    app_group(&mut out, Delim::Paren, params_tokens(&params));
    push_arrow(&mut out);
    extend_toks(&mut out, return_ty);
    app_mark(&mut out, ';');
    Ok(out)
}

/// The items of one part: a conjunction's struct, a disjunction's enum, an implication's
/// function type, nothing for an atom.
pub open spec fn node_items(attrs: Seq<TokV>, root_name: Seq<char>, n: NamedV) -> Result<Seq<TokV>, ErrV> {
    let a = node_attrs(attrs, root_name, n);
    match n {
        NamedV::And { name, children } => emit_conjunction_spec(a, name, names_of(children)),
        NamedV::Or { name, children } => emit_disjunction_spec_simple(a, name, names_of(children)),
        NamedV::Imply { name, premise, conclusion } => emit_implication_spec(a, name, *premise, *conclusion),
        NamedV::Atom(_) => Ok(seq![]),
    }
}

/// The items of the parts in order, or the first refusal.
pub open spec fn emit_nodes(attrs: Seq<TokV>, root_name: Seq<char>, nodes: Seq<NamedV>) -> Result<Seq<TokV>, ErrV>
    decreases nodes.len(),
{
    if nodes.len() == 0 {
        Ok(seq![])
    } else {
        match emit_nodes(attrs, root_name, nodes.drop_last()) {
            Err(e) => Err(e),
            Ok(prev) => match node_items(attrs, root_name, nodes.last()) {
                Err(e) => Err(e),
                Ok(t) => Ok(prev + t),
            },
        }
    }
}

proof fn lemma_emit_nodes_err(attrs: Seq<TokV>, root_name: Seq<char>, nodes: Seq<NamedV>, k: int)
    requires
        0 <= k <= nodes.len(),
        emit_nodes(attrs, root_name, nodes.take(k)) is Err,
    ensures
        emit_nodes(attrs, root_name, nodes) == emit_nodes(attrs, root_name, nodes.take(k)),
    decreases nodes.len(),
{
    if k == nodes.len() {
        assert(nodes.take(k) =~= nodes);
    } else {
        assert(nodes.drop_last().take(k) =~= nodes.take(k));
        lemma_emit_nodes_err(attrs, root_name, nodes.drop_last(), k);
    }
}

/// What `propose!` writes: an atomic proposition's items, or those of the parts in
/// post-order.
pub open spec fn propose_spec(i: InputV, named: NamedV) -> Result<Seq<TokV>, ErrV> {
    if i.expr is None {
        Ok(atomic_spec(i.attrs, i.name))
    } else {
        emit_nodes(i.attrs, i.name, postorder(named))
    }
}

fn node_tokens(input: &ProposeInput, node: &NamedExpr) -> (r: Result<Vec<Tok>, MacroError>)
    requires
        imply_ok(node@),
    ensures
        match r {
            Ok(v) => node_items(input@.attrs, input@.name, node@) == Ok::<Seq<TokV>, ErrV>(toks_view(v@)),
            Err(e) => node_items(input@.attrs, input@.name, node@) == Err::<Seq<TokV>, ErrV>(e@),
        },
{
    let is_root = node.name() == input.name;
    let attrs = if is_root {
        copy_toks(&input.attrs)
    } else {
        let empty: Vec<Tok> = Vec::new();
        assert(toks_view(empty@) =~= seq![]);
        empty
    };
    match node {
        NamedExpr::And { name, children } => emit_conjunction(&attrs, name, &child_names(children)),
        NamedExpr::Or { name, children } => emit_disjunction(&attrs, name, &child_names(children)),
        NamedExpr::Imply { name, premise, conclusion } => emit_implication(&attrs, name, premise, conclusion),
        NamedExpr::Atom(_) => {
            let empty: Vec<Tok> = Vec::new();
            assert(toks_view(empty@) =~= seq![]);
            Ok(empty)
        },
    }
}

/// The items of the parts of a proposition that has a defining expression.
pub fn expr_tokenstream(input: &ProposeInput, named: &NamedExpr) -> (r: Result<Vec<Tok>, MacroError>)
    requires
        implications_ok(named@),
    ensures
        match r {
            Ok(v) => emit_nodes(input@.attrs, input@.name, postorder(named@)) == Ok::<Seq<TokV>, ErrV>(toks_view(v@)),
            Err(e) => emit_nodes(input@.attrs, input@.name, postorder(named@)) == Err::<Seq<TokV>, ErrV>(e@),
        },
{
    let ghost iv = input@;
    let ghost nv = named@;
    let mut nodes: Vec<&NamedExpr> = Vec::new();
    named.collect_postorder(&mut nodes);
    let ghost ns = refs_view(nodes@);
    assert(ns =~= postorder(nv));
    let mut out: Vec<Tok> = Vec::new();
    let n = nodes.len();
    let mut i: usize = 0;
    assert(ns.take(0) =~= seq![]);
    assert(toks_view(out@) =~= seq![]);
    while i < n
        invariant
            n == nodes@.len(),
            ns == refs_view(nodes@),
            ns == postorder(nv),
            nv == named@,
            iv == input@,
            implications_ok(nv),
            i <= n,
            emit_nodes(iv.attrs, iv.name, ns.take(i as int)) == Ok::<Seq<TokV>, ErrV>(toks_view(out@)),
        decreases n - i,
    {
        let node = nodes[i];
        assert(ns[i as int] == node@);
        assert(imply_ok(ns[i as int]));
        assert(ns.take(i + 1).drop_last() =~= ns.take(i as int));
        assert(ns.take(i + 1).last() == node@);
        match node_tokens(input, node) {
            Ok(t) => {
                extend_toks(&mut out, t);
            },
            Err(e) => {
                proof {
                    lemma_emit_nodes_err(iv.attrs, iv.name, ns, i + 1);
                }
                return Err(e);
            },
        }
        i = i + 1;
    }
    assert(ns.take(n as int) =~= ns);
    Ok(out)
}

/// The items that `propose!` writes for an input and its named form.
pub fn emit_propose(input: ProposeInput, named: &NamedExpr) -> (r: Result<Vec<Tok>, MacroError>)
    requires
        input@.expr is Some ==> implications_ok(named@),
    ensures
        match r {
            Ok(v) => propose_spec(input@, named@) == Ok::<Seq<TokV>, ErrV>(toks_view(v@)),
            Err(e) => propose_spec(input@, named@) == Err::<Seq<TokV>, ErrV>(e@),
        },
{
    if input.expr.is_none() {
        Ok(emit_atomic(&input.attrs, &input.name))
    } else {
        expr_tokenstream(&input, named)
    }
}

/// The obligation a claim places on its crate: a trait with `const PROOF: Self` and a
/// hidden constant `<Name as Trait>::PROOF` that does not compile until the trait is
/// implemented.
pub open spec fn bare_obligation_spec(name: Seq<char>) -> Seq<TokV> {
    let tr = proof_trait_spec(name);
    word("pub"@) + word("trait"@) + word(tr) + group(
        Delim::Brace,
        word("const"@) + word("PROOF"@) + mark(':') + word("Self"@) + mark(';'),
    ) + crate::derive::emit::common::doc_hidden() + crate::derive::emit::common::allow_lint("non_upper_case_globals"@)
        + word("const"@) + word(obligation_spec(name)) + mark(':') + word(name) + mark('=') + mark('<') + word(name)
        + word("as"@) + word(tr) + mark('>') + path_sep() + word("PROOF"@) + mark(';')
}

/// The obligation of a claim, as `claim!` writes it.
pub fn emit_bare_obligation(name: &String) -> (r: Vec<Tok>)
    ensures
        toks_view(r@) == bare_obligation_spec(name@),
{
    let tr = proof_trait_name(name);
    let mut ob = String::from_str("__rprop_");
    ob.append(name.as_str());
    ob.append("_obligation");
    let mut body = word_toks("const");
    app_word(&mut body, "PROOF");
    app_mark(&mut body, ':');
    app_word(&mut body, "Self");
    app_mark(&mut body, ';');
    let mut out = word_toks("pub");
    app_word(&mut out, "trait");
    app_name(&mut out, &tr);
    app_group(&mut out, Delim::Brace, body);
    crate::derive::emit::common::push_doc_hidden(&mut out);
    crate::derive::emit::common::push_allow(&mut out, "non_upper_case_globals");
    app_word(&mut out, "const");
    app_name(&mut out, &ob);
    app_mark(&mut out, ':');
    app_name(&mut out, name);
    app_mark(&mut out, '=');
    app_mark(&mut out, '<');
    app_name(&mut out, name);
    app_word(&mut out, "as");
    app_name(&mut out, &tr);
    app_mark(&mut out, '>');
    push_path_sep(&mut out);
    app_word(&mut out, "PROOF");
    app_mark(&mut out, ';');
    out
}

/// The obligation of a claim with hidden, lint-free items (the claim has no parameters).
pub fn emit_claim_obligation(name: &String) -> (r: Vec<Tok>)
    ensures
        toks_view(r@) == claim_obligation_spec(name@, seq![]),
{
    let ctx = GenericContext { binders: Vec::new() };
    assert(strings_view(ctx.binders@) =~= seq![]);
    emit_full_obligation(name, &ctx)
}

/// The impl that makes the function of the given name the proof of a claim.
pub fn emit_proof_binding(claim: &String, fn_name: &String) -> (r: Vec<Tok>)
    ensures
        toks_view(r@) == proof_binding_spec(claim@, fn_name@, seq![]),
{
    let func = crate::derive::emit::obligation::FnSignature { name: fn_name.clone(), generics: Vec::new() };
    assert(func@.generics =~= seq![]);
    crate::derive::emit::obligation::emit_proof_binding(claim, &func)
}

/// What `claim!` writes: a refusal unless the input is an implication, else the
/// proposition's items (or the refusal of naming or emitting them) and the obligation.
pub open spec fn claim_spec(i: InputV) -> Result<Seq<TokV>, ErrV> {
    if !(i.expr matches Some(PropV::Imply(_, _))) {
        Err(ErrV::NotAnImplication(i.name))
    } else {
        match lower_spec(i) {
            None => Err(ErrV::DisjunctionOperands(i.name)),
            Some(named) => match propose_spec(i, named) {
                Err(e) => Err(e),
                Ok(t) => Ok(t + bare_obligation_spec(i.name)),
            },
        }
    }
}

/// The items of a claim: its proposition (an implication) and the obligation to prove it.
pub fn emit_claim(input: ProposeInput) -> (r: Result<Vec<Tok>, MacroError>)
    requires
        lower_spec(input@) matches Some(n) ==> implications_ok(n),
    ensures
        (input@.expr matches Some(x) && parts(x) > u32::MAX && x is Imply) ==> (r matches Err(e) && e@ == ErrV::TooManyParts),
        !(input@.expr matches Some(x) && parts(x) > u32::MAX) ==> match r {
            Ok(v) => claim_spec(input@) == Ok::<Seq<TokV>, ErrV>(toks_view(v@)),
            Err(e) => claim_spec(input@) == Err::<Seq<TokV>, ErrV>(e@),
        },
{
    let is_implication = match &input.expr {
        Some(crate::derive::ast::PropExpr::Imply(_, _)) => true,
        _ => false,
    };
    if !is_implication {
        return Err(MacroError::NotAnImplication(input.name.clone()));
    }
    let named = match lower_propose(input.copy()) {
        Ok(n) => n,
        Err(e) => return Err(e),
    };
    let name = input.name.clone();
    let mut out = match emit_propose(input, &named) {
        Ok(t) => t,
        Err(e) => return Err(e),
    };
    extend_toks(&mut out, emit_bare_obligation(&name));
    Ok(out)
}

} // verus!

verus! {

/// The impl through which a framework conjunction gives out one of its members:
/// `impl crate::framework::HasProp<Member> for Name { fn prop(&self) -> Member { self.field } }`.
pub open spec fn framework_has_prop_item(member: Seq<char>, field: Seq<char>, name: Seq<char>) -> Seq<TokV> {
    seq![
        TokV::Ident("impl"@),
        TokV::Ident("crate"@),
        TokV::Punct(':', true),
        TokV::Punct(':', false),
        TokV::Ident("framework"@),
        TokV::Punct(':', true),
        TokV::Punct(':', false),
        TokV::Ident("HasProp"@),
        TokV::Punct('<', false),
        TokV::Ident(member),
        TokV::Punct('>', false),
        TokV::Ident("for"@),
        TokV::Ident(name),
        TokV::Group(
            Delim::Brace,
            seq![
                TokV::Ident("fn"@),
                TokV::Ident("prop"@),
                TokV::Group(Delim::Paren, seq![TokV::Punct('&', false), TokV::Ident("self"@)]),
                TokV::Punct('-', true),
                TokV::Punct('>', false),
                TokV::Ident(member),
                TokV::Group(Delim::Brace, seq![TokV::Ident("self"@), TokV::Punct('.', false), TokV::Ident(field)]),
            ],
        ),
    ]
}

proof fn lemma_resolve_names(ns: Seq<Seq<char>>)
    ensures
        resolve_names_spec(ns) matches Ok(rs) ==> rs == ns.map_values(|n: Seq<char>| name_member(n)),
    decreases ns.len(),
{
    if ns.len() > 0 {
        lemma_resolve_names(ns.drop_last());
        if let Ok(rs) = resolve_names_spec(ns) {
            assert(ns.map_values(|n: Seq<char>| name_member(n)) =~= ns.drop_last().map_values(|n: Seq<char>| name_member(n)).push(
                name_member(ns.last()),
            ));
        }
    }
}

/// Every member of an accepted framework conjunction, whatever their number, can be taken
/// out of it: the items hold one `HasProp` impl per member, returning the member's field
/// (its name in snake case), in the members' order.
pub proof fn law_framework_conjunction_has_prop_every_member(attrs: Seq<TokV>, name: Seq<char>, ms: Seq<Seq<char>>)
    ensures
        emit_conjunction_spec(attrs, name, ms) matches Ok(out) ==> in_order(
            out,
            ms.map_values(|m: Seq<char>| framework_has_prop_item(m, snake_case(m), name)),
        ),
{
    if let Ok(out) = emit_conjunction_spec(attrs, name, ms) {
        let rs = resolve_names_spec(ms)->Ok_0;
        lemma_resolve_names(ms);
        let parts = rs.map_values(|r: MemberV| framework_has_prop(r, name));
        let pre = attrs + derive_clone_copy() + word("pub"@) + word("struct"@) + word(name) + group(
            Delim::Brace,
            concat_seqs(rs.map_values(|r: MemberV| struct_field_toks(r))),
        ) + framework_marker("Prop"@, name) + framework_marker("Conjunction"@, name) + word("impl"@) + word(name) + group(
            Delim::Brace,
            new_fn_toks(rs),
        ) + word("impl"@) + framework_path("Sorry"@) + word("for"@) + word(name) + group(
            Delim::Brace,
            sorry_fn(word("Self"@) + group(Delim::Brace, concat_seqs(rs.map_values(|r: MemberV| sorry_init(r))))),
        );
        lemma_concat_in_order(pre, parts, seq![]);
        assert(out =~= pre + concat_seqs(parts) + seq![]);
        assert forall|k: int| 0 <= k < ms.len() implies #[trigger] parts[k] == framework_has_prop_item(
            ms[k],
            snake_case(ms[k]),
            name,
        ) by {
            let r = rs[k];
            assert(r == name_member(ms[k]));
            assert(r.ty =~= seq![TokV::Ident(ms[k])]);
            let recv = mark('&') + word("self"@);
            assert(recv =~= seq![TokV::Punct('&', false), TokV::Ident("self"@)]);
            let get = word("self"@) + mark('.') + word(r.field);
            assert(get =~= seq![TokV::Ident("self"@), TokV::Punct('.', false), TokV::Ident(r.field)]);
            assert(prop_fn_toks(r) =~= seq![
                TokV::Ident("fn"@),
                TokV::Ident("prop"@),
                TokV::Group(Delim::Paren, seq![TokV::Punct('&', false), TokV::Ident("self"@)]),
                TokV::Punct('-', true),
                TokV::Punct('>', false),
                TokV::Ident(ms[k]),
                TokV::Group(Delim::Brace, seq![TokV::Ident("self"@), TokV::Punct('.', false), TokV::Ident(r.field)]),
            ]);
            assert(parts[k] =~= framework_has_prop_item(ms[k], snake_case(ms[k]), name));
        }
        assert(parts =~= ms.map_values(|m: Seq<char>| framework_has_prop_item(m, snake_case(m), name)));
    }
}

/// Every operand of a framework disjunction, whatever their number, becomes a value of it:
/// the items hold one `From` impl per operand, in the operands' order.
pub proof fn law_framework_disjunction_from_every_operand(attrs: Seq<TokV>, name: Seq<char>, vs: Seq<Seq<char>>)
    requires
        vs.len() >= 2,
    ensures
        emit_disjunction_spec_simple(attrs, name, vs) matches Ok(out) && in_order(
            out,
            name_atoms(vs).map_values(|v: NamedV| from_operand_item(v, name, seq![])),
        ),
{
    law_disjunction_from_every_operand(attrs, name, name_atoms(vs), seq![]);
    lemma_in_order_extend(
        disjunction_spec(attrs, name, name_atoms(vs), seq![]),
        name_atoms(vs).map_values(|v: NamedV| from_operand_item(v, name, seq![])),
        sorry_first_variant(name, vs[0], rprop_path("Sorry"@)),
    );
}

} // verus!

verus! {

/// `struct Name { pub field: Member, ... }`, one field per member (named as the member in
/// snake case), in order.
pub open spec fn framework_struct_of(name: Seq<char>, ms: Seq<Seq<char>>) -> Seq<TokV> {
    seq![
        TokV::Ident("struct"@),
        TokV::Ident(name),
        TokV::Group(
            Delim::Brace,
            concat_seqs(ms.map_values(|m: Seq<char>| seq![
                TokV::Ident("pub"@),
                TokV::Ident(snake_case(m)),
                TokV::Punct(':', false),
                TokV::Ident(m),
                TokV::Punct(',', false),
            ])),
        ),
    ]
}

/// `Self { field: <Member as crate::framework::Sorry>::sorry(), ... }`: every member made
/// by `sorry`, in order.
pub open spec fn framework_sorry_all(ms: Seq<Seq<char>>) -> Seq<TokV> {
    seq![
        TokV::Ident("Self"@),
        TokV::Group(
            Delim::Brace,
            concat_seqs(ms.map_values(|m: Seq<char>| seq![
                TokV::Ident(snake_case(m)),
                TokV::Punct(':', false),
                TokV::Punct('<', false),
                TokV::Ident(m),
                TokV::Ident("as"@),
                TokV::Ident("crate"@),
                TokV::Punct(':', true),
                TokV::Punct(':', false),
                TokV::Ident("framework"@),
                TokV::Punct(':', true),
                TokV::Punct(':', false),
                TokV::Ident("Sorry"@),
                TokV::Punct('>', false),
                TokV::Punct(':', true),
                TokV::Punct(':', false),
                TokV::Ident("sorry"@),
                TokV::Group(Delim::Paren, seq![]),
                TokV::Punct(',', false),
            ])),
        ),
    ]
}

proof fn lemma_framework_struct_and_sorry(ms: Seq<Seq<char>>, rs: Seq<MemberV>, name: Seq<char>)
    requires
        rs == ms.map_values(|n: Seq<char>| name_member(n)),
    ensures
        word("struct"@) + word(name) + group(Delim::Brace, concat_seqs(rs.map_values(|r: MemberV| struct_field_toks(r))))
            == framework_struct_of(name, ms),
        word("Self"@) + group(Delim::Brace, concat_seqs(rs.map_values(|r: MemberV| sorry_init(r)))) == framework_sorry_all(ms),
{
    assert forall|i: int| 0 <= i < ms.len() implies #[trigger] struct_field_toks(rs[i]) == seq![
        TokV::Ident("pub"@),
        TokV::Ident(snake_case(ms[i])),
        TokV::Punct(':', false),
        TokV::Ident(ms[i]),
        TokV::Punct(',', false),
    ] by {
        assert(struct_field_toks(rs[i]) =~= seq![
            TokV::Ident("pub"@),
            TokV::Ident(snake_case(ms[i])),
            TokV::Punct(':', false),
            TokV::Ident(ms[i]),
            TokV::Punct(',', false),
        ]);
    }
    assert forall|i: int| 0 <= i < ms.len() implies #[trigger] sorry_init(rs[i]) == seq![
        TokV::Ident(snake_case(ms[i])),
        TokV::Punct(':', false),
        TokV::Punct('<', false),
        TokV::Ident(ms[i]),
        TokV::Ident("as"@),
        TokV::Ident("crate"@),
        TokV::Punct(':', true),
        TokV::Punct(':', false),
        TokV::Ident("framework"@),
        TokV::Punct(':', true),
        TokV::Punct(':', false),
        TokV::Ident("Sorry"@),
        TokV::Punct('>', false),
        TokV::Punct(':', true),
        TokV::Punct(':', false),
        TokV::Ident("sorry"@),
        TokV::Group(Delim::Paren, seq![]),
        TokV::Punct(',', false),
    ] by {
        assert(sorry_init(rs[i]) =~= seq![
            TokV::Ident(snake_case(ms[i])),
            TokV::Punct(':', false),
            TokV::Punct('<', false),
            TokV::Ident(ms[i]),
            TokV::Ident("as"@),
            TokV::Ident("crate"@),
            TokV::Punct(':', true),
            TokV::Punct(':', false),
            TokV::Ident("framework"@),
            TokV::Punct(':', true),
            TokV::Punct(':', false),
            TokV::Ident("Sorry"@),
            TokV::Punct('>', false),
            TokV::Punct(':', true),
            TokV::Punct(':', false),
            TokV::Ident("sorry"@),
            TokV::Group(Delim::Paren, seq![]),
            TokV::Punct(',', false),
        ]);
    }
    assert(rs.map_values(|r: MemberV| struct_field_toks(r)) =~= ms.map_values(|m: Seq<char>| seq![
        TokV::Ident("pub"@),
        TokV::Ident(snake_case(m)),
        TokV::Punct(':', false),
        TokV::Ident(m),
        TokV::Punct(',', false),
    ]));
    assert(rs.map_values(|r: MemberV| sorry_init(r)) =~= ms.map_values(|m: Seq<char>| seq![
        TokV::Ident(snake_case(m)),
        TokV::Punct(':', false),
        TokV::Punct('<', false),
        TokV::Ident(m),
        TokV::Ident("as"@),
        TokV::Ident("crate"@),
        TokV::Punct(':', true),
        TokV::Punct(':', false),
        TokV::Ident("framework"@),
        TokV::Punct(':', true),
        TokV::Punct(':', false),
        TokV::Ident("Sorry"@),
        TokV::Punct('>', false),
        TokV::Punct(':', true),
        TokV::Punct(':', false),
        TokV::Ident("sorry"@),
        TokV::Group(Delim::Paren, seq![]),
        TokV::Punct(',', false),
    ]));
    assert(word("struct"@) + word(name) + group(Delim::Brace, concat_seqs(rs.map_values(|r: MemberV| struct_field_toks(r))))
        =~= framework_struct_of(name, ms));
    assert(word("Self"@) + group(Delim::Brace, concat_seqs(rs.map_values(|r: MemberV| sorry_init(r)))) =~= framework_sorry_all(ms));
}

/// The struct of an accepted framework conjunction has one public field per member,
/// whatever their number, in order; and its `Sorry` impl makes every member by `sorry`.
pub proof fn law_framework_conjunction_struct_and_sorry_every_member(attrs: Seq<TokV>, name: Seq<char>, ms: Seq<Seq<char>>)
    ensures
        emit_conjunction_spec(attrs, name, ms) matches Ok(out) ==> in_order(
            out,
            seq![framework_struct_of(name, ms), seq![TokV::Group(Delim::Brace, sorry_fn(framework_sorry_all(ms)))]],
        ),
{
    if let Ok(out) = emit_conjunction_spec(attrs, name, ms) {
        let rs = resolve_names_spec(ms)->Ok_0;
        lemma_resolve_names(ms);
        lemma_framework_struct_and_sorry(ms, rs, name);
        let s = framework_struct_of(name, ms);
        let g = seq![TokV::Group(Delim::Brace, sorry_fn(framework_sorry_all(ms)))];
        let a = attrs + derive_clone_copy() + word("pub"@);
        let b = framework_marker("Prop"@, name) + framework_marker("Conjunction"@, name) + word("impl"@) + word(name) + group(
            Delim::Brace,
            new_fn_toks(rs),
        ) + word("impl"@) + framework_path("Sorry"@) + word("for"@) + word(name);
        let d = concat_seqs(rs.map_values(|r: MemberV| framework_has_prop(r, name)));
        assert(out =~= a + s + b + g + d);
        let k1 = a.len() as int;
        let k2 = (a.len() + s.len() + b.len()) as int;
        assert(out.subrange(k1, k1 + s.len()) =~= s);
        assert(out.subrange(k2, k2 + g.len()) =~= g);
        lemma_two_in_order(out, s, g, k1, k2);
    }
}

} // verus!
