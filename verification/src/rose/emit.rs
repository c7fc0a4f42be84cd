use vstd::prelude::*;
use crate::error::{MacroError, ErrV};
use crate::lexer::lex_spec;
use crate::tokens::{Delim, Tok, TokV, toks_view, extend_toks, copy_toks, push_tok, render, word, mark, group, word_toks, app_word, app_name, app_mark, app_group};
use crate::derive::ast::strings_view;
use crate::derive::api::{name_atoms, atoms_of, answers};
use crate::derive::generics::comma_list;
use crate::derive::emit::common::{
    arrow, derive_clone_copy, framework_path, concat_seqs, push_arrow, push_derive_clone_copy, push_framework_path,
    in_order, lemma_concat_in_order,
};
use crate::derive::emit::members::child_refs;
use crate::derive::emit::disjunction::{variant_toks, from_impl, variants_tokens, from_impls_tokens, from_operand_item, lemma_from_impl_is_item};
use crate::macros::emit::{
    framework_marker, sorry_fn, private_field, sorry_first_variant, sorry_first_variant_tokens,
    emit_conjunction, emit_conjunction_spec,
};
use crate::rose::ast::{ProposeInput, InputV, NamedPropExpr, NamedPropV, NamedShape, ShapeV, named_props_view, lemma_named_props_view};
use crate::rose::parse::sp_rose_input;
use crate::rose::lower::{lower_propose, rose_lower_spec, composites};

verus! {

/// Whether a disjunction is declared by `propose!` or by `claim!`.
#[derive(Clone, Copy)]
pub enum ProposeKind {
    Proposition,
    Claim,
}

/// `pub(crate) fn provide<P: crate::framework::ProvideProp<Self>>(_provider: &P) -> Self { body }`.
pub open spec fn provide_fn(body: Seq<TokV>) -> Seq<TokV> {
    word("pub"@) + group(Delim::Paren, word("crate"@)) + word("fn"@) + word("provide"@) + mark('<') + word("P"@) + mark(':')
        + framework_path("ProvideProp"@) + mark('<') + word("Self"@) + seq![TokV::Punct('>', true)] + mark('>') + group(
        Delim::Paren,
        word("_provider"@) + mark(':') + mark('&') + word("P"@),
    ) + arrow() + word("Self"@) + group(Delim::Brace, body)
}

fn provide_fn_tokens(body: Vec<Tok>) -> (r: Vec<Tok>)
    ensures
        toks_view(r@) == provide_fn(toks_view(body@)),
{
    let mut param = word_toks("_provider");
    app_mark(&mut param, ':');
    app_mark(&mut param, '&');
    app_word(&mut param, "P");
    let mut r = word_toks("pub");
    app_group(&mut r, Delim::Paren, word_toks("crate"));
    app_word(&mut r, "fn");
    app_word(&mut r, "provide");
    app_mark(&mut r, '<');
    app_word(&mut r, "P");
    app_mark(&mut r, ':');
    push_framework_path(&mut r, "ProvideProp");
    app_mark(&mut r, '<');
    app_word(&mut r, "Self");
    let ghost before = toks_view(r@);
    push_tok(&mut r, Tok::Punct('>', true));
    assert(toks_view(r@) =~= before + seq![TokV::Punct('>', true)]);
    app_mark(&mut r, '>');
    app_group(&mut r, Delim::Paren, param);
    push_arrow(&mut r);
    app_word(&mut r, "Self");
    app_group(&mut r, Delim::Brace, body);
    r
}

/// The items of an atomic fact: a `Clone + Copy` struct with a private unit field, its
/// `Prop` impl, a crate-private `provide` for the stages that may introduce it, and a
/// `Sorry` impl.
pub open spec fn atomic_spec(attrs: Seq<TokV>, name: Seq<char>) -> Seq<TokV> {
    let make = word("Self"@) + group(Delim::Brace, private_field());
    attrs + derive_clone_copy() + word("pub"@) + word("struct"@) + word(name) + group(Delim::Brace, private_field() + mark(','))
        + framework_marker("Prop"@, name) + word("impl"@) + word(name) + group(Delim::Brace, provide_fn(make))
        + word("impl"@) + framework_path("Sorry"@) + word("for"@) + word(name) + group(Delim::Brace, sorry_fn(make))
}

fn make_tokens() -> (r: Vec<Tok>)
    ensures
        toks_view(r@) == word("Self"@) + group(Delim::Brace, private_field()),
{
    let mut field = word_toks("_private");
    app_mark(&mut field, ':');
    let empty: Vec<Tok> = Vec::new();
    assert(toks_view(empty@) =~= seq![]);
    app_group(&mut field, Delim::Paren, empty);
    let mut r = word_toks("Self");
    app_group(&mut r, Delim::Brace, field);
    r
}

/// The items of an atomic fact.
pub fn emit_atomic(attrs: &Vec<Tok>, name: &String) -> (r: Vec<Tok>)
    ensures
        toks_view(r@) == atomic_spec(toks_view(attrs@), name@),
{
    let mut field = word_toks("_private");
    app_mark(&mut field, ':');
    let empty: Vec<Tok> = Vec::new();
    assert(toks_view(empty@) =~= seq![]);
    app_group(&mut field, Delim::Paren, empty);
    app_mark(&mut field, ',');
    let mut marker = word_toks("impl");
    push_framework_path(&mut marker, "Prop");
    app_word(&mut marker, "for");
    app_name(&mut marker, name);
    let empty2: Vec<Tok> = Vec::new();
    assert(toks_view(empty2@) =~= seq![]);
    app_group(&mut marker, Delim::Brace, empty2);
    let mut sorry_body = word_toks("fn");
    app_word(&mut sorry_body, "sorry");
    let empty3: Vec<Tok> = Vec::new();
    assert(toks_view(empty3@) =~= seq![]);
    app_group(&mut sorry_body, Delim::Paren, empty3);
    push_arrow(&mut sorry_body);
    app_word(&mut sorry_body, "Self");
    app_group(&mut sorry_body, Delim::Brace, make_tokens());
    let mut out = copy_toks(attrs);
    push_derive_clone_copy(&mut out);
    app_word(&mut out, "pub");
    app_word(&mut out, "struct");
    app_name(&mut out, name);
    app_group(&mut out, Delim::Brace, field);
    extend_toks(&mut out, marker);
    app_word(&mut out, "impl");
    app_name(&mut out, name);
    app_group(&mut out, Delim::Brace, provide_fn_tokens(make_tokens()));
    app_word(&mut out, "impl");
    push_framework_path(&mut out, "Sorry");
    app_word(&mut out, "for");
    app_name(&mut out, name);
    app_group(&mut out, Delim::Brace, sorry_body);
    out
}

/// The items of a disjunction of facts: its enum, `Prop` and `Disjunction` impls, a `From`
/// impl per variant, and a `Sorry` impl through the first variant. A disjunction is never
/// provided without proof (only atomic facts are): a value of it comes from one of its
/// variants.
pub open spec fn disjunction_spec(attrs: Seq<TokV>, name: Seq<char>, vs: Seq<Seq<char>>) -> Seq<TokV> {
    let atoms = name_atoms(vs);
    let sorry_path = framework_path("Sorry"@);
    attrs + derive_clone_copy() + word("pub"@) + word("enum"@) + word(name) + group(
        Delim::Brace,
        comma_list(atoms.map_values(|v: crate::derive::lower::NamedV| variant_toks(v))),
    ) + framework_marker("Prop"@, name) + framework_marker("Disjunction"@, name) + concat_seqs(
        atoms.map_values(|v: crate::derive::lower::NamedV| from_impl(v, name, seq![])),
    ) + sorry_first_variant(name, vs[0], sorry_path)
}

/// What `emit_disjunction` gives: a refusal with fewer than two variants, else the items.
pub open spec fn emit_disjunction_spec(attrs: Seq<TokV>, name: Seq<char>, vs: Seq<Seq<char>>) -> Result<Seq<TokV>, ErrV> {
    if vs.len() < 2 {
        Err(ErrV::TooFewVariants(name))
    } else {
        Ok(disjunction_spec(attrs, name, vs))
    }
}

/// The items of a disjunction of the facts of the given names. Propositions and claims
/// get the same items: neither kind of disjunction may be introduced without proof.
pub fn emit_disjunction(attrs: &Vec<Tok>, name: &String, variants: &Vec<String>, _kind: ProposeKind) -> (r: Result<Vec<Tok>, MacroError>)
    ensures
        match r {
            Ok(v) => emit_disjunction_spec(toks_view(attrs@), name@, strings_view(variants@)) == Ok::<Seq<TokV>, ErrV>(toks_view(v@)),
            Err(e) => emit_disjunction_spec(toks_view(attrs@), name@, strings_view(variants@)) == Err::<Seq<TokV>, ErrV>(e@),
        },
{
    if variants.len() < 2 {
        return Err(MacroError::TooFewVariants(name.clone()));
    }
    let atoms = atoms_of(variants);
    let refs = child_refs(&atoms);
    let empty_binders: Vec<String> = Vec::new();
    assert(strings_view(empty_binders@) =~= seq![]);
    let mut out = copy_toks(attrs);
    push_derive_clone_copy(&mut out);
    app_word(&mut out, "pub");
    app_word(&mut out, "enum");
    app_name(&mut out, name);
    app_group(&mut out, Delim::Brace, variants_tokens(&refs));
    let mut m1 = word_toks("impl");
    push_framework_path(&mut m1, "Prop");
    app_word(&mut m1, "for");
    app_name(&mut m1, name);
    let e1: Vec<Tok> = Vec::new();
    assert(toks_view(e1@) =~= seq![]);
    app_group(&mut m1, Delim::Brace, e1);
    extend_toks(&mut out, m1);
    let mut m2 = word_toks("impl");
    push_framework_path(&mut m2, "Disjunction");
    app_word(&mut m2, "for");
    app_name(&mut m2, name);
    let e2: Vec<Tok> = Vec::new();
    assert(toks_view(e2@) =~= seq![]);
    app_group(&mut m2, Delim::Brace, e2);
    extend_toks(&mut out, m2);
    extend_toks(&mut out, from_impls_tokens(name, &empty_binders, &refs));
    extend_toks(&mut out, sorry_first_variant_tokens(name, &variants[0], true));
    Ok(out)
}

/// The parts of a named proposition in post-order: operands before the part they
/// belong to.
pub open spec fn rose_postorder(n: NamedPropV) -> Seq<NamedPropV>
    decreases n, 1int,
{
    match n.expr {
        ShapeV::Atom => seq![n],
        ShapeV::And(cs) => rose_postorder_list(cs) + seq![n],
        ShapeV::Or(cs) => rose_postorder_list(cs) + seq![n],
    }
}

pub open spec fn rose_postorder_list(cs: Seq<NamedPropV>) -> Seq<NamedPropV>
    decreases cs, 0int,
{
    if cs.len() == 0 {
        seq![]
    } else {
        rose_postorder_list(cs.drop_last()) + rose_postorder(cs.last())
    }
}

pub open spec fn rose_refs_view(v: Seq<&NamedPropExpr>) -> Seq<NamedPropV> {
    v.map_values(|n: &NamedPropExpr| n@)
}

impl NamedPropExpr {
    /// Appends the parts in post-order.
    pub fn collect_postorder<'a>(&'a self, out: &mut Vec<&'a NamedPropExpr>)
        ensures
            rose_refs_view(final(out)@) == rose_refs_view(old(out)@) + rose_postorder(self@),
        decreases self,
    {
        let ghost start = rose_refs_view(out@);
        match &self.expr {
            NamedShape::Atom => {},
            NamedShape::And(children) => {
                collect_postorder_list(children, out);
            },
            NamedShape::Or(children) => {
                collect_postorder_list(children, out);
            },
        }
        let ghost before = rose_refs_view(out@);
        out.push(self);
        assert(rose_refs_view(out@) =~= before.push(self@));
        assert(rose_refs_view(out@) =~= start + rose_postorder(self@));
    }
}

fn collect_postorder_list<'a>(children: &'a Vec<NamedPropExpr>, out: &mut Vec<&'a NamedPropExpr>)
    ensures
        rose_refs_view(final(out)@) == rose_refs_view(old(out)@) + rose_postorder_list(named_props_view(children@)),
    decreases children,
{
    let ghost start = rose_refs_view(out@);
    let ghost cv = named_props_view(children@);
    proof {
        lemma_named_props_view(children@);
        assert(cv.take(0) =~= seq![]);
    }
    let n = children.len();
    let mut i: usize = 0;
    while i < n
        invariant
            n == children@.len(),
            cv == named_props_view(children@),
            cv.len() == n,
            forall|j: int| 0 <= j < n ==> #[trigger] cv[j] == children@[j]@,
            i <= n,
            rose_refs_view(out@) == start + rose_postorder_list(cv.take(i as int)),
        decreases n - i,
    {
        children[i].collect_postorder(out);
        proof {
            assert(cv.take(i + 1).drop_last() =~= cv.take(i as int));
            assert(cv.take(i + 1).last() == children@[i as int]@);
        }
        assert(rose_refs_view(out@) =~= start + rose_postorder_list(cv.take(i + 1)));
        i = i + 1;
    }
    assert(cv.take(n as int) =~= cv);
}

/// The names of the operands, in order.
pub open spec fn rose_names(cs: Seq<NamedPropV>) -> Seq<Seq<char>> {
    cs.map_values(|c: NamedPropV| c.name)
}

fn operand_names(children: &Vec<NamedPropExpr>) -> (r: Vec<String>)
    ensures
        strings_view(r@) == rose_names(named_props_view(children@)),
{
    let ghost cv = named_props_view(children@);
    proof {
        lemma_named_props_view(children@);
    }
    let mut r: Vec<String> = Vec::new();
    let n = children.len();
    let mut i: usize = 0;
    while i < n
        invariant
            n == children@.len(),
            cv == named_props_view(children@),
            cv.len() == n,
            forall|j: int| 0 <= j < n ==> #[trigger] cv[j] == children@[j]@,
            i <= n,
            strings_view(r@) == rose_names(cv).take(i as int),
        decreases n - i,
    {
        let ghost before = strings_view(r@);
        let nm = children[i].name.clone();
        r.push(nm);
        assert(strings_view(r@) =~= before.push(nm@));
        assert(rose_names(cv).take(i + 1) =~= rose_names(cv).take(i as int).push(cv[i as int].name));
        i = i + 1;
    }
    assert(rose_names(cv).take(n as int) =~= rose_names(cv));
    r
}

/// The items of one part: a conjunction's struct and a disjunction's enum (with the
/// attributes when the part carries the proposition's own name), nothing for an atom.
pub open spec fn node_items(attrs: Seq<TokV>, root_name: Seq<char>, n: NamedPropV) -> Result<Seq<TokV>, ErrV> {
    let a = if n.name == root_name { attrs } else { seq![] };
    match n.expr {
        ShapeV::And(cs) => emit_conjunction_spec(a, n.name, rose_names(cs)),
        ShapeV::Or(cs) => emit_disjunction_spec(a, n.name, rose_names(cs)),
        ShapeV::Atom => Ok(seq![]),
    }
}

/// The items of the parts in order, or the first refusal.
pub open spec fn emit_nodes(attrs: Seq<TokV>, root_name: Seq<char>, nodes: Seq<NamedPropV>) -> Result<Seq<TokV>, ErrV>
    decreases nodes.len(),
{
    if nodes.len() == 0 {
        Ok(seq![])
    } else {
        match emit_nodes(attrs, root_name, nodes.drop_last()) {
            Err(e) => Err(e),
            Ok(prev) => match node_items(attrs, root_name, nodes.last()) {
                Err(e) => Err(e),
                Ok(t) => Ok(prev + t),
            },
        }
    }
}

proof fn lemma_emit_nodes_err(attrs: Seq<TokV>, root_name: Seq<char>, nodes: Seq<NamedPropV>, k: int)
    requires
        0 <= k <= nodes.len(),
        emit_nodes(attrs, root_name, nodes.take(k)) is Err,
    ensures
        emit_nodes(attrs, root_name, nodes) == emit_nodes(attrs, root_name, nodes.take(k)),
    decreases nodes.len(),
{
    if k == nodes.len() {
        assert(nodes.take(k) =~= nodes);
    } else {
        assert(nodes.drop_last().take(k) =~= nodes.take(k));
        lemma_emit_nodes_err(attrs, root_name, nodes.drop_last(), k);
    }
}

/// What `propose!` writes: an atomic fact's items, or those of the parts in post-order.
pub open spec fn propose_spec(i: InputV, named: NamedPropV) -> Result<Seq<TokV>, ErrV> {
    if i.expr is None {
        Ok(atomic_spec(i.attrs, i.name))
    } else {
        emit_nodes(i.attrs, i.name, rose_postorder(named))
    }
}

fn node_tokens(input: &ProposeInput, node: &NamedPropExpr) -> (r: Result<Vec<Tok>, MacroError>)
    ensures
        match r {
            Ok(v) => node_items(input@.attrs, input@.name, node@) == Ok::<Seq<TokV>, ErrV>(toks_view(v@)),
            Err(e) => node_items(input@.attrs, input@.name, node@) == Err::<Seq<TokV>, ErrV>(e@),
        },
{
    let attrs = if node.name == input.name {
        copy_toks(&input.attrs)
    } else {
        let empty: Vec<Tok> = Vec::new();
        assert(toks_view(empty@) =~= seq![]);
        empty
    };
    match &node.expr {
        NamedShape::And(children) => emit_conjunction(&attrs, &node.name, &operand_names(children)),
        NamedShape::Or(children) => emit_disjunction(&attrs, &node.name, &operand_names(children), ProposeKind::Proposition),
        NamedShape::Atom => {
            let empty: Vec<Tok> = Vec::new();
            assert(toks_view(empty@) =~= seq![]);
            Ok(empty)
        },
    }
}

/// The items of the parts of a proposition that has a defining expression.
pub fn expr_tokenstream(input: &ProposeInput, named: &NamedPropExpr) -> (r: Result<Vec<Tok>, MacroError>)
    ensures
        match r {
            Ok(v) => emit_nodes(input@.attrs, input@.name, rose_postorder(named@)) == Ok::<Seq<TokV>, ErrV>(toks_view(v@)),
            Err(e) => emit_nodes(input@.attrs, input@.name, rose_postorder(named@)) == Err::<Seq<TokV>, ErrV>(e@),
        },
{
    let ghost iv = input@;
    let mut nodes: Vec<&NamedPropExpr> = Vec::new();
    named.collect_postorder(&mut nodes);
    let ghost ns = rose_refs_view(nodes@);
    assert(ns =~= rose_postorder(named@));
    let mut out: Vec<Tok> = Vec::new();
    let n = nodes.len();
    let mut i: usize = 0;
    assert(ns.take(0) =~= seq![]);
    assert(toks_view(out@) =~= seq![]);
    while i < n
        invariant
            n == nodes@.len(),
            ns == rose_refs_view(nodes@),
            ns == rose_postorder(named@),
            iv == input@,
            i <= n,
            emit_nodes(iv.attrs, iv.name, ns.take(i as int)) == Ok::<Seq<TokV>, ErrV>(toks_view(out@)),
        decreases n - i,
    {
        let node = nodes[i];
        assert(ns[i as int] == node@);
        assert(ns.take(i + 1).drop_last() =~= ns.take(i as int));
        assert(ns.take(i + 1).last() == node@);
        match node_tokens(input, node) {
            Ok(t) => {
                extend_toks(&mut out, t);
            },
            Err(e) => {
                proof {
                    lemma_emit_nodes_err(iv.attrs, iv.name, ns, i + 1);
                }
                return Err(e);
            },
        }
        i = i + 1;
    }
    assert(ns.take(n as int) =~= ns);
    Ok(out)
}

/// The items that `propose!` writes for an input and its named form.
pub fn emit_propose(input: ProposeInput, named: &NamedPropExpr) -> (r: Result<Vec<Tok>, MacroError>)
    ensures
        match r {
            Ok(v) => propose_spec(input@, named@) == Ok::<Seq<TokV>, ErrV>(toks_view(v@)),
            Err(e) => propose_spec(input@, named@) == Err::<Seq<TokV>, ErrV>(e@),
        },
{
    if input.expr.is_none() {
        Ok(emit_atomic(&input.attrs, &input.name))
    } else {
        expr_tokenstream(&input, named)
    }
}

/// What `propose!` writes for a read input: refused when the expression has more parts
/// than can be named or a disjunction has fewer than two operands, else the items.
pub open spec fn propose_input_spec(i: InputV) -> Result<Seq<TokV>, ErrV> {
    if i.expr matches Some(x) && composites(x) >= u32::MAX {
        Err(ErrV::TooManyParts)
    } else {
        match rose_lower_spec(i) {
            None => Err(ErrV::DisjunctionOperands(i.name)),
            Some(n) => propose_spec(i, n),
        }
    }
}

/// `propose!` of the fact language: the items of a proposition.
pub fn propose(text: &str) -> (r: Result<String, MacroError>)
    ensures
        match lex_spec(text@) {
            None => r matches Err(e) && e is Lex,
            Some(ts) => match sp_rose_input(ts) {
                None => r matches Err(e) && e is Syntax,
                Some(i) => answers(r, propose_input_spec(i)),
            },
        },
{
    let input = match ProposeInput::parse(text) {
        Ok(v) => v,
        Err(e) => return Err(e),
    };
    let copy = ProposeInput { attrs: copy_toks(&input.attrs), name: input.name.clone(), expr: None };
    let has_expr = input.expr.is_some();
    let ghost iv = input@;
    let named = match lower_propose(input) {
        Ok(n) => n,
        Err(e) => return Err(e),
    };
    let items = if has_expr {
        expr_tokenstream(&copy, &named)
    } else {
        Ok(emit_atomic(&copy.attrs, &copy.name))
    };
    match items {
        Ok(t) => Ok(render(&t)),
        Err(e) => Err(e),
    }
}

} // verus!

verus! {

/// Every operand of a disjunction of facts, whatever their number, becomes a value of it:
/// the items hold one `From` impl per operand, in the operands' order.
pub proof fn law_fact_disjunction_from_every_operand(attrs: Seq<TokV>, name: Seq<char>, vs: Seq<Seq<char>>)
    requires
        vs.len() >= 2,
    ensures
        emit_disjunction_spec(attrs, name, vs) matches Ok(out) && in_order(
            out,
            name_atoms(vs).map_values(|v: crate::derive::lower::NamedV| from_operand_item(v, name, seq![])),
        ),
{
    let atoms = name_atoms(vs);
    let parts = atoms.map_values(|v: crate::derive::lower::NamedV| from_impl(v, name, seq![]));
    let pre = attrs + derive_clone_copy() + word("pub"@) + word("enum"@) + word(name) + group(
        Delim::Brace,
        comma_list(atoms.map_values(|v: crate::derive::lower::NamedV| variant_toks(v))),
    ) + framework_marker("Prop"@, name) + framework_marker("Disjunction"@, name);
    let post = sorry_first_variant(name, vs[0], framework_path("Sorry"@));
    lemma_concat_in_order(pre, parts, post);
    assert(disjunction_spec(attrs, name, vs) =~= pre + concat_seqs(parts) + post);
    assert forall|i: int| 0 <= i < atoms.len() implies #[trigger] parts[i] == from_operand_item(atoms[i], name, seq![]) by {
        lemma_from_impl_is_item(atoms[i], name, seq![]);
    }
    assert(parts =~= atoms.map_values(|v: crate::derive::lower::NamedV| from_operand_item(v, name, seq![])));
}

} // verus!
