pub mod common;
pub mod conjunction;
pub mod members;
pub mod atomic;
pub mod disjunction;
pub mod implication;
pub mod obligation;

use vstd::prelude::*;
use crate::error::{MacroError, ErrV};
use crate::tokens::{Tok, TokV, toks_view, extend_toks, copy_toks};
use crate::derive::ast::{PropExpr, PropV, ProposeInput, InputV};
use crate::derive::lower::{NamedExpr, NamedV, named_name, refs_view, postorder, lower_spec, lower_propose, parts};
use crate::derive::generics::{GenericContext, binders_of};
use crate::derive::emit::atomic::{atomic_spec, emit_atomic};
use crate::derive::emit::conjunction::{emit_conjunction, emit_conjunction_spec};
use crate::derive::emit::disjunction::{emit_disjunction, emit_disjunction_spec};
use crate::derive::emit::implication::{emit_implication, emit_implication_spec};
use crate::derive::emit::members::{child_refs, conclusion_ok, and_operand_in, is_implication_and_operand};
use crate::derive::emit::obligation::{claim_obligation_spec, emit_claim_obligation};

verus! {

/// A part that is an implication has a conclusion it can return.
pub open spec fn imply_ok(n: NamedV) -> bool {
    n matches NamedV::Imply { conclusion, .. } ==> conclusion_ok(*conclusion)
}

/// Every implication among the parts has a conclusion it can return.
pub open spec fn implications_ok(n: NamedV) -> bool {
    forall|k: int| 0 <= k < postorder(n).len() ==> #[trigger] imply_ok(postorder(n)[k])
}

/// The attributes go to the item of the proposition's own name.
pub open spec fn node_attrs(attrs: Seq<TokV>, root_name: Seq<char>, n: NamedV) -> Seq<TokV> {
    if named_name(n) == root_name {
        attrs
    } else {
        seq![]
    }
}

/// The items of one part: a conjunction's struct (none for a conjunction that is the
/// premise or conclusion of an implication), a disjunction's enum, an implication's
/// function type, nothing for an atom. Each is generic over the parameters it binds.
pub open spec fn node_items(attrs: Seq<TokV>, root_name: Seq<char>, root: NamedV, n: NamedV) -> Result<Seq<TokV>, ErrV> {
    let a = node_attrs(attrs, root_name, n);
    let b = binders_of(n);
    match n {
        NamedV::And { name, children } => if and_operand_in(root, name) {
            Ok(seq![])
        } else {
            emit_conjunction_spec(a, name, children, b)
        },
        NamedV::Or { name, children } => emit_disjunction_spec(a, name, children, b),
        NamedV::Imply { name, premise, conclusion } => emit_implication_spec(a, name, *premise, *conclusion, b),
        NamedV::Atom(_) => Ok(seq![]),
    }
}

/// The items of the parts in order, or the first refusal.
pub open spec fn emit_nodes(attrs: Seq<TokV>, root_name: Seq<char>, root: NamedV, nodes: Seq<NamedV>) -> Result<Seq<TokV>, ErrV>
    decreases nodes.len(),
{
    if nodes.len() == 0 {
        Ok(seq![])
    } else {
        match emit_nodes(attrs, root_name, root, nodes.drop_last()) {
            Err(e) => Err(e),
            Ok(prev) => match node_items(attrs, root_name, root, nodes.last()) {
                Err(e) => Err(e),
                Ok(t) => Ok(prev + t),
            },
        }
    }
}

/// The items of a proposition with a defining expression: those of its parts in
/// post-order, operands before the parts they belong to.
pub open spec fn expr_spec(i: InputV, named: NamedV) -> Result<Seq<TokV>, ErrV> {
    emit_nodes(i.attrs, i.name, named, postorder(named))
}

/// The items of a proposition: an atomic one's struct, or the items of its parts.
pub open spec fn propose_spec(i: InputV, named: NamedV) -> Result<Seq<TokV>, ErrV> {
    if i.expr is None {
        Ok(atomic_spec(i.attrs, i.name, i.binders))
    } else {
        expr_spec(i, named)
    }
}

/// A refusal on a prefix of the parts is the refusal of all of them.
pub proof fn lemma_emit_nodes_err_prefix(attrs: Seq<TokV>, root_name: Seq<char>, root: NamedV, nodes: Seq<NamedV>, k: int)
    requires
        0 <= k <= nodes.len(),
        emit_nodes(attrs, root_name, root, nodes.take(k)) is Err,
    ensures
        emit_nodes(attrs, root_name, root, nodes) == emit_nodes(attrs, root_name, root, nodes.take(k)),
    decreases nodes.len(),
{
    if k == nodes.len() {
        assert(nodes.take(k) =~= nodes);
    } else {
        assert(nodes.drop_last().take(k) =~= nodes.take(k));
        lemma_emit_nodes_err_prefix(attrs, root_name, root, nodes.drop_last(), k);
    }
}

fn node_tokens(input: &ProposeInput, named: &NamedExpr, node: &NamedExpr) -> (r: Result<Vec<Tok>, MacroError>)
    requires
        imply_ok(node@),
    ensures
        match r {
            Ok(v) => node_items(input@.attrs, input@.name, named@, node@) == Ok::<Seq<TokV>, ErrV>(toks_view(v@)),
            Err(e) => node_items(input@.attrs, input@.name, named@, node@) == Err::<Seq<TokV>, ErrV>(e@),
        },
{
    let is_root = node.name() == input.name;
    let ctx = GenericContext::from_binders(node.collect_param_binders());
    let attrs = if is_root {
        copy_toks(&input.attrs)
    } else {
        let empty: Vec<Tok> = Vec::new();
        assert(toks_view(empty@) =~= seq![]);
        empty
    };
    match node {
        NamedExpr::And { name, children } => {
            if is_implication_and_operand(name, named) {
                let empty: Vec<Tok> = Vec::new();
                assert(toks_view(empty@) =~= seq![]);
                return Ok(empty);
            }
            let members = child_refs(children);
            emit_conjunction(&attrs, name, &members, &ctx)
        },
        NamedExpr::Or { name, children } => {
            let variants = child_refs(children);
            emit_disjunction(&attrs, name, &variants, &ctx)
        },
        NamedExpr::Imply { name, premise, conclusion } => emit_implication(&attrs, name, premise, conclusion, &ctx),
        NamedExpr::Atom(_) => {
            let empty: Vec<Tok> = Vec::new();
            assert(toks_view(empty@) =~= seq![]);
            Ok(empty)
        },
    }
}

/// The items of the parts of a proposition that has a defining expression.
pub fn expr_tokenstream(input: &ProposeInput, named: &NamedExpr) -> (r: Result<Vec<Tok>, MacroError>)
    requires
        implications_ok(named@),
    ensures
        match r {
            Ok(v) => expr_spec(input@, named@) == Ok::<Seq<TokV>, ErrV>(toks_view(v@)),
            Err(e) => expr_spec(input@, named@) == Err::<Seq<TokV>, ErrV>(e@),
        },
{
    let ghost iv = input@;
    let ghost nv = named@;
    let mut nodes: Vec<&NamedExpr> = Vec::new();
    named.collect_postorder(&mut nodes);
    let ghost ns = refs_view(nodes@);
    assert(ns =~= postorder(nv));
    let mut out: Vec<Tok> = Vec::new();
    let n = nodes.len();
    let mut i: usize = 0;
    assert(ns.take(0) =~= seq![]);
    assert(toks_view(out@) =~= seq![]);
    while i < n
        invariant
            n == nodes@.len(),
            ns == refs_view(nodes@),
            ns == postorder(nv),
            nv == named@,
            iv == input@,
            implications_ok(nv),
            i <= n,
            emit_nodes(iv.attrs, iv.name, nv, ns.take(i as int)) == Ok::<Seq<TokV>, ErrV>(toks_view(out@)),
        decreases n - i,
    {
        let node = nodes[i];
        assert(ns[i as int] == node@);
        assert(imply_ok(ns[i as int]));
        assert(ns.take(i + 1).drop_last() =~= ns.take(i as int));
        assert(ns.take(i + 1).last() == node@);
        match node_tokens(input, named, node) {
            Ok(t) => {
                extend_toks(&mut out, t);
            },
            Err(e) => {
                proof {
                    lemma_emit_nodes_err_prefix(iv.attrs, iv.name, nv, ns, i + 1);
                }
                return Err(e);
            },
        }
        i = i + 1;
    }
    assert(ns.take(n as int) =~= ns);
    Ok(out)
}

/// The items that `propose!` writes for an input and its named form.
pub fn emit_propose(input: ProposeInput, named: &NamedExpr) -> (r: Result<Vec<Tok>, MacroError>)
    requires
        input@.expr is Some ==> implications_ok(named@),
    ensures
        match r {
            Ok(v) => propose_spec(input@, named@) == Ok::<Seq<TokV>, ErrV>(toks_view(v@)),
            Err(e) => propose_spec(input@, named@) == Err::<Seq<TokV>, ErrV>(e@),
        },
{
    if input.expr.is_none() {
        let ctx = GenericContext::from_input(&input);
        Ok(emit_atomic(&input.attrs, &input.name, &ctx))
    } else {
        expr_tokenstream(&input, named)
    }
}

/// Whether a claim's expression is an implication: `P -> Q`, or `!P`, which stands for
/// `P -> Absurd`.
pub open spec fn claims_implication(e: Option<PropV>) -> bool {
    ||| e matches Some(PropV::Imply(_, _))
    ||| e matches Some(PropV::Not(_))
}

/// What `claim!` writes: a refusal unless the input is an implication (a negation being
/// one, of `Absurd`), else the proposition's items (or the refusal of naming or emitting
/// them) followed by the claim's obligation.
pub open spec fn claim_spec(i: InputV) -> Result<Seq<TokV>, ErrV> {
    if !claims_implication(i.expr) {
        Err(ErrV::NotAnImplication(i.name))
    } else {
        match lower_spec(i) {
            None => Err(ErrV::DisjunctionOperands(i.name)),
            Some(named) => match propose_spec(i, named) {
                Err(e) => Err(e),
                Ok(t) => Ok(t + claim_obligation_spec(i.name, i.binders)),
            },
        }
    }
}

/// The items of a claim: its proposition (which must be an implication) and the
/// obligation to prove it.
pub fn emit_claim(input: ProposeInput) -> (r: Result<Vec<Tok>, MacroError>)
    requires
        lower_spec(input@) matches Some(n) ==> implications_ok(n),
    ensures
        (input@.expr matches Some(x) && parts(x) > u32::MAX && claims_implication(input@.expr)) ==> (r matches Err(e) && e@ == ErrV::TooManyParts),
        !(input@.expr matches Some(x) && parts(x) > u32::MAX) ==> match r {
            Ok(v) => claim_spec(input@) == Ok::<Seq<TokV>, ErrV>(toks_view(v@)),
            Err(e) => claim_spec(input@) == Err::<Seq<TokV>, ErrV>(e@),
        },
{
    let is_implication = match &input.expr {
        Some(PropExpr::Imply(_, _)) => true,
        Some(PropExpr::Not(_)) => true,
        _ => false,
    };
    if !is_implication {
        return Err(MacroError::NotAnImplication(input.name.clone()));
    }
    let ctx = GenericContext::from_input(&input);
    let named = match lower_propose(input.copy()) {
        Ok(n) => n,
        Err(e) => return Err(e),
    };
    let name = input.name.clone();
    let mut out = match emit_propose(input, &named) {
        Ok(t) => t,
        Err(e) => return Err(e),
    };
    extend_toks(&mut out, emit_claim_obligation(&name, &ctx));
    Ok(out)
}

/// A claim must be an implication (a negation `!P` is one, of `Absurd`): any other input
/// is refused, naming the claim; an accepted claim's items end with its obligation.
pub proof fn law_claim_needs_implication(i: InputV)
    ensures
        !claims_implication(i.expr) ==> claim_spec(i) == Err::<Seq<TokV>, ErrV>(ErrV::NotAnImplication(i.name)),
        claim_spec(i) is Ok ==> claims_implication(i.expr) && exists|t: Seq<TokV>|
            claim_spec(i) == Ok::<Seq<TokV>, ErrV>(t + claim_obligation_spec(i.name, i.binders)),
{
    if claim_spec(i) is Ok {
        let named = lower_spec(i)->Some_0;
        let t = propose_spec(i, named)->Ok_0;
        assert(claim_spec(i) == Ok::<Seq<TokV>, ErrV>(t + claim_obligation_spec(i.name, i.binders)));
    }
}

} // verus!
