use vstd::prelude::*;
use crate::case::{snake_case, to_snake_case};
use crate::error::{MacroError, ErrV};
use crate::tokens::{Delim, Tok, TokV, toks_view, extend_toks, mark, group, app_mark, app_group};
use crate::derive::lower::{NamedExpr, NamedV, named_name, nameds_view, lemma_nameds_view, refs_view};
use crate::derive::generics::{comma_list, lemma_comma_list_push, reference_spec};
use crate::derive::emit::conjunction::{
    ConjunctionMember, MemberV, members_view, resolve_spec, resolve_conjunction_members,
};

verus! {

/// References to the operands, in order.
pub fn child_refs(children: &Vec<NamedExpr>) -> (r: Vec<&NamedExpr>)
    ensures
        refs_view(r@) == nameds_view(children@),
{
    let ghost cv = nameds_view(children@);
    proof {
        lemma_nameds_view(children@);
    }
    let mut r: Vec<&NamedExpr> = Vec::new();
    let n = children.len();
    let mut i: usize = 0;
    while i < n
        invariant
            n == children@.len(),
            cv == nameds_view(children@),
            cv.len() == n,
            forall|j: int| 0 <= j < n ==> #[trigger] cv[j] == children@[j]@,
            i <= n,
            refs_view(r@) == cv.take(i as int),
        decreases n - i,
    {
        let ghost before = r@;
        let c = &children[i];
        r.push(c);
        assert(r@ =~= before.push(c));
        assert(refs_view(r@) =~= refs_view(before).push(cv[i as int]));
        assert(refs_view(r@) =~= cv.take(i + 1));
        i = i + 1;
    }
    assert(cv.take(n as int) =~= cv);
    r
}

/// The parameter that stands for a whole premise: its name in snake case, with the type
/// that names it.
pub open spec fn single_param_spec(n: NamedV) -> MemberV {
    MemberV { ty: reference_spec(n), field: snake_case(named_name(n)) }
}

/// The parameters of an implication's function type: one per member of a conjunction
/// premise (as that conjunction's fields), else one for the whole premise.
pub open spec fn premise_params_spec(p: NamedV) -> Result<Seq<MemberV>, ErrV> {
    match p {
        NamedV::And { children, .. } => resolve_spec(children),
        _ => Ok(seq![single_param_spec(p)]),
    }
}

/// A conjunction without members cannot be the conclusion of an implication.
pub open spec fn conclusion_ok(c: NamedV) -> bool {
    !(c matches NamedV::And { children, .. } && children.len() == 0)
}

/// The type an implication returns: a tuple of the members of a conjunction conclusion
/// (`(A,)` for one member), else the type that names the conclusion.
pub open spec fn conclusion_ty_spec(c: NamedV) -> Seq<TokV> {
    match c {
        NamedV::And { children, .. } => if children.len() == 1 {
            group(Delim::Paren, reference_spec(children[0]) + mark(','))
        } else {
            group(Delim::Paren, comma_list(children.map_values(|m: NamedV| reference_spec(m))))
        },
        _ => reference_spec(c),
    }
}

/// Whether the part is the conjunction of the given name.
pub open spec fn is_and_named(e: NamedV, target: Seq<char>) -> bool {
    e matches NamedV::And { name, .. } && name == target
}

/// Whether a conjunction of the given name is, anywhere in the expression, the premise or
/// the conclusion of an implication. Such a conjunction is spelled out in the
/// implication's function type and gets no struct of its own.
pub open spec fn and_operand_in(e: NamedV, target: Seq<char>) -> bool
    decreases e, 0nat,
{
    match e {
        NamedV::Imply { premise, conclusion, .. } => is_and_named(*premise, target) || is_and_named(*conclusion, target)
            || and_operand_in(*premise, target) || and_operand_in(*conclusion, target),
        NamedV::And { children, .. } => and_operand_in_list(children, target),
        NamedV::Or { children, .. } => and_operand_in_list(children, target),
        NamedV::Atom(_) => false,
    }
}

pub open spec fn and_operand_in_list(cs: Seq<NamedV>, target: Seq<char>) -> bool
    decreases cs, 1nat,
{
    if cs.len() == 0 {
        false
    } else {
        and_operand_in_list(cs.drop_last(), target) || and_operand_in(cs.last(), target)
    }
}

/// The parameter for a whole premise.
pub fn single_param(expr: &NamedExpr) -> (r: ConjunctionMember)
    ensures
        r@ == single_param_spec(expr@),
{
    let field = to_snake_case(expr.name().as_str());
    ConjunctionMember { ty: expr.reference_tokens(), field }
}

/// The parameters of an implication whose premise is the given part.
pub fn premise_params(premise: &NamedExpr) -> (r: Result<Vec<ConjunctionMember>, MacroError>)
    ensures
        match r {
            Ok(v) => premise_params_spec(premise@) == Ok::<Seq<MemberV>, ErrV>(members_view(v@)),
            Err(e) => premise_params_spec(premise@) == Err::<Seq<MemberV>, ErrV>(e@),
        },
{
    match premise {
        NamedExpr::And { children, .. } => {
            let members = child_refs(children);
            resolve_conjunction_members(&members)
        },
        _ => {
            let mut v: Vec<ConjunctionMember> = Vec::new();
            v.push(single_param(premise));
            assert(members_view(v@) =~= seq![single_param_spec(premise@)]);
            Ok(v)
        },
    }
}

/// The type an implication with the given conclusion returns.
pub fn conclusion_ty(conclusion: &NamedExpr) -> (r: Vec<Tok>)
    requires
        conclusion_ok(conclusion@),
    ensures
        toks_view(r@) == conclusion_ty_spec(conclusion@),
{
    match conclusion {
        NamedExpr::And { children, .. } => {
            let ghost cv = nameds_view(children@);
            proof {
                lemma_nameds_view(children@);
            }
            if children.len() == 1 {
                let mut inner = children[0].reference_tokens();
                app_mark(&mut inner, ',');
                let mut r: Vec<Tok> = Vec::new();
                app_group(&mut r, Delim::Paren, inner);
                assert(toks_view(r@) =~= conclusion_ty_spec(conclusion@));
                r
            } else {
                let mut inner: Vec<Tok> = Vec::new();
                let n = children.len();
                let mut i: usize = 0;
                assert(cv.map_values(|m: NamedV| reference_spec(m)).take(0) =~= seq![]);
                while i < n
                    invariant
                        n == children@.len(),
                        cv == nameds_view(children@),
                        cv.len() == n,
                        forall|j: int| 0 <= j < n ==> #[trigger] cv[j] == children@[j]@,
                        i <= n,
                        toks_view(inner@) == comma_list(cv.map_values(|m: NamedV| reference_spec(m)).take(i as int)),
                    decreases n - i,
                {
                    let ghost before = toks_view(inner@);
                    if i > 0 {
                        app_mark(&mut inner, ',');
                    }
                    let ghost mid = toks_view(inner@);
                    extend_toks(&mut inner, children[i].reference_tokens());
                    proof {
                        let items = cv.map_values(|m: NamedV| reference_spec(m));
                        assert(items.take(i + 1) =~= items.take(i as int).push(reference_spec(cv[i as int])));
                        lemma_comma_list_push(items.take(i as int), reference_spec(cv[i as int]));
                        if i == 0 {
                            assert(mid =~= seq![]);
                            assert(toks_view(inner@) =~= reference_spec(cv[i as int]));
                        }
                    }
                    i = i + 1;
                }
                assert(cv.map_values(|m: NamedV| reference_spec(m)).take(n as int) =~= cv.map_values(|m: NamedV| reference_spec(m)));
                let mut r: Vec<Tok> = Vec::new();
                app_group(&mut r, Delim::Paren, inner);
                assert(toks_view(r@) =~= conclusion_ty_spec(conclusion@));
                r
            }
        },
        _ => conclusion.reference_tokens(),
    }
}

fn and_operand_walk(expr: &NamedExpr, target: &String) -> (r: bool)
    ensures
        r == and_operand_in(expr@, target@),
    decreases expr,
{
    match expr {
        NamedExpr::Imply { premise, conclusion, .. } => {
            is_direct_and_operand(premise, target) || is_direct_and_operand(conclusion, target)
                || and_operand_walk(premise, target) || and_operand_walk(conclusion, target)
        },
        NamedExpr::And { children, .. } => and_operand_walk_list(children, target),
        NamedExpr::Or { children, .. } => and_operand_walk_list(children, target),
        NamedExpr::Atom(_) => false,
    }
}

fn and_operand_walk_list(children: &Vec<NamedExpr>, target: &String) -> (r: bool)
    ensures
        r == and_operand_in_list(nameds_view(children@), target@),
    decreases children,
{
    let ghost cv = nameds_view(children@);
    proof {
        lemma_nameds_view(children@);
    }
    let n = children.len();
    let mut i: usize = 0;
    let mut found = false;
    assert(cv.take(0) =~= seq![]);
    while i < n
        invariant
            n == children@.len(),
            cv == nameds_view(children@),
            cv.len() == n,
            forall|j: int| 0 <= j < n ==> #[trigger] cv[j] == children@[j]@,
            i <= n,
            found == and_operand_in_list(cv.take(i as int), target@),
        decreases n - i,
    {
        let here = and_operand_walk(&children[i], target);
        assert(cv.take(i + 1).drop_last() =~= cv.take(i as int));
        found = found || here;
        i = i + 1;
    }
    assert(cv.take(n as int) =~= cv);
    found
}

fn is_direct_and_operand(expr: &NamedExpr, target: &String) -> (r: bool)
    ensures
        r == is_and_named(expr@, target@),
{
    match expr {
        NamedExpr::And { name, .. } => *name == *target,
        _ => false,
    }
}

/// Whether the conjunction of the given name is the premise or the conclusion of an
/// implication somewhere in `root`.
pub fn is_implication_and_operand(and_name: &String, root: &NamedExpr) -> (r: bool)
    ensures
        r == and_operand_in(root@, and_name@),
{
    and_operand_walk(root, and_name)
}

} // verus!
