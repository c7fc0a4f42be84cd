use vstd::prelude::*;
use crate::error::{MacroError, ErrV};
use crate::rose::ast::{PropExpr, PropV, prop_view, props_view, lemma_props_view};
use crate::rose::lower::{NameFactory, rose_name, composites, composites_list, lemma_composites_prefix};

verus! {

/// An expression in which every composite part carries the factory name it was given.
#[derive(Debug)]
pub enum NamedExpr {
    Atom(String),
    And { name: String, children: Vec<NamedExpr> },
    Or { name: String, children: Vec<NamedExpr> },
}

pub enum NamedExprV {
    Atom(Seq<char>),
    And { name: Seq<char>, children: Seq<NamedExprV> },
    Or { name: Seq<char>, children: Seq<NamedExprV> },
}

pub open spec fn named_expr_view(n: NamedExpr) -> NamedExprV
    decreases n,
{
    match n {
        NamedExpr::Atom(a) => NamedExprV::Atom(a@),
        NamedExpr::And { name, children } => {
            proof {
                assert(decreases_to!(children => children@));
            }
            NamedExprV::And { name: name@, children: named_exprs_view(children@) }
        },
        NamedExpr::Or { name, children } => {
            proof {
                assert(decreases_to!(children => children@));
            }
            NamedExprV::Or { name: name@, children: named_exprs_view(children@) }
        },
    }
}

pub open spec fn named_exprs_view(v: Seq<NamedExpr>) -> Seq<NamedExprV>
    decreases v,
{
    if v.len() == 0 {
        seq![]
    } else {
        named_exprs_view(v.drop_last()).push(named_expr_view(v.last()))
    }
}

impl View for NamedExpr {
    type V = NamedExprV;

    open spec fn view(&self) -> NamedExprV {
        named_expr_view(*self)
    }
}

pub proof fn lemma_named_exprs_view(v: Seq<NamedExpr>)
    ensures
        named_exprs_view(v).len() == v.len(),
        forall|i: int| 0 <= i < v.len() ==> #[trigger] named_exprs_view(v)[i] == named_expr_view(v[i]),
    decreases v.len(),
{
    if v.len() > 0 {
        lemma_named_exprs_view(v.drop_last());
    }
}

/// The name of a part: the atom's name, or the name the part was given.
pub open spec fn expr_name(n: NamedExprV) -> Seq<char> {
    match n {
        NamedExprV::Atom(a) => a,
        NamedExprV::And { name, .. } => name,
        NamedExprV::Or { name, .. } => name,
    }
}

/// The named form of an expression with the factory's counter before and after: every
/// composite part takes the factory's next name after its operands are named (post-order);
/// a disjunction needs at least two operands.
pub open spec fn post_named(e: PropV, base: Seq<char>, c: nat) -> Option<(NamedExprV, nat)>
    decreases e, 1int,
{
    match e {
        PropV::Atom(a) => Some((NamedExprV::Atom(a), c)),
        PropV::And(cs) => match post_named_list(cs, base, c) {
            Some((ns, c1)) => Some((NamedExprV::And { name: rose_name(base, c1), children: ns }, c1 + 1)),
            None => None,
        },
        PropV::Or(cs) => if cs.len() < 2 {
            None
        } else {
            match post_named_list(cs, base, c) {
                Some((ns, c1)) => Some((NamedExprV::Or { name: rose_name(base, c1), children: ns }, c1 + 1)),
                None => None,
            }
        },
    }
}

pub open spec fn post_named_list(cs: Seq<PropV>, base: Seq<char>, c: nat) -> Option<(Seq<NamedExprV>, nat)>
    decreases cs, 0int,
{
    if cs.len() == 0 {
        Some((seq![], c))
    } else {
        match post_named_list(cs.drop_last(), base, c) {
            Some((ns, c1)) => match post_named(cs.last(), base, c1) {
                Some((n, c2)) => Some((ns.push(n), c2)),
                None => None,
            },
            None => None,
        }
    }
}

/// Naming moves the counter on by the number of composite parts.
pub proof fn lemma_post_count(e: PropV, base: Seq<char>, c: nat)
    ensures
        post_named(e, base, c) matches Some((_, c2)) ==> c2 == c + composites(e),
    decreases e, 1int,
{
    match e {
        PropV::Atom(_) => {},
        PropV::And(cs) => lemma_post_list_count(cs, base, c),
        PropV::Or(cs) => lemma_post_list_count(cs, base, c),
    }
}

pub proof fn lemma_post_list_count(cs: Seq<PropV>, base: Seq<char>, c: nat)
    ensures
        post_named_list(cs, base, c) matches Some((_, c2)) ==> c2 == c + composites_list(cs),
    decreases cs, 0int,
{
    if cs.len() > 0 {
        lemma_post_list_count(cs.drop_last(), base, c);
        match post_named_list(cs.drop_last(), base, c) {
            Some((_, c1)) => lemma_post_count(cs.last(), base, c1),
            None => {},
        }
    }
}

proof fn lemma_post_list_none(cs: Seq<PropV>, base: Seq<char>, c: nat, k: int)
    requires
        0 <= k <= cs.len(),
        post_named_list(cs.take(k), base, c) is None,
    ensures
        post_named_list(cs, base, c) is None,
    decreases cs.len(),
{
    if k == cs.len() {
        assert(cs.take(k) =~= cs);
    } else {
        assert(cs.drop_last().take(k) =~= cs.take(k));
        lemma_post_list_none(cs.drop_last(), base, c, k);
    }
}

fn named_children(children: Vec<PropExpr>, factory: &mut NameFactory) -> (r: Result<Vec<NamedExpr>, MacroError>)
    requires
        old(factory).counter + composites_list(props_view(children@)) <= u32::MAX,
    ensures
        final(factory).base == old(factory).base,
        r matches Ok(ns) ==> post_named_list(props_view(children@), old(factory).base@, old(factory).counter as nat)
            == Some((named_exprs_view(ns@), final(factory).counter as nat)),
        r matches Err(e) ==> post_named_list(props_view(children@), old(factory).base@, old(factory).counter as nat)
            is None && e@ == ErrV::DisjunctionOperands(old(factory).base@),
    decreases props_view(children@), 0int,
{
    let ghost all = children@;
    let ghost pv = props_view(all);
    let ghost base = factory.base@;
    let ghost c0 = factory.counter as nat;
    let mut children = children;
    let mut out: Vec<NamedExpr> = Vec::new();
    let n = children.len();
    let mut i: usize = 0;
    proof {
        lemma_props_view(all);
        assert(pv.take(0) =~= seq![]);
        assert(named_exprs_view(out@) =~= seq![]);
    }
    #[verifier::loop_isolation(false)]
    while children.len() > 0
        invariant
            n == all.len(),
            pv == props_view(all),
            pv.len() == n,
            forall|j: int| 0 <= j < n ==> #[trigger] pv[j] == prop_view(all[j]),
            i + children@.len() == n,
            children@ == all.subrange(i as int, n as int),
            factory.base@ == base,
            factory.base == old(factory).base,
            c0 == old(factory).counter,
            c0 + composites_list(pv) <= u32::MAX,
            post_named_list(pv.take(i as int), base, c0) == Some((named_exprs_view(out@), factory.counter as nat)),
            factory.counter == c0 + composites_list(pv.take(i as int)),
        decreases children@.len(),
    {
        let child = children.remove(0);
        proof {
            assert(child == all[i as int]);
            assert(pv[i as int] == prop_view(child));
            assert(pv.take(i + 1).drop_last() =~= pv.take(i as int));
            assert(pv.take(i + 1).last() == prop_view(child));
            lemma_composites_prefix(pv, i as int);
            assert(decreases_to!(pv => pv[i as int]));
        }
        let ghost cnt = factory.counter as nat;
        let named = match child.into_named(factory) {
            Ok(nm) => nm,
            Err(e) => {
                proof {
                    lemma_post_list_none(pv, base, c0, i + 1);
                }
                return Err(e);
            },
        };
        proof {
            lemma_post_count(prop_view(child), base, cnt);
            assert(out@.push(named).drop_last() =~= out@);
        }
        out.push(named);
        assert(children@ =~= all.subrange(i + 1, n as int));
        i = i + 1;
    }
    assert(pv.take(n as int) =~= pv);
    Ok(out)
}

impl PropExpr {
    /// Names every composite part with the factory's next name, operands first; fails on
    /// a disjunction of fewer than two operands.
    pub fn into_named(self, factory: &mut NameFactory) -> (r: Result<NamedExpr, MacroError>)
        requires
            old(factory).counter + composites(self@) <= u32::MAX,
        ensures
            final(factory).base == old(factory).base,
            r matches Ok(n) ==> post_named(self@, old(factory).base@, old(factory).counter as nat)
                == Some((n@, final(factory).counter as nat)),
            r matches Err(e) ==> post_named(self@, old(factory).base@, old(factory).counter as nat) is None
                && e@ == ErrV::DisjunctionOperands(old(factory).base@),
        decreases self@, 1int,
    {
        let ghost base = factory.base@;
        let ghost c0 = factory.counter as nat;
        match self {
            PropExpr::Atom(a) => Ok(NamedExpr::Atom(a)),
            PropExpr::And(children) => {
                let ghost cv = props_view(children@);
                let named = match named_children(children, factory) {
                    Ok(v) => v,
                    Err(e) => return Err(e),
                };
                proof {
                    lemma_post_list_count(cv, base, c0);
                }
                let name = factory.next();
                Ok(NamedExpr::And { name, children: named })
            },
            PropExpr::Or(children) => {
                proof {
                    lemma_props_view(children@);
                }
                if children.len() < 2 {
                    return Err(MacroError::DisjunctionOperands(factory.base.clone()));
                }
                let ghost cv = props_view(children@);
                let named = match named_children(children, factory) {
                    Ok(v) => v,
                    Err(e) => return Err(e),
                };
                proof {
                    lemma_post_list_count(cv, base, c0);
                }
                let name = factory.next();
                Ok(NamedExpr::Or { name, children: named })
            },
        }
    }
}

/// The parts in post-order: operands before the part they belong to.
pub open spec fn expr_postorder(n: NamedExprV) -> Seq<NamedExprV>
    decreases n, 1int,
{
    match n {
        NamedExprV::Atom(_) => seq![n],
        NamedExprV::And { children, .. } => expr_postorder_list(children).push(n),
        NamedExprV::Or { children, .. } => expr_postorder_list(children).push(n),
    }
}

pub open spec fn expr_postorder_list(cs: Seq<NamedExprV>) -> Seq<NamedExprV>
    decreases cs, 0int,
{
    if cs.len() == 0 {
        seq![]
    } else {
        expr_postorder_list(cs.drop_last()) + expr_postorder(cs.last())
    }
}

pub open spec fn expr_refs_view(v: Seq<&NamedExpr>) -> Seq<NamedExprV> {
    v.map_values(|n: &NamedExpr| n@)
}

impl NamedExpr {
    /// The name of the part.
    pub fn name(&self) -> (r: String)
        ensures
            r@ == expr_name(self@),
    {
        match self {
            NamedExpr::Atom(a) => a.clone(),
            NamedExpr::And { name, .. } => name.clone(),
            NamedExpr::Or { name, .. } => name.clone(),
        }
    }

    /// Appends the parts in post-order.
    pub fn collect_postorder<'a>(&'a self, out: &mut Vec<&'a NamedExpr>)
        ensures
            expr_refs_view(final(out)@) == expr_refs_view(old(out)@) + expr_postorder(self@),
        decreases self,
    {
        let ghost start = expr_refs_view(out@);
        match self {
            NamedExpr::Atom(_) => {},
            NamedExpr::And { children, .. } => {
                collect_postorder_list(children, out);
            },
            NamedExpr::Or { children, .. } => {
                collect_postorder_list(children, out);
            },
        }
        let ghost before = expr_refs_view(out@);
        out.push(self);
        assert(expr_refs_view(out@) =~= before.push(self@));
        assert(expr_refs_view(out@) =~= start + expr_postorder(self@));
    }
}

fn collect_postorder_list<'a>(children: &'a Vec<NamedExpr>, out: &mut Vec<&'a NamedExpr>)
    ensures
        expr_refs_view(final(out)@) == expr_refs_view(old(out)@) + expr_postorder_list(named_exprs_view(children@)),
    decreases children,
{
    let ghost start = expr_refs_view(out@);
    let ghost cv = named_exprs_view(children@);
    proof {
        lemma_named_exprs_view(children@);
        assert(cv.take(0) =~= seq![]);
    }
    let n = children.len();
    let mut i: usize = 0;
    while i < n
        invariant
            n == children@.len(),
            cv == named_exprs_view(children@),
            cv.len() == n,
            forall|j: int| 0 <= j < n ==> #[trigger] cv[j] == children@[j]@,
            i <= n,
            expr_refs_view(out@) == start + expr_postorder_list(cv.take(i as int)),
        decreases n - i,
    {
        children[i].collect_postorder(out);
        proof {
            assert(cv.take(i + 1).drop_last() =~= cv.take(i as int));
            assert(cv.take(i + 1).last() == children@[i as int]@);
        }
        assert(expr_refs_view(out@) =~= start + expr_postorder_list(cv.take(i + 1)));
        i = i + 1;
    }
    assert(cv.take(n as int) =~= cv);
}

} // verus!
