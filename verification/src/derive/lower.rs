use vstd::prelude::*;
use crate::error::{MacroError, ErrV};
use crate::text::{decimal, digit_char, push_decimal};
use crate::derive::natural::digits_value;
use crate::derive::ast::{
    Atom, AtomV, NatArg, NatArgV, PropExpr, PropV, ProposeInput, InputV, prop_view, props_view,
    args_view, strings_view, lemma_props_view,
};
use crate::derive::keywords::{absurd_name, absurd_string};

verus! {

/// An expression in which every composite part has a name: the proposition it defines.
#[derive(Debug)]
pub enum NamedExpr {
    Atom(Atom),
    And { name: String, children: Vec<NamedExpr> },
    Or { name: String, children: Vec<NamedExpr> },
    Imply { name: String, premise: Box<NamedExpr>, conclusion: Box<NamedExpr> },
}

pub enum NamedV {
    Atom(AtomV),
    And { name: Seq<char>, children: Seq<NamedV> },
    Or { name: Seq<char>, children: Seq<NamedV> },
    Imply { name: Seq<char>, premise: Box<NamedV>, conclusion: Box<NamedV> },
}

pub open spec fn named_view(n: NamedExpr) -> NamedV
    decreases n,
{
    match n {
        NamedExpr::Atom(a) => NamedV::Atom(a@),
        NamedExpr::And { name, children } => {
            proof {
                assert(decreases_to!(children => children@));
            }
            NamedV::And { name: name@, children: nameds_view(children@) }
        },
        NamedExpr::Or { name, children } => {
            proof {
                assert(decreases_to!(children => children@));
            }
            NamedV::Or { name: name@, children: nameds_view(children@) }
        },
        NamedExpr::Imply { name, premise, conclusion } => NamedV::Imply {
            name: name@,
            premise: Box::new(named_view(*premise)),
            conclusion: Box::new(named_view(*conclusion)),
        },
    }
}

pub open spec fn nameds_view(v: Seq<NamedExpr>) -> Seq<NamedV>
    decreases v,
{
    if v.len() == 0 {
        seq![]
    } else {
        nameds_view(v.drop_last()).push(named_view(v.last()))
    }
}

impl View for NamedExpr {
    type V = NamedV;

    open spec fn view(&self) -> NamedV {
        named_view(*self)
    }
}

pub proof fn lemma_nameds_view(v: Seq<NamedExpr>)
    ensures
        nameds_view(v).len() == v.len(),
        forall|i: int| 0 <= i < v.len() ==> #[trigger] nameds_view(v)[i] == named_view(v[i]),
    decreases v.len(),
{
    if v.len() > 0 {
        lemma_nameds_view(v.drop_last());
    }
}

pub proof fn lemma_nameds_view_push(v: Seq<NamedExpr>, e: NamedExpr)
    ensures
        nameds_view(v.push(e)) == nameds_view(v).push(named_view(e)),
{
    assert(v.push(e).drop_last() =~= v);
}

/// The name of a named expression: the atom's name, or the name given to the part.
pub open spec fn named_name(n: NamedV) -> Seq<char> {
    match n {
        NamedV::Atom(a) => a.name,
        NamedV::And { name, .. } => name,
        NamedV::Or { name, .. } => name,
        NamedV::Imply { name, .. } => name,
    }
}

/// The number of composite parts (`!`, `&&`, `||`, `->`) of an expression.
pub open spec fn parts(e: PropV) -> nat
    decreases e,
{
    match e {
        PropV::Atom(_) => 0,
        PropV::Not(x) => 1 + parts(*x),
        PropV::And(cs) => 1 + parts_list(cs),
        PropV::Or(cs) => 1 + parts_list(cs),
        PropV::Imply(p, q) => 1 + parts(*p) + parts(*q),
    }
}

pub open spec fn parts_list(cs: Seq<PropV>) -> nat
    decreases cs,
{
    if cs.len() == 0 {
        0
    } else {
        parts_list(cs.drop_last()) + parts(cs.last())
    }
}

/// The atom `Absurd`.
pub open spec fn absurd_atom() -> AtomV {
    AtomV { name: absurd_name(), args: seq![] }
}

/// The name that a factory with the given base gives at count `k`.
pub open spec fn factory_name(base: Seq<char>, k: nat) -> Seq<char> {
    base + decimal(k)
}

/// The named form of an expression, with the counter of the name factory before and
/// after: the parts are named in post-order (operands first, left to right), each with the
/// next name of the factory; `!x` stands for `x -> Absurd`; a disjunction needs at least
/// two operands.
pub open spec fn named_spec(e: PropV, base: Seq<char>, c: nat) -> Option<(NamedV, nat)>
    decreases e, 1int,
{
    match e {
        PropV::Atom(a) => Some((NamedV::Atom(a), c)),
        PropV::Not(x) => match named_spec(*x, base, c) {
            Some((nx, c1)) => Some((
                NamedV::Imply {
                    name: factory_name(base, c1),
                    premise: Box::new(nx),
                    conclusion: Box::new(NamedV::Atom(absurd_atom())),
                },
                c1 + 1,
            )),
            None => None,
        },
        PropV::And(cs) => match named_list(cs, base, c) {
            Some((ns, c1)) => Some((NamedV::And { name: factory_name(base, c1), children: ns }, c1 + 1)),
            None => None,
        },
        PropV::Or(cs) => if cs.len() < 2 {
            None
        } else {
            match named_list(cs, base, c) {
                Some((ns, c1)) => Some((NamedV::Or { name: factory_name(base, c1), children: ns }, c1 + 1)),
                None => None,
            }
        },
        PropV::Imply(p, q) => match named_spec(*p, base, c) {
            Some((np, c1)) => match named_spec(*q, base, c1) {
                Some((nq, c2)) => Some((
                    NamedV::Imply { name: factory_name(base, c2), premise: Box::new(np), conclusion: Box::new(nq) },
                    c2 + 1,
                )),
                None => None,
            },
            None => None,
        },
    }
}

/// The named forms of a list of expressions, named left to right.
pub open spec fn named_list(cs: Seq<PropV>, base: Seq<char>, c: nat) -> Option<(Seq<NamedV>, nat)>
    decreases cs, 0int,
{
    if cs.len() == 0 {
        Some((seq![], c))
    } else {
        match named_list(cs.drop_last(), base, c) {
            Some((ns, c1)) => match named_spec(cs.last(), base, c1) {
                Some((n, c2)) => Some((ns.push(n), c2)),
                None => None,
            },
            None => None,
        }
    }
}

/// The counter of the name factory once naming of `e` from count `c` stops: after the
/// last part where it succeeds; where it refuses, after the names drawn before the
/// refused part (a short disjunction draws none).
pub open spec fn named_end(e: PropV, base: Seq<char>, c: nat) -> nat
    decreases e, 1int,
{
    match e {
        PropV::Atom(_) => c,
        PropV::Not(x) => match named_spec(*x, base, c) {
            Some((_, c1)) => c1 + 1,
            None => named_end(*x, base, c),
        },
        PropV::And(cs) => match named_list(cs, base, c) {
            Some((_, c1)) => c1 + 1,
            None => named_list_end(cs, base, c),
        },
        PropV::Or(cs) => if cs.len() < 2 {
            c
        } else {
            match named_list(cs, base, c) {
                Some((_, c1)) => c1 + 1,
                None => named_list_end(cs, base, c),
            }
        },
        PropV::Imply(p, q) => match named_spec(*p, base, c) {
            Some((_, c1)) => match named_spec(*q, base, c1) {
                Some((_, c2)) => c2 + 1,
                None => named_end(*q, base, c1),
            },
            None => named_end(*p, base, c),
        },
    }
}

/// The counter once naming of a list stops: after the whole list, or within the first
/// operand that is refused.
pub open spec fn named_list_end(cs: Seq<PropV>, base: Seq<char>, c: nat) -> nat
    decreases cs, 0int,
{
    if cs.len() == 0 {
        c
    } else {
        match named_list(cs.drop_last(), base, c) {
            Some((_, c1)) => named_end(cs.last(), base, c1),
            None => named_list_end(cs.drop_last(), base, c),
        }
    }
}

/// Where naming succeeds, it stops at the counter that the named form gives.
pub proof fn lemma_named_end_ok(e: PropV, base: Seq<char>, c: nat)
    ensures
        named_spec(e, base, c) matches Some((_, c1)) ==> named_end(e, base, c) == c1,
{
}

pub proof fn lemma_named_list_end_ok(cs: Seq<PropV>, base: Seq<char>, c: nat)
    ensures
        named_list(cs, base, c) matches Some((_, c1)) ==> named_list_end(cs, base, c) == c1,
{
    if cs.len() > 0 {
        if let Some((_, c1)) = named_list(cs.drop_last(), base, c) {
            lemma_named_end_ok(cs.last(), base, c1);
        }
    }
}

/// Where the first `i` operands are named and the next is refused, naming the list stops
/// where naming that operand stops.
proof fn lemma_named_list_end_at(cs: Seq<PropV>, i: int, base: Seq<char>, c: nat, c1: nat)
    requires
        0 <= i < cs.len(),
        named_list(cs.take(i), base, c) matches Some((_, k)) && k == c1,
        named_list(cs.take(i + 1), base, c) is None,
    ensures
        named_list_end(cs, base, c) == named_end(cs[i], base, c1),
    decreases cs.len(),
{
    if i + 1 == cs.len() {
        assert(cs.take(i + 1) =~= cs);
        assert(cs.drop_last() =~= cs.take(i));
    } else {
        let d = cs.drop_last();
        assert(d.take(i) =~= cs.take(i));
        assert(d.take(i + 1) =~= cs.take(i + 1));
        lemma_named_list_end_at(d, i, base, c, c1);
        lemma_named_list_prefix_none(d, i + 1, base, c);
    }
}

/// Gives the intermediate parts of a proposition the names `{base}0`, `{base}1`, ...
#[derive(Clone, Debug)]
pub struct NameFactory {
    pub base: String,
    pub counter: u32,
}

impl NameFactory {
    /// A factory whose first name is `{base}0`.
    pub fn new(base: String) -> (f: NameFactory)
        ensures
            f.base@ == base@,
            f.counter == 0,
    {
        NameFactory { base, counter: 0 }
    }

    /// The next name, `{base}{counter}`; the counter moves on by one.
    pub fn next(&mut self) -> (name: String)
        requires
            old(self).counter < u32::MAX,
        ensures
            name@ == factory_name(old(self).base@, old(self).counter as nat),
            final(self).base == old(self).base,
            final(self).counter == old(self).counter + 1,
    {
        let mut name = self.base.clone();
        push_decimal(&mut name, self.counter);
        self.counter = self.counter + 1;
        name
    }
}

/// The name of a named expression.
pub fn name_of(n: &NamedExpr) -> (r: String)
    ensures
        r@ == named_name(n@),
{
    match n {
        NamedExpr::Atom(a) => a.name.clone(),
        NamedExpr::And { name, .. } => name.clone(),
        NamedExpr::Or { name, .. } => name.clone(),
        NamedExpr::Imply { name, .. } => name.clone(),
    }
}

impl NamedExpr {
    /// The name of the proposition this part defines (for an atom, the atom's name).
    pub fn name(&self) -> (r: String)
        ensures
            r@ == named_name(self@),
    {
        name_of(self)
    }
}


/// Naming moves the factory's counter on by the number of composite parts.
pub proof fn lemma_named_count(e: PropV, base: Seq<char>, c: nat)
    ensures
        named_spec(e, base, c) matches Some((_, c1)) ==> c1 == c + parts(e),
    decreases e, 1int,
{
    match e {
        PropV::Atom(_) => {},
        PropV::Not(x) => {
            lemma_named_count(*x, base, c);
        },
        PropV::And(cs) => {
            lemma_named_list_count(cs, base, c);
        },
        PropV::Or(cs) => {
            lemma_named_list_count(cs, base, c);
        },
        PropV::Imply(p, q) => {
            lemma_named_count(*p, base, c);
            if let Some((_, c1)) = named_spec(*p, base, c) {
                lemma_named_count(*q, base, c1);
            }
        },
    }
}

pub proof fn lemma_named_list_count(cs: Seq<PropV>, base: Seq<char>, c: nat)
    ensures
        named_list(cs, base, c) matches Some((ns, c1)) ==> c1 == c + parts_list(cs) && ns.len() == cs.len(),
    decreases cs, 0int,
{
    if cs.len() > 0 {
        lemma_named_list_count(cs.drop_last(), base, c);
        if let Some((_, c1)) = named_list(cs.drop_last(), base, c) {
            lemma_named_count(cs.last(), base, c1);
        }
    }
}

proof fn lemma_parts_list_prefix(cs: Seq<PropV>, i: int)
    requires
        0 <= i <= cs.len(),
    ensures
        parts_list(cs.take(i)) <= parts_list(cs),
    decreases cs.len(),
{
    if i == cs.len() {
        assert(cs.take(i) =~= cs);
    } else {
        lemma_parts_list_prefix(cs.drop_last(), i);
        assert(cs.drop_last().take(i) =~= cs.take(i));
    }
}

/// Names the expressions of a list, left to right.
fn named_children(children: Vec<PropExpr>, factory: &mut NameFactory) -> (r: Result<Vec<NamedExpr>, MacroError>)
    requires
        old(factory).counter + parts_list(props_view(children@)) <= u32::MAX,
    ensures
        final(factory).base == old(factory).base,
        r matches Ok(ns) ==> named_list(props_view(children@), old(factory).base@, old(factory).counter as nat)
            == Some((nameds_view(ns@), final(factory).counter as nat)),
        r matches Err(e) ==> named_list(props_view(children@), old(factory).base@, old(factory).counter as nat)
            is None && e@ == ErrV::DisjunctionOperands(old(factory).base@),
        final(factory).counter == named_list_end(props_view(children@), old(factory).base@, old(factory).counter as nat),
    decreases props_view(children@), 0int,
{
    let ghost all = children@;
    let ghost pv = props_view(all);
    let ghost base = factory.base@;
    let ghost c0 = factory.counter as nat;
    let mut children = children;
    let mut out: Vec<NamedExpr> = Vec::new();
    let n = children.len();
    let mut i: usize = 0;
    proof {
        lemma_props_view(all);
        assert(pv.take(0) =~= seq![]);
        assert(nameds_view(out@) =~= seq![]);
    }
    #[verifier::loop_isolation(false)]
    while children.len() > 0
        invariant
            n == all.len(),
            pv == props_view(all),
            pv.len() == n,
            forall|j: int| 0 <= j < n ==> #[trigger] pv[j] == prop_view(all[j]),
            i + children@.len() == n,
            children@ == all.subrange(i as int, n as int),
            factory.base@ == base,
            factory.base == old(factory).base,
            c0 == old(factory).counter,
            c0 + parts_list(pv) <= u32::MAX,
            named_list(pv.take(i as int), base, c0) == Some((nameds_view(out@), factory.counter as nat)),
            factory.counter == c0 + parts_list(pv.take(i as int)),
        decreases children@.len(),
    {
        let child = children.remove(0);
        proof {
            assert(child == all[i as int]);
            assert(pv[i as int] == prop_view(child));
            assert(pv.take(i + 1).drop_last() =~= pv.take(i as int));
            assert(pv.take(i + 1).last() == prop_view(child));
            lemma_parts_list_prefix(pv, i + 1);
            assert(decreases_to!(pv => pv[i as int]));
        }
        let ghost before = nameds_view(out@);
        let ghost cnt = factory.counter as nat;
        let named = match child.into_named(factory) {
            Ok(nm) => nm,
            Err(e) => {
                assert(named_list(pv.take(i + 1), base, c0) is None);
                proof {
                    lemma_named_list_prefix_none(pv, i + 1, base, c0);
                    lemma_named_list_end_at(pv, i as int, base, c0, cnt);
                }
                assert(pv.take(n as int) =~= pv);
                return Err(e);
            },
        };
        proof {
            lemma_named_count(prop_view(child), base, cnt);
            lemma_nameds_view_push(out@, named);
        }
        out.push(named);
        assert(children@ =~= all.subrange(i + 1, n as int));
        i = i + 1;
    }
    assert(pv.take(n as int) =~= pv);
    proof {
        lemma_named_list_end_ok(pv, base, c0);
    }
    Ok(out)
}

/// If a prefix of a list cannot be named, neither can the list.
proof fn lemma_named_list_prefix_none(cs: Seq<PropV>, i: int, base: Seq<char>, c: nat)
    requires
        0 <= i <= cs.len(),
        named_list(cs.take(i), base, c) is None,
    ensures
        named_list(cs, base, c) is None,
    decreases cs.len(),
{
    if i == cs.len() {
        assert(cs.take(i) =~= cs);
    } else {
        assert(cs.drop_last().take(i) =~= cs.take(i));
        lemma_named_list_prefix_none(cs.drop_last(), i, base, c);
    }
}

impl PropExpr {
    /// `self -> Absurd`: the negation of `self`.
    pub fn imply_absurd(self) -> (r: PropExpr)
        ensures
            r@ == PropV::Imply(Box::new(self@), Box::new(PropV::Atom(absurd_atom()))),
    {
        let absurd = Atom { name: absurd_string(), args: Vec::new() };
        assert(args_view(absurd.args@) =~= seq![]);
        let at = PropExpr::Atom(absurd);
        assert(at@ == PropV::Atom(absurd_atom()));
        PropExpr::Imply(Box::new(self), Box::new(at))
    }

    /// Names every composite part of the expression with the factory's next name, in
    /// post-order; fails on a disjunction of fewer than two operands.
    pub fn into_named(self, factory: &mut NameFactory) -> (r: Result<NamedExpr, MacroError>)
        requires
            old(factory).counter + parts(self@) <= u32::MAX,
        ensures
            final(factory).base == old(factory).base,
            r matches Ok(n) ==> named_spec(self@, old(factory).base@, old(factory).counter as nat)
                == Some((n@, final(factory).counter as nat)),
            r matches Err(e) ==> named_spec(self@, old(factory).base@, old(factory).counter as nat) is None
                && e@ == ErrV::DisjunctionOperands(old(factory).base@),
            final(factory).counter == named_end(self@, old(factory).base@, old(factory).counter as nat),
            (r is Err && (self@ matches PropV::Or(cs) && cs.len() < 2)) ==> final(factory).counter == old(factory).counter,
        decreases self@, 1int,
    {
        let ghost base = factory.base@;
        let ghost c0 = factory.counter as nat;
        match self {
            PropExpr::Atom(a) => Ok(NamedExpr::Atom(a)),
            PropExpr::Not(inner) => {
                let inner = *inner;
                let ghost iv = inner@;
                let premise = inner.into_named(factory)?;
                proof {
                    lemma_named_count(iv, base, c0);
                }
                let name = factory.next();
                let absurd = Atom { name: absurd_string(), args: Vec::new() };
                assert(args_view(absurd.args@) =~= seq![]);
                let at = NamedExpr::Atom(absurd);
                assert(at@ == NamedV::Atom(absurd_atom()));
                let r = NamedExpr::Imply { name, premise: Box::new(premise), conclusion: Box::new(at) };
                assert(r@ == NamedV::Imply { name: name@, premise: Box::new(premise@), conclusion: Box::new(at@) });
                Ok(r)
            },
            PropExpr::And(children) => {
                let ghost cv = props_view(children@);
                let named = named_children(children, factory)?;
                proof {
                    lemma_named_list_count(cv, base, c0);
                }
                let name = factory.next();
                Ok(NamedExpr::And { name, children: named })
            },
            PropExpr::Or(children) => {
                if children.len() < 2 {
                    proof {
                        lemma_props_view(children@);
                    }
                    let mut base_name = factory.base.clone();
                    return Err(MacroError::DisjunctionOperands(base_name));
                }
                let ghost cv = props_view(children@);
                proof {
                    lemma_props_view(children@);
                }
                let named = named_children(children, factory)?;
                proof {
                    lemma_named_list_count(cv, base, c0);
                }
                let name = factory.next();
                Ok(NamedExpr::Or { name, children: named })
            },
            PropExpr::Imply(p, q) => {
                let p = *p;
                let q = *q;
                let ghost pv = p@;
                let ghost qv = q@;
                let np = p.into_named(factory)?;
                proof {
                    lemma_named_count(pv, base, c0);
                }
                let ghost c1 = factory.counter as nat;
                let nq = q.into_named(factory)?;
                proof {
                    lemma_named_count(qv, base, c1);
                }
                let name = factory.next();
                let r = NamedExpr::Imply { name, premise: Box::new(np), conclusion: Box::new(nq) };
                assert(r@ == NamedV::Imply { name: name@, premise: Box::new(np@), conclusion: Box::new(nq@) });
                Ok(r)
            },
        }
    }
}


/// The number of composite parts, if it fits a `u32`.
pub fn count_parts(e: &PropExpr) -> (r: Option<u32>)
    ensures
        r matches Some(k) ==> k == parts(e@),
        r is None ==> parts(e@) > u32::MAX,
    decreases e,
{
    match e {
        PropExpr::Atom(_) => Some(0),
        PropExpr::Not(x) => match count_parts(x) {
            Some(k) => k.checked_add(1),
            None => None,
        },
        PropExpr::And(cs) => match count_parts_list(cs) {
            Some(k) => k.checked_add(1),
            None => None,
        },
        PropExpr::Or(cs) => match count_parts_list(cs) {
            Some(k) => k.checked_add(1),
            None => None,
        },
        PropExpr::Imply(p, q) => match (count_parts(p), count_parts(q)) {
            (Some(a), Some(b)) => match a.checked_add(b) {
                Some(c) => c.checked_add(1),
                None => None,
            },
            _ => None,
        },
    }
}

/// The number of composite parts of a list of expressions, if it fits a `u32`.
pub fn count_parts_list(cs: &Vec<PropExpr>) -> (r: Option<u32>)
    ensures
        r matches Some(k) ==> k == parts_list(props_view(cs@)),
        r is None ==> parts_list(props_view(cs@)) > u32::MAX,
    decreases cs,
{
    let ghost pv = props_view(cs@);
    proof {
        lemma_props_view(cs@);
    }
    let n = cs.len();
    let mut total: u32 = 0;
    let mut i: usize = 0;
    while i < n
        invariant
            n == cs@.len(),
            pv == props_view(cs@),
            pv.len() == n,
            forall|j: int| 0 <= j < n ==> #[trigger] pv[j] == prop_view(cs@[j]),
            i <= n,
            total == parts_list(pv.take(i as int)),
        decreases n - i,
    {
        assert(pv.take(i + 1).drop_last() =~= pv.take(i as int));
        assert(pv.take(i + 1).last() == prop_view(cs@[i as int]));
        match count_parts(&cs[i]) {
            Some(k) => match total.checked_add(k) {
                Some(t) => {
                    total = t;
                },
                None => {
                    proof {
                        lemma_parts_list_prefix(pv, i + 1);
                    }
                    return None;
                },
            },
            None => {
                proof {
                    lemma_parts_list_prefix(pv, i + 1);
                }
                return None;
            },
        }
        i = i + 1;
    }
    assert(pv.take(n as int) =~= pv);
    Some(total)
}

/// The atom that a bare proposition `Name<A, B>` stands for: its binders as parameters.
pub open spec fn binder_atom(name: Seq<char>, binders: Seq<Seq<char>>) -> AtomV {
    AtomV { name, args: binders.map_values(|b: Seq<char>| NatArgV::Param(b)) }
}

/// The named form of a whole proposition: its root part takes the proposition's own name
/// and the parts below it are named `{name}0`, `{name}1`, ... in post-order; a bare atom on
/// the right stands for a conjunction of that one member.
pub open spec fn root_named(e: PropV, name: Seq<char>) -> Option<NamedV> {
    match e {
        PropV::Atom(a) => Some(NamedV::And { name, children: seq![NamedV::Atom(a)] }),
        PropV::Not(x) => match named_spec(*x, name, 0) {
            Some((nx, _)) => Some(NamedV::Imply {
                name,
                premise: Box::new(nx),
                conclusion: Box::new(NamedV::Atom(absurd_atom())),
            }),
            None => None,
        },
        PropV::And(cs) => match named_list(cs, name, 0) {
            Some((ns, _)) => Some(NamedV::And { name, children: ns }),
            None => None,
        },
        PropV::Or(cs) => if cs.len() < 2 {
            None
        } else {
            match named_list(cs, name, 0) {
                Some((ns, _)) => Some(NamedV::Or { name, children: ns }),
                None => None,
            }
        },
        PropV::Imply(p, q) => match named_spec(*p, name, 0) {
            Some((np, c1)) => match named_spec(*q, name, c1) {
                Some((nq, _)) => Some(NamedV::Imply { name, premise: Box::new(np), conclusion: Box::new(nq) }),
                None => None,
            },
            None => None,
        },
    }
}

/// The named form of an input: a bare proposition is an atom over its binders.
pub open spec fn lower_spec(i: InputV) -> Option<NamedV> {
    match i.expr {
        None => Some(NamedV::Atom(binder_atom(i.name, i.binders))),
        Some(e) => root_named(e, i.name),
    }
}

/// The parameters `N, M, ...` as arguments.
fn binder_args(binders: &Vec<String>) -> (r: Vec<NatArg>)
    ensures
        args_view(r@) == strings_view(binders@).map_values(|b: Seq<char>| NatArgV::Param(b)),
{
    let mut r: Vec<NatArg> = Vec::new();
    let n = binders.len();
    let mut i: usize = 0;
    while i < n
        invariant
            n == binders@.len(),
            i <= n,
            r@.len() == i,
            forall|j: int| 0 <= j < i ==> #[trigger] r@[j]@ == NatArgV::Param(binders@[j]@),
        decreases n - i,
    {
        r.push(NatArg::Param(binders[i].clone()));
        i = i + 1;
    }
    assert(args_view(r@) =~= strings_view(binders@).map_values(|b: Seq<char>| NatArgV::Param(b)));
    r
}

/// Names the parts of a proposition (see `root_named` and `lower_spec`).
pub fn lower_propose(input: ProposeInput) -> (r: Result<NamedExpr, MacroError>)
    ensures
        r matches Ok(n) ==> lower_spec(input@) == Some(n@),
        r matches Err(e) ==> (e is TooManyParts <==> (input@.expr matches Some(x) && parts(x) > u32::MAX)),
        r matches Err(e) ==> (e is DisjunctionOperands <==> (!(input@.expr matches Some(x) && parts(x) > u32::MAX)
            && lower_spec(input@) is None)),
        r is Err ==> (r->Err_0 is TooManyParts || r->Err_0 is DisjunctionOperands),
        lower_spec(input@) is None ==> r is Err,
        (input@.expr matches Some(x) && parts(x) > u32::MAX) ==> (r matches Err(e) && e@ == ErrV::TooManyParts),
        r matches Err(e) ==> (e@ == ErrV::TooManyParts || e@ == ErrV::DisjunctionOperands(input@.name)),
{
    let ghost iv = input@;
    match input.expr {
        None => {
            let args = binder_args(&input.binders);
            let r = NamedExpr::Atom(Atom { name: input.name, args });
            assert(lower_spec(iv) == Some(r@));
            Ok(r)
        },
        Some(e) => {
            if count_parts(&e).is_none() {
                return Err(MacroError::TooManyParts);
            }
            let ghost ev = e@;
            let name = input.name;
            let mut factory = NameFactory::new(name.clone());
            match e {
                PropExpr::Atom(a) => {
                    let mut children: Vec<NamedExpr> = Vec::new();
                    let at = NamedExpr::Atom(a);
                    proof {
                        lemma_nameds_view_push(children@, at);
                    }
                    children.push(at);
                    assert(nameds_view(children@) =~= seq![at@]);
                    let r = NamedExpr::And { name, children };
                    assert(lower_spec(iv) == Some(r@));
                    Ok(r)
                },
                PropExpr::Not(x) => {
                    let nx = (*x).into_named(&mut factory)?;
                    let absurd = Atom { name: absurd_string(), args: Vec::new() };
                    assert(args_view(absurd.args@) =~= seq![]);
                    let at = NamedExpr::Atom(absurd);
                    assert(at@ == NamedV::Atom(absurd_atom()));
                    let r = NamedExpr::Imply { name, premise: Box::new(nx), conclusion: Box::new(at) };
                    assert(r@ == NamedV::Imply { name: name@, premise: Box::new(nx@), conclusion: Box::new(at@) });
                    assert(lower_spec(iv) == Some(r@));
                    Ok(r)
                },
                PropExpr::And(cs) => {
                    let ns = named_children(cs, &mut factory)?;
                    let r = NamedExpr::And { name, children: ns };
                    assert(lower_spec(iv) == Some(r@));
                    Ok(r)
                },
                PropExpr::Or(cs) => {
                    if cs.len() < 2 {
                        proof {
                            lemma_props_view(cs@);
                        }
                        return Err(MacroError::DisjunctionOperands(name));
                    }
                    proof {
                        lemma_props_view(cs@);
                    }
                    let ns = named_children(cs, &mut factory)?;
                    let r = NamedExpr::Or { name, children: ns };
                    assert(lower_spec(iv) == Some(r@));
                    Ok(r)
                },
                PropExpr::Imply(p, q) => {
                    let ghost pv = (*p)@;
                    let np = (*p).into_named(&mut factory)?;
                    proof {
                        lemma_named_count(pv, name@, 0);
                    }
                    let nq = (*q).into_named(&mut factory)?;
                    let r = NamedExpr::Imply { name, premise: Box::new(np), conclusion: Box::new(nq) };
                    assert(r@ == NamedV::Imply { name: name@, premise: Box::new(np@), conclusion: Box::new(nq@) });
                    assert(lower_spec(iv) == Some(r@));
                    Ok(r)
                },
            }
        },
    }
}


/// The named forms in post-order: operands before the part they belong to, left to right.
pub open spec fn postorder(n: NamedV) -> Seq<NamedV>
    decreases n, 1int,
{
    match n {
        NamedV::Atom(_) => seq![n],
        NamedV::And { children, .. } => postorder_list(children).push(n),
        NamedV::Or { children, .. } => postorder_list(children).push(n),
        NamedV::Imply { premise, conclusion, .. } => (postorder(*premise) + postorder(*conclusion)).push(n),
    }
}

pub open spec fn postorder_list(cs: Seq<NamedV>) -> Seq<NamedV>
    decreases cs, 0int,
{
    if cs.len() == 0 {
        seq![]
    } else {
        postorder_list(cs.drop_last()) + postorder(cs.last())
    }
}

pub open spec fn refs_view(v: Seq<&NamedExpr>) -> Seq<NamedV> {
    v.map_values(|n: &NamedExpr| n@)
}

impl NamedExpr {
    /// Appends the parts of the expression in post-order: every operand before the part
    /// it belongs to, the whole expression last.
    pub fn collect_postorder<'a>(&'a self, out: &mut Vec<&'a NamedExpr>)
        ensures
            refs_view(final(out)@) == refs_view(old(out)@) + postorder(self@),
        decreases self,
    {
        let ghost start = refs_view(out@);
        match self {
            NamedExpr::Atom(_) => {},
            NamedExpr::And { children, .. } => {
                collect_postorder_list(children, out);
            },
            NamedExpr::Or { children, .. } => {
                collect_postorder_list(children, out);
            },
            NamedExpr::Imply { premise, conclusion, .. } => {
                let ghost s0 = refs_view(out@);
                premise.collect_postorder(out);
                conclusion.collect_postorder(out);
                assert(refs_view(out@) =~= s0 + (postorder(premise@) + postorder(conclusion@)));
            },
        }
        let ghost before = refs_view(out@);
        out.push(self);
        assert(refs_view(out@) =~= before.push(self@));
        assert(refs_view(out@) =~= start + postorder(self@));
    }
}

/// Appends the parts of each expression of the list in post-order.
fn collect_postorder_list<'a>(children: &'a Vec<NamedExpr>, out: &mut Vec<&'a NamedExpr>)
    ensures
        refs_view(final(out)@) == refs_view(old(out)@) + postorder_list(nameds_view(children@)),
    decreases children,
{
    let ghost start = refs_view(out@);
    let ghost cv = nameds_view(children@);
    proof {
        lemma_nameds_view(children@);
        assert(cv.take(0) =~= seq![]);
    }
    let n = children.len();
    let mut i: usize = 0;
    while i < n
        invariant
            n == children@.len(),
            cv == nameds_view(children@),
            cv.len() == n,
            forall|j: int| 0 <= j < n ==> #[trigger] cv[j] == named_view(children@[j]),
            i <= n,
            refs_view(out@) == start + postorder_list(cv.take(i as int)),
        decreases n - i,
    {
        let ghost s0 = refs_view(out@);
        children[i].collect_postorder(out);
        proof {
            assert(cv.take(i + 1).drop_last() =~= cv.take(i as int));
            assert(cv.take(i + 1).last() == named_view(children@[i as int]));
        }
        assert(refs_view(out@) =~= start + postorder_list(cv.take(i + 1)));
        i = i + 1;
    }
    assert(cv.take(n as int) =~= cv);
}

/// The names of the composite parts, in post-order.
pub open spec fn part_names(n: NamedV) -> Seq<Seq<char>>
    decreases n, 1int,
{
    match n {
        NamedV::Atom(_) => seq![],
        NamedV::And { name, children } => part_names_list(children).push(name),
        NamedV::Or { name, children } => part_names_list(children).push(name),
        NamedV::Imply { name, premise, conclusion } => (part_names(*premise) + part_names(*conclusion)).push(name),
    }
}

pub open spec fn part_names_list(cs: Seq<NamedV>) -> Seq<Seq<char>>
    decreases cs, 0int,
{
    if cs.len() == 0 {
        seq![]
    } else {
        part_names_list(cs.drop_last()) + part_names(cs.last())
    }
}

/// The names a factory gives from count `c` on, `k` of them.
pub open spec fn factory_run(base: Seq<char>, c: nat, k: nat) -> Seq<Seq<char>> {
    Seq::new(k, |j: int| factory_name(base, c + j as nat))
}

/// Naming gives the composite parts of an expression the factory's names in post-order,
/// one each, with nothing skipped: `{base}{c}`, `{base}{c+1}`, ... up to the final count.
pub proof fn lemma_named_part_names(e: PropV, base: Seq<char>, c: nat)
    ensures
        named_spec(e, base, c) matches Some((n, c1)) ==> c <= c1 && part_names(n) == factory_run(base, c, (c1 - c) as nat),
    decreases e, 1int,
{
    match e {
        PropV::Atom(_) => {
            assert(factory_run(base, c, 0) =~= seq![]);
        },
        PropV::Not(x) => {
            lemma_named_part_names(*x, base, c);
            if let Some((nx, c1)) = named_spec(*x, base, c) {
                assert(factory_run(base, c, (c1 - c) as nat).push(factory_name(base, c1)) =~= factory_run(base, c, (c1 + 1 - c) as nat));
                assert(part_names(NamedV::Atom(absurd_atom())) =~= seq![]);
                assert(part_names(nx) + part_names(NamedV::Atom(absurd_atom())) =~= part_names(nx));
            }
        },
        PropV::And(cs) => {
            lemma_named_list_part_names(cs, base, c);
            if let Some((ns, c1)) = named_list(cs, base, c) {
                assert(factory_run(base, c, (c1 - c) as nat).push(factory_name(base, c1)) =~= factory_run(base, c, (c1 + 1 - c) as nat));
            }
        },
        PropV::Or(cs) => {
            lemma_named_list_part_names(cs, base, c);
            if let Some((ns, c1)) = named_list(cs, base, c) {
                assert(factory_run(base, c, (c1 - c) as nat).push(factory_name(base, c1)) =~= factory_run(base, c, (c1 + 1 - c) as nat));
            }
        },
        PropV::Imply(p, q) => {
            lemma_named_part_names(*p, base, c);
            if let Some((np, c1)) = named_spec(*p, base, c) {
                lemma_named_part_names(*q, base, c1);
                if let Some((nq, c2)) = named_spec(*q, base, c1) {
                    assert(factory_run(base, c, (c1 - c) as nat) + factory_run(base, c1, (c2 - c1) as nat) =~= factory_run(base, c, (c2 - c) as nat));
                    assert(factory_run(base, c, (c2 - c) as nat).push(factory_name(base, c2)) =~= factory_run(base, c, (c2 + 1 - c) as nat));
                }
            }
        },
    }
}

pub proof fn lemma_named_list_part_names(cs: Seq<PropV>, base: Seq<char>, c: nat)
    ensures
        named_list(cs, base, c) matches Some((ns, c1)) ==> c <= c1 && part_names_list(ns) == factory_run(base, c, (c1 - c) as nat),
    decreases cs, 0int,
{
    if cs.len() == 0 {
        assert(factory_run(base, c, 0) =~= seq![]);
    } else {
        lemma_named_list_part_names(cs.drop_last(), base, c);
        if let Some((ns, c1)) = named_list(cs.drop_last(), base, c) {
            lemma_named_part_names(cs.last(), base, c1);
            if let Some((n, c2)) = named_spec(cs.last(), base, c1) {
                assert(ns.push(n).drop_last() =~= ns);
                assert(factory_run(base, c, (c1 - c) as nat) + factory_run(base, c1, (c2 - c1) as nat) =~= factory_run(base, c, (c2 - c) as nat));
            }
        }
    }
}

proof fn lemma_digit_char(d: nat)
    requires
        d < 10,
    ensures
        digit_char(d) as int - '0' as int == d,
{
    if d == 0 {
    } else if d == 1 {
    } else if d == 2 {
    } else if d == 3 {
    } else if d == 4 {
    } else if d == 5 {
    } else if d == 6 {
    } else if d == 7 {
    } else if d == 8 {
    } else {
    }
}

proof fn lemma_decimal_value(n: nat)
    ensures
        digits_value(decimal(n)) == n,
        decimal(n).len() > 0,
    decreases n,
{
    lemma_digit_char(n % 10);
    if n < 10 {
        assert(decimal(n).drop_last() =~= seq![]);
        assert(digits_value(decimal(n).drop_last()) == 0);
    } else {
        lemma_decimal_value(n / 10);
        assert(decimal(n).drop_last() =~= decimal(n / 10));
        assert((n / 10) * 10 + n % 10 == n) by (nonlinear_arith);
    }
}

/// Different counts give different names.
pub proof fn lemma_factory_names_distinct(base: Seq<char>, j: nat, k: nat)
    requires
        j != k,
    ensures
        factory_name(base, j) != factory_name(base, k),
        factory_name(base, j) != base,
{
    lemma_decimal_value(j);
    lemma_decimal_value(k);
    let fj = base + decimal(j);
    let fk = base + decimal(k);
    assert(fj.len() == base.len() + decimal(j).len());
    assert(fk.len() == base.len() + decimal(k).len());
    if fj == fk {
        assert(decimal(j) =~= fj.subrange(base.len() as int, fj.len() as int));
        assert(decimal(k) =~= fk.subrange(base.len() as int, fk.len() as int));
    }
}

/// Every composite part of a lowered proposition gets a name of its own: the whole takes
/// the proposition's name, the parts below it `{name}0`, `{name}1`, ... in post-order, and
/// no two parts share a name.
pub proof fn law_lowered_part_names(i: InputV)
    requires
        lower_spec(i) is Some,
        i.expr is Some,
    ensures
        part_names(lower_spec(i).unwrap()).last() == i.name,
        part_names(lower_spec(i).unwrap()).drop_last() =~= factory_run(i.name, 0, (part_names(lower_spec(i).unwrap()).len() - 1) as nat),
        forall|a: int, b: int| 0 <= a < b < part_names(lower_spec(i).unwrap()).len() ==>
            part_names(lower_spec(i).unwrap())[a] != part_names(lower_spec(i).unwrap())[b],
{
    let e = i.expr.unwrap();
    let name = i.name;
    let n = lower_spec(i).unwrap();
    match e {
        PropV::Atom(a) => {
            let s1 = seq![NamedV::Atom(a)];
            assert(s1.drop_last() =~= Seq::<NamedV>::empty());
            assert(part_names_list(Seq::<NamedV>::empty()) == Seq::<Seq<char>>::empty());
            assert(part_names(s1.last()) == Seq::<Seq<char>>::empty());
            assert(part_names_list(s1) =~= Seq::<Seq<char>>::empty());
            assert(part_names(n) =~= seq![name]);
            assert(factory_run(name, 0, 0) =~= seq![]);
        },
        PropV::Not(x) => {
            lemma_named_part_names(*x, name, 0);
            let (nx, c1) = named_spec(*x, name, 0).unwrap();
            assert(part_names(NamedV::Atom(absurd_atom())) =~= seq![]);
            assert(part_names(n) =~= factory_run(name, 0, c1).push(name));
        },
        PropV::And(cs) => {
            lemma_named_list_part_names(cs, name, 0);
        },
        PropV::Or(cs) => {
            lemma_named_list_part_names(cs, name, 0);
        },
        PropV::Imply(p, q) => {
            lemma_named_part_names(*p, name, 0);
            let (np, c1) = named_spec(*p, name, 0).unwrap();
            lemma_named_part_names(*q, name, c1);
            let (nq, c2) = named_spec(*q, name, c1).unwrap();
            assert(factory_run(name, 0, c1) + factory_run(name, c1, (c2 - c1) as nat) =~= factory_run(name, 0, c2));
        },
    }
    let pn = part_names(n);
    assert(pn.drop_last() =~= factory_run(name, 0, (pn.len() - 1) as nat));
    assert forall|a: int, b: int| 0 <= a < b < pn.len() implies pn[a] != pn[b] by {
        assert(pn[a] == factory_name(name, a as nat)) by {
            assert(pn.drop_last()[a] == pn[a]);
        }
        if b == pn.len() - 1 {
            lemma_factory_names_distinct(name, a as nat, (a + 1) as nat);
        } else {
            assert(pn.drop_last()[b] == pn[b]);
            lemma_factory_names_distinct(name, a as nat, b as nat);
        }
    }
}

/// Negation is implication of `Absurd`: naming `!x` gives what naming `x -> Absurd` gives,
/// and leaves the name factory at the same count, whether it succeeds or refuses.
pub proof fn law_negation_is_implication_of_absurd(x: PropV, base: Seq<char>, c: nat)
    ensures
        named_spec(PropV::Not(Box::new(x)), base, c)
            == named_spec(PropV::Imply(Box::new(x), Box::new(PropV::Atom(absurd_atom()))), base, c),
        named_end(PropV::Not(Box::new(x)), base, c)
            == named_end(PropV::Imply(Box::new(x), Box::new(PropV::Atom(absurd_atom()))), base, c),
{
    if let Some((nx, c1)) = named_spec(x, base, c) {
        assert(named_spec(PropV::Atom(absurd_atom()), base, c1) == Some((NamedV::Atom(absurd_atom()), c1)));
    }
}

} // verus!
