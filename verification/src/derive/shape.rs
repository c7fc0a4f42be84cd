use vstd::prelude::*;
use crate::tokens::TokV;
use crate::derive::ast::{PropV};
use crate::derive::parse::{
    Dialect, and_parts, or_parts, flatten_and_spec, flatten_or_spec, sp_primary, sp_unary, sp_and_items,
    sp_and, sp_or_items, sp_or, sp_implies, sp_input,
};
use crate::derive::lower::{NamedV, named_spec, named_list, root_named, lower_spec, postorder, postorder_list};
use crate::derive::emit::{implications_ok, imply_ok};

verus! {

/// A flat expression: every conjunction and disjunction has at least two operands, and no
/// operand of a conjunction is a conjunction (nor of a disjunction a disjunction).
pub open spec fn flat(e: PropV) -> bool
    decreases e, 1int,
{
    match e {
        PropV::Atom(_) => true,
        PropV::Not(x) => flat(*x),
        PropV::Imply(p, q) => flat(*p) && flat(*q),
        PropV::And(cs) => cs.len() >= 2 && flat_members(cs, true),
        PropV::Or(cs) => cs.len() >= 2 && flat_members(cs, false),
    }
}

/// Every operand is flat and, in a conjunction (`and`), not itself a conjunction; in a
/// disjunction, not itself a disjunction.
pub open spec fn flat_members(cs: Seq<PropV>, and: bool) -> bool
    decreases cs, 0int,
{
    if cs.len() == 0 {
        true
    } else {
        flat_members(cs.drop_last(), and) && flat(cs.last()) && !(if and {
            cs.last() is And
        } else {
            cs.last() is Or
        })
    }
}

pub open spec fn all_flat(s: Seq<PropV>) -> bool {
    forall|k: int| 0 <= k < s.len() ==> flat(#[trigger] s[k])
}

proof fn lemma_flat_members_concat(a: Seq<PropV>, b: Seq<PropV>, and: bool)
    ensures
        flat_members(a + b, and) == (flat_members(a, and) && flat_members(b, and)),
    decreases b.len(),
{
    if b.len() == 0 {
        assert(a + b =~= a);
    } else {
        lemma_flat_members_concat(a, b.drop_last(), and);
        assert((a + b).drop_last() =~= a + b.drop_last());
    }
}

proof fn lemma_and_parts_flat(nodes: Seq<PropV>)
    requires
        all_flat(nodes),
    ensures
        flat_members(and_parts(nodes), true),
        nodes.len() > 0 ==> and_parts(nodes).len() >= 1,
    decreases nodes.len(),
{
    if nodes.len() > 0 {
        let prefix = nodes.drop_last();
        assert(all_flat(prefix)) by {
            assert forall|k: int| 0 <= k < prefix.len() implies flat(#[trigger] prefix[k]) by {
                assert(prefix[k] == nodes[k]);
            }
        }
        lemma_and_parts_flat(prefix);
        let last = nodes.last();
        assert(flat(nodes[nodes.len() - 1]));
        let tail = match last {
            PropV::And(cs) => cs,
            other => seq![other],
        };
        match last {
            PropV::And(cs) => {
                assert(flat(last));
                assert(flat_members(tail, true));
            },
            _ => {
                assert(seq![last].drop_last() =~= seq![]);
                assert(seq![last].last() == last);
                assert(flat_members(Seq::<PropV>::empty(), true));
                assert(seq![last].drop_last() == Seq::<PropV>::empty());
                assert(flat_members(seq![last], true));
                assert(flat_members(tail, true));
            },
        }
        lemma_flat_members_concat(and_parts(prefix), tail, true);
    }
}

proof fn lemma_or_parts_flat(nodes: Seq<PropV>)
    requires
        all_flat(nodes),
    ensures
        flat_members(or_parts(nodes), false),
        nodes.len() > 0 ==> or_parts(nodes).len() >= 1,
    decreases nodes.len(),
{
    if nodes.len() > 0 {
        let prefix = nodes.drop_last();
        assert(all_flat(prefix)) by {
            assert forall|k: int| 0 <= k < prefix.len() implies flat(#[trigger] prefix[k]) by {
                assert(prefix[k] == nodes[k]);
            }
        }
        lemma_or_parts_flat(prefix);
        let last = nodes.last();
        assert(flat(nodes[nodes.len() - 1]));
        let tail = match last {
            PropV::Or(cs) => cs,
            other => seq![other],
        };
        match last {
            PropV::Or(cs) => {
                assert(flat(last));
                assert(flat_members(tail, false));
            },
            _ => {
                assert(seq![last].drop_last() =~= seq![]);
                assert(seq![last].last() == last);
                assert(flat_members(Seq::<PropV>::empty(), false));
                assert(seq![last].drop_last() == Seq::<PropV>::empty());
                assert(flat_members(seq![last], false));
                assert(flat_members(tail, false));
            },
        }
        lemma_flat_members_concat(or_parts(prefix), tail, false);
    }
}

proof fn lemma_single_member(cs: Seq<PropV>, and: bool)
    requires
        cs.len() == 1,
        flat_members(cs, and),
    ensures
        flat(cs[0]),
{
    assert(cs.last() == cs[0]);
}

proof fn lemma_flatten_and_flat(nodes: Seq<PropV>)
    requires
        nodes.len() > 0,
        all_flat(nodes),
    ensures
        flat(flatten_and_spec(nodes)),
{
    lemma_and_parts_flat(nodes);
    let f = and_parts(nodes);
    if f.len() == 1 {
        lemma_single_member(f, true);
    }
}

proof fn lemma_flatten_or_flat(nodes: Seq<PropV>)
    requires
        nodes.len() > 0,
        all_flat(nodes),
    ensures
        flat(flatten_or_spec(nodes)),
{
    lemma_or_parts_flat(nodes);
    let f = or_parts(nodes);
    if f.len() == 1 {
        lemma_single_member(f, false);
    }
}

proof fn lemma_primary_flat(d: Dialect, ts: Seq<TokV>, p: int)
    ensures
        sp_primary(d, ts, p) matches Some((e, _)) ==> flat(e),
    decreases ts, 0int, 0int,
{
    if 0 <= p < ts.len() && ts[p] is Group && ts[p]->Group_0 == crate::tokens::Delim::Paren {
        let inner = ts[p]->Group_1;
        assert(decreases_to!(ts => ts[p]));
        lemma_implies_flat(d, inner, 0);
    }
}

proof fn lemma_unary_flat(d: Dialect, ts: Seq<TokV>, p: int)
    ensures
        sp_unary(d, ts, p) matches Some((e, _)) ==> flat(e),
    decreases ts, ts.len() - p, 1int,
{
    if p < 0 || p > ts.len() {
    } else if d.negation && crate::derive::parse::punct_at(ts, p, '!') {
        lemma_unary_flat(d, ts, p + 1);
    } else {
        lemma_primary_flat(d, ts, p);
    }
}

proof fn lemma_and_items_flat(d: Dialect, ts: Seq<TokV>, p: int)
    ensures
        sp_and_items(d, ts, p) matches Some((items, _)) ==> all_flat(items) && items.len() > 0,
    decreases ts, ts.len() - p, 2int,
{
    if 0 <= p <= ts.len() {
        lemma_unary_flat(d, ts, p);
        match sp_unary(d, ts, p) {
            Some((a, q)) => if p <= q && crate::derive::parse::op2_at(ts, q, '&', '&') {
                lemma_and_items_flat(d, ts, q + 2);
                match sp_and_items(d, ts, q + 2) {
                    Some((rest, r)) => {
                        assert forall|k: int| 0 <= k < (seq![a] + rest).len() implies flat(#[trigger] (seq![a] + rest)[k]) by {
                            if k > 0 {
                                assert((seq![a] + rest)[k] == rest[k - 1]);
                            }
                        }
                    },
                    None => {},
                }
            } else {
                assert forall|k: int| 0 <= k < seq![a].len() implies flat(#[trigger] seq![a][k]) by {}
            },
            None => {},
        }
    }
}

proof fn lemma_and_flat(d: Dialect, ts: Seq<TokV>, p: int)
    ensures
        sp_and(d, ts, p) matches Some((e, _)) ==> flat(e),
    decreases ts, ts.len() - p, 3int,
{
    if 0 <= p <= ts.len() {
        lemma_and_items_flat(d, ts, p);
        match sp_and_items(d, ts, p) {
            Some((items, _)) => lemma_flatten_and_flat(items),
            None => {},
        }
    }
}

proof fn lemma_or_items_flat(d: Dialect, ts: Seq<TokV>, p: int)
    ensures
        sp_or_items(d, ts, p) matches Some((items, _)) ==> all_flat(items) && items.len() > 0,
    decreases ts, ts.len() - p, 4int,
{
    if 0 <= p <= ts.len() {
        lemma_and_flat(d, ts, p);
        match sp_and(d, ts, p) {
            Some((a, q)) => if p <= q && crate::derive::parse::op2_at(ts, q, '|', '|') {
                lemma_or_items_flat(d, ts, q + 2);
                match sp_or_items(d, ts, q + 2) {
                    Some((rest, r)) => {
                        assert forall|k: int| 0 <= k < (seq![a] + rest).len() implies flat(#[trigger] (seq![a] + rest)[k]) by {
                            if k > 0 {
                                assert((seq![a] + rest)[k] == rest[k - 1]);
                            }
                        }
                    },
                    None => {},
                }
            } else {
                assert forall|k: int| 0 <= k < seq![a].len() implies flat(#[trigger] seq![a][k]) by {}
            },
            None => {},
        }
    }
}

proof fn lemma_or_flat(d: Dialect, ts: Seq<TokV>, p: int)
    ensures
        sp_or(d, ts, p) matches Some((e, _)) ==> flat(e),
    decreases ts, ts.len() - p, 5int,
{
    if 0 <= p <= ts.len() {
        lemma_or_items_flat(d, ts, p);
        match sp_or_items(d, ts, p) {
            Some((items, _)) => lemma_flatten_or_flat(items),
            None => {},
        }
    }
}

proof fn lemma_implies_flat(d: Dialect, ts: Seq<TokV>, p: int)
    ensures
        sp_implies(d, ts, p) matches Some((e, _)) ==> flat(e),
    decreases ts, ts.len() - p, 6int,
{
    if 0 <= p <= ts.len() {
        lemma_or_flat(d, ts, p);
        match sp_or(d, ts, p) {
            Some((lhs, q)) => if d.implies && p <= q && crate::derive::parse::op2_at(ts, q, '-', '>') {
                lemma_implies_flat(d, ts, q + 2);
            },
            None => {},
        }
    }
}

/// What the parser reads is flat: `A && (B && C)` is the conjunction of three operands,
/// `A || B || C` the disjunction of three, and no conjunction or disjunction is read with
/// fewer than two operands.
pub proof fn law_parsed_expressions_flat(d: Dialect, ts: Seq<TokV>)
    ensures
        sp_input(d, ts) matches Some(i) ==> (i.expr matches Some(e) ==> flat(e)),
{
    match crate::derive::parse::sp_attrs(ts, 0) {
        Some(a) => match crate::derive::parse::sp_opt_binders(d, ts, a + 1) {
            Some((_, b)) => lemma_implies_flat(d, ts, b + 1),
            None => {},
        },
        None => {},
    }
}

/// A well-shaped named form: every conjunction has a member and every disjunction two.
pub open spec fn named_ok(n: NamedV) -> bool
    decreases n, 1int,
{
    match n {
        NamedV::Atom(_) => true,
        NamedV::And { children, .. } => children.len() >= 1 && named_ok_list(children),
        NamedV::Or { children, .. } => children.len() >= 2 && named_ok_list(children),
        NamedV::Imply { premise, conclusion, .. } => named_ok(*premise) && named_ok(*conclusion),
    }
}

pub open spec fn named_ok_list(cs: Seq<NamedV>) -> bool
    decreases cs, 0int,
{
    if cs.len() == 0 {
        true
    } else {
        named_ok_list(cs.drop_last()) && named_ok(cs.last())
    }
}

proof fn lemma_flat_members_all(cs: Seq<PropV>, and: bool)
    requires
        flat_members(cs, and),
    ensures
        all_flat(cs),
    decreases cs.len(),
{
    if cs.len() > 0 {
        lemma_flat_members_all(cs.drop_last(), and);
        assert forall|k: int| 0 <= k < cs.len() implies flat(#[trigger] cs[k]) by {
            if k < cs.len() - 1 {
                assert(cs.drop_last()[k] == cs[k]);
            }
        }
    }
}

proof fn lemma_named_ok(e: PropV, base: Seq<char>, c: nat)
    requires
        flat(e),
    ensures
        named_spec(e, base, c) matches Some((n, _)) ==> named_ok(n),
    decreases e, 1int,
{
    match e {
        PropV::Atom(_) => {},
        PropV::Not(x) => {
            lemma_named_ok(*x, base, c);
            match named_spec(*x, base, c) {
                Some((nx, c1)) => {
                    assert(named_ok(nx));
                    assert(named_ok(NamedV::Atom(crate::derive::lower::absurd_atom())));
                },
                None => {},
            }
        },
        PropV::And(cs) => {
            assert(cs.len() >= 2 && flat_members(cs, true));
            lemma_flat_members_all(cs, true);
            lemma_named_list_ok(cs, base, c);
        },
        PropV::Or(cs) => {
            assert(cs.len() >= 2 && flat_members(cs, false));
            lemma_flat_members_all(cs, false);
            lemma_named_list_ok(cs, base, c);
        },
        PropV::Imply(p, q) => {
            lemma_named_ok(*p, base, c);
            match named_spec(*p, base, c) {
                Some((np, c1)) => {
                    lemma_named_ok(*q, base, c1);
                    match named_spec(*q, base, c1) {
                        Some((nq, _)) => {
                            assert(named_ok(np) && named_ok(nq));
                        },
                        None => {},
                    }
                },
                None => {},
            }
        },
    }
}

proof fn lemma_named_list_ok(cs: Seq<PropV>, base: Seq<char>, c: nat)
    requires
        all_flat(cs),
    ensures
        named_list(cs, base, c) matches Some((ns, _)) ==> named_ok_list(ns) && ns.len() == cs.len(),
    decreases cs, 0int,
{
    if cs.len() > 0 {
        let prefix = cs.drop_last();
        assert(all_flat(prefix)) by {
            assert forall|k: int| 0 <= k < prefix.len() implies flat(#[trigger] prefix[k]) by {
                assert(prefix[k] == cs[k]);
            }
        }
        lemma_named_list_ok(prefix, base, c);
        assert(flat(cs[cs.len() - 1]));
        match named_list(prefix, base, c) {
            Some((ns, c1)) => {
                lemma_named_ok(cs.last(), base, c1);
                match named_spec(cs.last(), base, c1) {
                    Some((n, _)) => {
                        assert(ns.push(n).drop_last() =~= ns);
                    },
                    None => {},
                }
            },
            None => {},
        }
    }
}

proof fn lemma_postorder_ok(n: NamedV)
    requires
        named_ok(n),
    ensures
        forall|k: int| 0 <= k < postorder(n).len() ==> #[trigger] imply_ok(postorder(n)[k]),
    decreases n, 1int,
{
    match n {
        NamedV::Atom(_) => {},
        NamedV::And { children, .. } => {
            lemma_postorder_list_ok(children);
            assert forall|k: int| 0 <= k < postorder(n).len() implies #[trigger] imply_ok(postorder(n)[k]) by {
                if k < postorder_list(children).len() {
                    assert(postorder(n)[k] == postorder_list(children)[k]);
                }
            }
        },
        NamedV::Or { children, .. } => {
            lemma_postorder_list_ok(children);
            assert forall|k: int| 0 <= k < postorder(n).len() implies #[trigger] imply_ok(postorder(n)[k]) by {
                if k < postorder_list(children).len() {
                    assert(postorder(n)[k] == postorder_list(children)[k]);
                }
            }
        },
        NamedV::Imply { premise, conclusion, .. } => {
            lemma_postorder_ok(*premise);
            lemma_postorder_ok(*conclusion);
            let a = postorder(*premise);
            let b = postorder(*conclusion);
            assert(named_ok(*conclusion));
            match *conclusion {
                NamedV::And { children, .. } => {
                    assert(children.len() >= 1);
                },
                _ => {},
            }
            assert(imply_ok(n));
            assert forall|k: int| 0 <= k < postorder(n).len() implies #[trigger] imply_ok(postorder(n)[k]) by {
                if k < a.len() {
                    assert(postorder(n)[k] == a[k]);
                } else if k < a.len() + b.len() {
                    assert(postorder(n)[k] == b[k - a.len()]);
                }
            }
        },
    }
}

proof fn lemma_postorder_list_ok(cs: Seq<NamedV>)
    requires
        named_ok_list(cs),
    ensures
        forall|k: int| 0 <= k < postorder_list(cs).len() ==> #[trigger] imply_ok(postorder_list(cs)[k]),
    decreases cs, 0int,
{
    if cs.len() > 0 {
        lemma_postorder_list_ok(cs.drop_last());
        lemma_postorder_ok(cs.last());
        let a = postorder_list(cs.drop_last());
        let b = postorder(cs.last());
        assert forall|k: int| 0 <= k < postorder_list(cs).len() implies #[trigger] imply_ok(postorder_list(cs)[k]) by {
            if k < a.len() {
                assert(postorder_list(cs)[k] == a[k]);
            } else {
                assert(postorder_list(cs)[k] == b[k - a.len()]);
            }
        }
    }
}

/// The named form of a parsed proposition is well shaped: every conjunction has a member
/// (the bare `A = B` is the conjunction of `B` alone), every disjunction at least two, and
/// so every implication can return its conclusion.
pub proof fn law_parsed_propositions_well_shaped(d: Dialect, ts: Seq<TokV>)
    ensures
        sp_input(d, ts) matches Some(i) ==> (lower_spec(i) matches Some(n) ==> named_ok(n) && implications_ok(n)),
{
    law_parsed_expressions_flat(d, ts);
    match sp_input(d, ts) {
        Some(i) => match lower_spec(i) {
            Some(n) => {
                match i.expr {
                    None => {},
                    Some(e) => {
                        assert(flat(e));
                        assert(lower_spec(i) == root_named(e, i.name));
                        match e {
                            PropV::Atom(a) => {
                                let one = seq![NamedV::Atom(a)];
                                assert(one.drop_last() =~= Seq::<NamedV>::empty());
                                assert(named_ok_list(Seq::<NamedV>::empty()));
                                assert(named_ok(NamedV::Atom(a)));
                                assert(one.last() == NamedV::Atom(a));
                                assert(named_ok_list(one));
                            },
                            PropV::Not(x) => {
                                lemma_named_ok(*x, i.name, 0);
                                assert(named_ok(NamedV::Atom(crate::derive::lower::absurd_atom())));
                            },
                            PropV::And(cs) => {
                                assert(cs.len() >= 2 && flat_members(cs, true));
                                lemma_flat_members_all(cs, true);
                                lemma_named_list_ok(cs, i.name, 0);
                            },
                            PropV::Or(cs) => {
                                assert(cs.len() >= 2 && flat_members(cs, false));
                                lemma_flat_members_all(cs, false);
                                lemma_named_list_ok(cs, i.name, 0);
                            },
                            PropV::Imply(p, q) => {
                                assert(flat(*p) && flat(*q));
                                lemma_named_ok(*p, i.name, 0);
                                match named_spec(*p, i.name, 0) {
                                    Some((np, c1)) => {
                                        lemma_named_ok(*q, i.name, c1);
                                        match named_spec(*q, i.name, c1) {
                                            Some((nq, _)) => {
                                                assert(named_ok(np) && named_ok(nq));
                                            },
                                            None => {},
                                        }
                                    },
                                    None => {},
                                }
                            },
                        }
                    },
                }
                lemma_postorder_ok(n);
            },
            None => {},
        },
        None => {},
    }
}

} // verus!
