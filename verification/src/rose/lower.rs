use vstd::prelude::*;
use crate::error::{MacroError, ErrV};
use crate::text::{decimal, push_char, push_decimal};
use crate::rose::ast::{
    prop_view, PropExpr, PropV, ProposeInput, InputV, NamedPropExpr, NamedPropV, NamedShape, ShapeV, props_view, lemma_props_view,
    named_props_view, lemma_named_props_view,
};

verus! {

/// Gives the intermediate names `{base}_0`, `{base}_1`, ... in turn.
#[derive(Clone, Debug)]
pub struct NameFactory {
    pub base: String,
    pub counter: u32,
}

/// The name that a factory with the given base gives at count `k`.
pub open spec fn rose_name(base: Seq<char>, k: nat) -> Seq<char> {
    base + seq!['_'] + decimal(k)
}

impl NameFactory {
    /// A factory whose first name is `{base}_0`.
    pub fn new(base: String) -> (f: NameFactory)
        ensures
            f.base@ == base@,
            f.counter == 0,
    {
        NameFactory { base, counter: 0 }
    }

    /// The next name, `{base}_{counter}`; the counter moves on by one.
    pub fn next(&mut self) -> (name: String)
        requires
            old(self).counter < u32::MAX,
        ensures
            name@ == rose_name(old(self).base@, old(self).counter as nat),
            final(self).base == old(self).base,
            final(self).counter == old(self).counter + 1,
    {
        let mut name = self.base.clone();
        push_char(&mut name, '_');
        push_decimal(&mut name, self.counter);
        self.counter = self.counter + 1;
        name
    }
}

/// The number of composite parts of an expression.
pub open spec fn composites(e: PropV) -> nat
    decreases e,
{
    match e {
        PropV::Atom(_) => 0,
        PropV::And(cs) => 1 + composites_list(cs),
        PropV::Or(cs) => 1 + composites_list(cs),
    }
}

pub open spec fn composites_list(cs: Seq<PropV>) -> nat
    decreases cs,
{
    if cs.len() == 0 {
        0
    } else {
        composites_list(cs.drop_last()) + composites(cs.last())
    }
}

/// The named form of an expression, with the factory's counter before and after. A
/// composite part takes the user's name if it has one, else the factory's next name before
/// its operands are named (pre-order); an atom given a user name becomes a conjunction of
/// that one atom under that name; a disjunction needs at least two operands.
pub open spec fn rose_named(e: PropV, user: Option<Seq<char>>, base: Seq<char>, c: nat) -> Option<(NamedPropV, nat)>
    decreases e, 1int,
{
    match e {
        PropV::Atom(a) => match user {
            Some(n) => Some(
                (NamedPropV { name: n, expr: ShapeV::And(seq![NamedPropV { name: a, expr: ShapeV::Atom }]) }, c),
            ),
            None => Some((NamedPropV { name: a, expr: ShapeV::Atom }, c)),
        },
        PropV::And(cs) => {
            let (name, c1) = match user {
                Some(n) => (n, c),
                None => (rose_name(base, c), c + 1),
            };
            match rose_named_list(cs, base, c1) {
                Some((ns, c2)) => Some((NamedPropV { name, expr: ShapeV::And(ns) }, c2)),
                None => None,
            }
        },
        PropV::Or(cs) => if cs.len() < 2 {
            None
        } else {
            let (name, c1) = match user {
                Some(n) => (n, c),
                None => (rose_name(base, c), c + 1),
            };
            match rose_named_list(cs, base, c1) {
                Some((ns, c2)) => Some((NamedPropV { name, expr: ShapeV::Or(ns) }, c2)),
                None => None,
            }
        },
    }
}

/// The named forms of a list of operands, left to right, without user names.
pub open spec fn rose_named_list(cs: Seq<PropV>, base: Seq<char>, c: nat) -> Option<(Seq<NamedPropV>, nat)>
    decreases cs, 0int,
{
    if cs.len() == 0 {
        Some((seq![], c))
    } else {
        match rose_named_list(cs.drop_last(), base, c) {
            Some((ns, c1)) => match rose_named(cs.last(), None, base, c1) {
                Some((n, c2)) => Some((ns.push(n), c2)),
                None => None,
            },
            None => None,
        }
    }
}

/// The factory's counter once naming of `e` from count `c` stops: after the last part
/// where it succeeds; where it refuses, after the names drawn before the refusal (a
/// composite draws its own name before its operands; a short disjunction draws none).
pub open spec fn rose_end(e: PropV, user: Option<Seq<char>>, base: Seq<char>, c: nat) -> nat
    decreases e, 1int,
{
    match e {
        PropV::Atom(_) => c,
        PropV::And(cs) => {
            let c1 = if user is Some { c } else { c + 1 };
            match rose_named_list(cs, base, c1) {
                Some((_, c2)) => c2,
                None => rose_list_end(cs, base, c1),
            }
        },
        PropV::Or(cs) => if cs.len() < 2 {
            c
        } else {
            let c1 = if user is Some { c } else { c + 1 };
            match rose_named_list(cs, base, c1) {
                Some((_, c2)) => c2,
                None => rose_list_end(cs, base, c1),
            }
        },
    }
}

/// The counter once naming of a list of operands stops: after the whole list, or within
/// the first operand that is refused.
pub open spec fn rose_list_end(cs: Seq<PropV>, base: Seq<char>, c: nat) -> nat
    decreases cs, 0int,
{
    if cs.len() == 0 {
        c
    } else {
        match rose_named_list(cs.drop_last(), base, c) {
            Some((_, c1)) => rose_end(cs.last(), None, base, c1),
            None => rose_list_end(cs.drop_last(), base, c),
        }
    }
}

/// Where naming succeeds, it stops at the counter that the named form gives.
pub proof fn lemma_rose_end_ok(e: PropV, user: Option<Seq<char>>, base: Seq<char>, c: nat)
    ensures
        rose_named(e, user, base, c) matches Some((_, c1)) ==> rose_end(e, user, base, c) == c1,
{
}

pub proof fn lemma_rose_list_end_ok(cs: Seq<PropV>, base: Seq<char>, c: nat)
    ensures
        rose_named_list(cs, base, c) matches Some((_, c1)) ==> rose_list_end(cs, base, c) == c1,
{
    if cs.len() > 0 {
        if let Some((_, c1)) = rose_named_list(cs.drop_last(), base, c) {
            lemma_rose_end_ok(cs.last(), None, base, c1);
        }
    }
}

/// Where the first `i` operands are named and the next is refused, naming the list stops
/// where naming that operand stops.
proof fn lemma_rose_list_end_at(cs: Seq<PropV>, i: int, base: Seq<char>, c: nat, c1: nat)
    requires
        0 <= i < cs.len(),
        rose_named_list(cs.take(i), base, c) matches Some((_, k)) && k == c1,
        rose_named_list(cs.take(i + 1), base, c) is None,
    ensures
        rose_list_end(cs, base, c) == rose_end(cs[i], None, base, c1),
    decreases cs.len(),
{
    if i + 1 == cs.len() {
        assert(cs.take(i + 1) =~= cs);
        assert(cs.drop_last() =~= cs.take(i));
    } else {
        let d = cs.drop_last();
        assert(d.take(i) =~= cs.take(i));
        assert(d.take(i + 1) =~= cs.take(i + 1));
        lemma_rose_list_end_at(d, i, base, c, c1);
        lemma_rose_list_none(d, base, c, i + 1);
    }
}

/// Naming without a user name moves the counter on by the number of composite parts.
pub proof fn lemma_rose_count(e: PropV, base: Seq<char>, c: nat)
    ensures
        rose_named(e, None, base, c) matches Some((_, c2)) ==> c2 == c + composites(e),
    decreases e, 1int,
{
    match e {
        PropV::Atom(_) => {},
        PropV::And(cs) => {
            lemma_rose_list_count(cs, base, c + 1);
        },
        PropV::Or(cs) => {
            lemma_rose_list_count(cs, base, c + 1);
        },
    }
}

pub proof fn lemma_rose_list_count(cs: Seq<PropV>, base: Seq<char>, c: nat)
    ensures
        rose_named_list(cs, base, c) matches Some((_, c2)) ==> c2 == c + composites_list(cs),
    decreases cs, 0int,
{
    if cs.len() > 0 {
        lemma_rose_list_count(cs.drop_last(), base, c);
        match rose_named_list(cs.drop_last(), base, c) {
            Some((_, c1)) => lemma_rose_count(cs.last(), base, c1),
            None => {},
        }
    }
}

pub proof fn lemma_composites_prefix(cs: Seq<PropV>, i: int)
    requires
        0 <= i < cs.len(),
    ensures
        composites_list(cs.take(i)) + composites(cs[i]) <= composites_list(cs),
    decreases cs.len(),
{
    if i == cs.len() - 1 {
        assert(cs.drop_last() =~= cs.take(i));
    } else {
        assert(cs.drop_last().take(i) =~= cs.take(i));
        lemma_composites_prefix(cs.drop_last(), i);
    }
}

/// Names an expression (see `rose_named`).
pub fn name_expr(expr: PropExpr, user_name: Option<String>, factory: &mut NameFactory) -> (r: Result<NamedPropExpr, MacroError>)
    requires
        old(factory).counter + composites(expr@) <= u32::MAX,
    ensures
        final(factory).base == old(factory).base,
        r matches Ok(n) ==> rose_named(
            expr@,
            match user_name { Some(u) => Some(u@), None => None },
            old(factory).base@,
            old(factory).counter as nat,
        ) == Some((n@, final(factory).counter as nat)),
        r matches Err(e) ==> rose_named(
            expr@,
            match user_name { Some(u) => Some(u@), None => None },
            old(factory).base@,
            old(factory).counter as nat,
        ) is None && e@ == ErrV::DisjunctionOperands(old(factory).base@),
        final(factory).counter == rose_end(
            expr@,
            match user_name { Some(u) => Some(u@), None => None },
            old(factory).base@,
            old(factory).counter as nat,
        ),
        (r is Err && (expr@ matches PropV::Or(cs) && cs.len() < 2)) ==> final(factory).counter == old(factory).counter,
    decreases expr@, 2int,
{
    match expr {
        PropExpr::Atom(ident) => match user_name {
            Some(name) => {
                let mut children: Vec<NamedPropExpr> = Vec::new();
                children.push(NamedPropExpr { name: ident, expr: NamedShape::Atom });
                let r = NamedPropExpr { name, expr: NamedShape::And(children) };
                proof {
                    lemma_named_props_view(children@);
                    assert(named_props_view(children@) =~= seq![NamedPropV { name: ident@, expr: ShapeV::Atom }]);
                }
                Ok(r)
            },
            None => Ok(NamedPropExpr { name: ident, expr: NamedShape::Atom }),
        },
        PropExpr::And(children) => {
            proof {
                assert(decreases_to!(expr@ => props_view(children@)));
            }
            name_composite(children, user_name, factory, true)
        },
        PropExpr::Or(children) => {
            if children.len() < 2 {
                proof {
                    lemma_props_view(children@);
                }
                return Err(MacroError::DisjunctionOperands(factory.base.clone()));
            }
            proof {
                lemma_props_view(children@);
            }
            name_composite(children, user_name, factory, false)
        },
    }
}

/// Names the operands, left to right.
fn name_children(children: Vec<PropExpr>, factory: &mut NameFactory) -> (r: Result<Vec<NamedPropExpr>, MacroError>)
    requires
        old(factory).counter + composites_list(props_view(children@)) <= u32::MAX,
    ensures
        final(factory).base == old(factory).base,
        r matches Ok(ns) ==> rose_named_list(props_view(children@), old(factory).base@, old(factory).counter as nat)
            == Some((named_props_view(ns@), final(factory).counter as nat)),
        r matches Err(e) ==> rose_named_list(props_view(children@), old(factory).base@, old(factory).counter as nat)
            is None && e@ == ErrV::DisjunctionOperands(old(factory).base@),
        final(factory).counter == rose_list_end(props_view(children@), old(factory).base@, old(factory).counter as nat),
    decreases props_view(children@), 0int,
{
    let ghost all = children@;
    let ghost pv = props_view(all);
    let ghost base = factory.base@;
    let ghost c0 = factory.counter as nat;
    let mut children = children;
    let mut out: Vec<NamedPropExpr> = Vec::new();
    let n = children.len();
    let mut i: usize = 0;
    proof {
        lemma_props_view(all);
        assert(pv.take(0) =~= seq![]);
        assert(named_props_view(out@) =~= seq![]);
    }
    #[verifier::loop_isolation(false)]
    while children.len() > 0
        invariant
            n == all.len(),
            pv == props_view(all),
            pv.len() == n,
            forall|j: int| 0 <= j < n ==> #[trigger] pv[j] == prop_view(all[j]),
            i + children@.len() == n,
            children@ == all.subrange(i as int, n as int),
            factory.base@ == base,
            factory.base == old(factory).base,
            c0 == old(factory).counter,
            c0 + composites_list(pv) <= u32::MAX,
            rose_named_list(pv.take(i as int), base, c0) == Some((named_props_view(out@), factory.counter as nat)),
            factory.counter == c0 + composites_list(pv.take(i as int)),
        decreases children@.len(),
    {
        let child = children.remove(0);
        proof {
            assert(child == all[i as int]);
            assert(pv[i as int] == prop_view(child));
            assert(pv.take(i + 1).drop_last() =~= pv.take(i as int));
            assert(pv.take(i + 1).last() == prop_view(child));
            lemma_composites_prefix(pv, i as int);
            assert(decreases_to!(pv => pv[i as int]));
        }
        let ghost cnt = factory.counter as nat;
        let named = match name_expr(child, None, factory) {
            Ok(nm) => nm,
            Err(e) => {
                proof {
                    lemma_rose_list_none(pv, base, c0, i + 1);
                    lemma_rose_list_end_at(pv, i as int, base, c0, cnt);
                }
                return Err(e);
            },
        };
        proof {
            lemma_rose_count(prop_view(child), base, cnt);
            assert(out@.push(named).drop_last() =~= out@);
        }
        out.push(named);
        assert(children@ =~= all.subrange(i + 1, n as int));
        i = i + 1;
    }
    assert(pv.take(n as int) =~= pv);
    proof {
        lemma_rose_list_end_ok(pv, base, c0);
    }
    Ok(out)
}

/// Names a conjunction (`is_and`) or disjunction of the operands.
pub fn name_composite(children: Vec<PropExpr>, user_name: Option<String>, factory: &mut NameFactory, is_and: bool) -> (r: Result<NamedPropExpr, MacroError>)
    requires
        old(factory).counter + 1 + composites_list(props_view(children@)) <= u32::MAX,
        !is_and ==> children@.len() >= 2,
    ensures
        final(factory).base == old(factory).base,
        r matches Ok(n) ==> rose_named(
            if is_and { PropV::And(props_view(children@)) } else { PropV::Or(props_view(children@)) },
            match user_name { Some(u) => Some(u@), None => None },
            old(factory).base@,
            old(factory).counter as nat,
        ) == Some((n@, final(factory).counter as nat)),
        r matches Err(e) ==> rose_named(
            if is_and { PropV::And(props_view(children@)) } else { PropV::Or(props_view(children@)) },
            match user_name { Some(u) => Some(u@), None => None },
            old(factory).base@,
            old(factory).counter as nat,
        ) is None && e@ == ErrV::DisjunctionOperands(old(factory).base@),
        final(factory).counter == rose_end(
            if is_and { PropV::And(props_view(children@)) } else { PropV::Or(props_view(children@)) },
            match user_name { Some(u) => Some(u@), None => None },
            old(factory).base@,
            old(factory).counter as nat,
        ),
    decreases props_view(children@), 1int,
{
    proof {
        lemma_props_view(children@);
    }
    let name = match user_name {
        Some(n) => n,
        None => factory.next(),
    };
    let named = match name_children(children, factory) {
        Ok(v) => v,
        Err(e) => return Err(e),
    };
    if is_and {
        Ok(NamedPropExpr { name, expr: NamedShape::And(named) })
    } else {
        Ok(NamedPropExpr { name, expr: NamedShape::Or(named) })
    }
}

/// A failure on a prefix of the operands is a failure of all of them.
pub proof fn lemma_rose_list_none(cs: Seq<PropV>, base: Seq<char>, c: nat, k: int)
    requires
        0 <= k <= cs.len(),
        rose_named_list(cs.take(k), base, c) is None,
    ensures
        rose_named_list(cs, base, c) is None,
    decreases cs.len(),
{
    if k == cs.len() {
        assert(cs.take(k) =~= cs);
    } else {
        assert(cs.drop_last().take(k) =~= cs.take(k));
        lemma_rose_list_none(cs.drop_last(), base, c, k);
    }
}

/// The named form of an input (see `rose_named`): a bare proposition is an atom under its
/// own name; otherwise the expression is named with the input's name as the user name.
pub open spec fn rose_lower_spec(i: InputV) -> Option<NamedPropV> {
    match i.expr {
        None => Some(NamedPropV { name: i.name, expr: ShapeV::Atom }),
        Some(e) => match rose_named(e, Some(i.name), i.name, 0) {
            Some((n, _)) => Some(n),
            None => None,
        },
    }
}

/// The number of composite parts, if it fits a `u32`.
pub fn count_composites(e: &PropExpr) -> (r: Option<u32>)
    ensures
        r matches Some(k) ==> k == composites(e@),
        r is None ==> composites(e@) > u32::MAX,
    decreases e,
{
    match e {
        PropExpr::Atom(_) => Some(0),
        PropExpr::And(cs) => match count_composites_list(cs) {
            Some(k) => if k < u32::MAX { Some(k + 1) } else { None },
            None => None,
        },
        PropExpr::Or(cs) => match count_composites_list(cs) {
            Some(k) => if k < u32::MAX { Some(k + 1) } else { None },
            None => None,
        },
    }
}

fn count_composites_list(cs: &Vec<PropExpr>) -> (r: Option<u32>)
    ensures
        r matches Some(k) ==> k == composites_list(props_view(cs@)),
        r is None ==> composites_list(props_view(cs@)) > u32::MAX,
    decreases cs,
{
    let ghost cv = props_view(cs@);
    proof {
        lemma_props_view(cs@);
    }
    let n = cs.len();
    let mut total: u32 = 0;
    let mut i: usize = 0;
    assert(cv.take(0) =~= seq![]);
    while i < n
        invariant
            n == cs@.len(),
            cv == props_view(cs@),
            cv.len() == n,
            forall|j: int| 0 <= j < n ==> #[trigger] cv[j] == cs@[j]@,
            i <= n,
            total == composites_list(cv.take(i as int)),
        decreases n - i,
    {
        assert(cv.take(i + 1).drop_last() =~= cv.take(i as int));
        proof {
            lemma_composites_prefix(cv, i as int);
        }
        match count_composites(&cs[i]) {
            Some(k) => {
                if k > u32::MAX - total {
                    return None;
                }
                total = total + k;
            },
            None => return None,
        }
        i = i + 1;
    }
    assert(cv.take(n as int) =~= cv);
    Some(total)
}

/// Names the parts of a proposition; refused when it has more parts than can be counted
/// or when a disjunction has fewer than two operands.
pub fn lower_propose(input: ProposeInput) -> (r: Result<NamedPropExpr, MacroError>)
    ensures
        (input@.expr matches Some(x) && composites(x) >= u32::MAX) ==> (r matches Err(e) && e@ == ErrV::TooManyParts),
        !(input@.expr matches Some(x) && composites(x) >= u32::MAX) ==> match r {
            Ok(n) => rose_lower_spec(input@) == Some(n@),
            Err(e) => rose_lower_spec(input@) is None && e@ == ErrV::DisjunctionOperands(input@.name),
        },
{
    match input.expr {
        None => Ok(NamedPropExpr { name: input.name, expr: NamedShape::Atom }),
        Some(expr) => {
            match count_composites(&expr) {
                Some(k) => {
                    if k == u32::MAX {
                        return Err(MacroError::TooManyParts);
                    }
                },
                None => return Err(MacroError::TooManyParts),
            }
            let mut factory = NameFactory::new(input.name.clone());
            let name = input.name;
            name_expr(expr, Some(name), &mut factory)
        },
    }
}

/// The factory never gives the same name twice: `{base}_{j}` and `{base}_{k}` differ for
/// different counts, and neither is the base itself.
pub proof fn law_rose_factory_names_distinct(base: Seq<char>, j: nat, k: nat)
    requires
        j != k,
    ensures
        rose_name(base, j) != rose_name(base, k),
        rose_name(base, j) != base,
{
    crate::derive::lower::lemma_factory_names_distinct(base + seq!['_'], j, k);
    assert(rose_name(base, j).len() > base.len());
}

/// The names of the composite parts in pre-order: a part before its operands.
pub open spec fn rose_part_names(n: NamedPropV) -> Seq<Seq<char>>
    decreases n, 1int,
{
    match n.expr {
        ShapeV::Atom => seq![],
        ShapeV::And(cs) => seq![n.name] + rose_part_names_list(cs),
        ShapeV::Or(cs) => seq![n.name] + rose_part_names_list(cs),
    }
}

pub open spec fn rose_part_names_list(cs: Seq<NamedPropV>) -> Seq<Seq<char>>
    decreases cs, 0int,
{
    if cs.len() == 0 {
        seq![]
    } else {
        rose_part_names_list(cs.drop_last()) + rose_part_names(cs.last())
    }
}

/// The names a factory gives from count `c` on, `k` of them.
pub open spec fn rose_run(base: Seq<char>, c: nat, k: nat) -> Seq<Seq<char>> {
    Seq::new(k, |j: int| rose_name(base, c + j as nat))
}

proof fn lemma_rose_run_concat(base: Seq<char>, c: nat, k1: nat, k2: nat)
    ensures
        rose_run(base, c, k1) + rose_run(base, c + k1, k2) =~= rose_run(base, c, k1 + k2),
{
}

/// Naming without a user name gives the composite parts the factory's names in pre-order,
/// one each, with nothing skipped.
pub proof fn lemma_rose_part_names(e: PropV, base: Seq<char>, c: nat)
    ensures
        rose_named(e, None, base, c) matches Some((n, c1)) ==> c <= c1 && rose_part_names(n) == rose_run(base, c, (c1 - c) as nat),
    decreases e, 1int,
{
    match e {
        PropV::Atom(_) => {
            assert(rose_run(base, c, 0) =~= seq![]);
        },
        PropV::And(cs) => {
            lemma_rose_list_part_names(cs, base, c + 1);
            if let Some((ns, c1)) = rose_named_list(cs, base, c + 1) {
                lemma_rose_run_concat(base, c, 1, (c1 - c - 1) as nat);
                assert(rose_run(base, c, 1) =~= seq![rose_name(base, c)]);
            }
        },
        PropV::Or(cs) => {
            lemma_rose_list_part_names(cs, base, c + 1);
            if let Some((ns, c1)) = rose_named_list(cs, base, c + 1) {
                lemma_rose_run_concat(base, c, 1, (c1 - c - 1) as nat);
                assert(rose_run(base, c, 1) =~= seq![rose_name(base, c)]);
            }
        },
    }
}

pub proof fn lemma_rose_list_part_names(cs: Seq<PropV>, base: Seq<char>, c: nat)
    ensures
        rose_named_list(cs, base, c) matches Some((ns, c1)) ==> c <= c1 && rose_part_names_list(ns) == rose_run(base, c, (c1 - c) as nat),
    decreases cs, 0int,
{
    if cs.len() == 0 {
        assert(rose_run(base, c, 0) =~= seq![]);
    } else {
        lemma_rose_list_part_names(cs.drop_last(), base, c);
        if let Some((ns, c1)) = rose_named_list(cs.drop_last(), base, c) {
            lemma_rose_part_names(cs.last(), base, c1);
            if let Some((n, c2)) = rose_named(cs.last(), None, base, c1) {
                assert(ns.push(n).drop_last() =~= ns);
                lemma_rose_run_concat(base, c, (c1 - c) as nat, (c2 - c1) as nat);
            }
        }
    }
}

/// Every composite part of a lowered fact proposition gets a name of its own: the whole
/// takes the proposition's name, the parts below it `{name}_0`, `{name}_1`, ... in
/// pre-order, and no two parts share a name.
pub proof fn law_rose_lowered_part_names(i: InputV)
    requires
        rose_lower_spec(i) is Some,
        i.expr is Some,
    ensures
        rose_part_names(rose_lower_spec(i).unwrap())[0] == i.name,
        rose_part_names(rose_lower_spec(i).unwrap()).drop_first() =~= rose_run(
            i.name,
            0,
            (rose_part_names(rose_lower_spec(i).unwrap()).len() - 1) as nat,
        ),
        forall|a: int, b: int|
            0 <= a < b < rose_part_names(rose_lower_spec(i).unwrap()).len() ==> rose_part_names(rose_lower_spec(i).unwrap())[a]
                != rose_part_names(rose_lower_spec(i).unwrap())[b],
{
    let e = i.expr.unwrap();
    let name = i.name;
    let n = rose_lower_spec(i).unwrap();
    match e {
        PropV::Atom(a) => {
            let one = seq![NamedPropV { name: a, expr: ShapeV::Atom }];
            assert(one.drop_last() =~= Seq::<NamedPropV>::empty());
            assert(rose_part_names_list(Seq::<NamedPropV>::empty()) =~= seq![]);
            assert(rose_part_names(one.last()) =~= seq![]);
            assert(rose_part_names_list(one) =~= seq![]);
            assert(rose_part_names(n) =~= seq![name]);
            assert(rose_part_names(n).drop_first() =~= rose_run(name, 0, 0));
        },
        PropV::And(cs) => {
            lemma_rose_list_part_names(cs, name, 0);
        },
        PropV::Or(cs) => {
            lemma_rose_list_part_names(cs, name, 0);
        },
    }
    let names = rose_part_names(n);
    assert(names.drop_first() =~= rose_run(name, 0, (names.len() - 1) as nat));
    assert forall|a: int, b: int| 0 <= a < b < names.len() implies names[a] != names[b] by {
        assert(names[b] == names.drop_first()[b - 1]);
        assert(names[b] == rose_name(name, (b - 1) as nat));
        if a == 0 {
            law_rose_factory_names_distinct(name, (b - 1) as nat, (b - 1 + 1) as nat);
        } else {
            assert(names[a] == names.drop_first()[a - 1]);
            law_rose_factory_names_distinct(name, (a - 1) as nat, (b - 1) as nat);
        }
    }
}

} // verus!
