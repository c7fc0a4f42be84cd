use vstd::prelude::*;
use crate::case::{snake_case, to_snake_case};
use crate::error::{MacroError, ErrV};
use crate::search::{first_index, lemma_first_index, position_of};
use crate::tokens::{Delim, Tok, TokV, toks_view, word, mark, group, app_mark, app_name, app_group, word_toks};
use crate::derive::ast::strings_view;
use crate::derive::lower::{NamedExpr, NamedV, named_name, nameds_view, lemma_nameds_view};
use crate::derive::generics::{comma_list, lemma_comma_list_push};
use crate::derive::emit::conjunction::{ConjunctionMember, MemberV, members_view};
use crate::derive::emit::members::conclusion_ok;

pub use crate::derive::emit::members::is_implication_and_operand;
pub use crate::derive::emit::obligation::proof_trait_name;

verus! {

/// The emitted form of a member named `n`: the type `n`, held in the field `n` in snake case.
pub open spec fn name_member(n: Seq<char>) -> MemberV {
    MemberV { ty: word(n), field: snake_case(n) }
}

pub open spec fn snake_all(ns: Seq<Seq<char>>) -> Seq<Seq<char>> {
    ns.map_values(|n: Seq<char>| snake_case(n))
}

/// The members of a conjunction of the given names, in order, or the first refusal: a
/// name listed before, or else a name whose field an earlier name already has.
pub open spec fn resolve_names_spec(ns: Seq<Seq<char>>) -> Result<Seq<MemberV>, ErrV>
    decreases ns.len(),
{
    if ns.len() == 0 {
        Ok(seq![])
    } else {
        let prefix = ns.drop_last();
        let n = ns.last();
        match resolve_names_spec(prefix) {
            Err(e) => Err(e),
            Ok(rs) => match first_index(prefix, n) {
                Some(j) => Err(ErrV::DuplicateMember { key: n, other: prefix[j] }),
                None => match first_index(snake_all(prefix), snake_case(n)) {
                    Some(j) => Err(ErrV::FieldClash { member: n, field: snake_case(n), other: prefix[j] }),
                    None => Ok(rs.push(name_member(n))),
                },
            },
        }
    }
}

pub proof fn lemma_resolve_names_err_prefix(ns: Seq<Seq<char>>, k: int)
    requires
        0 <= k <= ns.len(),
        resolve_names_spec(ns.take(k)) is Err,
    ensures
        resolve_names_spec(ns) == resolve_names_spec(ns.take(k)),
    decreases ns.len(),
{
    if k == ns.len() {
        assert(ns.take(k) =~= ns);
    } else {
        assert(ns.drop_last().take(k) =~= ns.take(k));
        lemma_resolve_names_err_prefix(ns.drop_last(), k);
    }
}


/// The members of a conjunction of the given names, or the first name listed twice or
/// whose field is taken.
pub fn resolve_conjunction_members(members: &Vec<String>) -> (r: Result<Vec<ConjunctionMember>, MacroError>)
    ensures
        match r {
            Ok(v) => resolve_names_spec(strings_view(members@)) == Ok::<Seq<MemberV>, ErrV>(members_view(v@)),
            Err(e) => resolve_names_spec(strings_view(members@)) == Err::<Seq<MemberV>, ErrV>(e@),
        },
{
    let ghost ns = strings_view(members@);
    let mut resolved: Vec<ConjunctionMember> = Vec::new();
    let mut seen: Vec<String> = Vec::new();
    let mut fields: Vec<String> = Vec::new();
    let n = members.len();
    let mut i: usize = 0;
    assert(ns.take(0) =~= seq![]);
    assert(members_view(resolved@) =~= seq![]);
    assert(strings_view(seen@) =~= ns.take(0));
    assert(strings_view(fields@) =~= snake_all(ns.take(0)));
    while i < n
        invariant
            n == members@.len(),
            ns == strings_view(members@),
            i <= n,
            resolve_names_spec(ns.take(i as int)) == Ok::<Seq<MemberV>, ErrV>(members_view(resolved@)),
            strings_view(seen@) == ns.take(i as int),
            strings_view(fields@) == snake_all(ns.take(i as int)),
        decreases n - i,
    {
        let ghost prefix = ns.take(i as int);
        let ghost m = ns[i as int];
        assert(ns.take(i + 1).drop_last() =~= prefix);
        assert(ns.take(i + 1).last() == m);
        let ty = members[i].clone();
        let field = to_snake_case(ty.as_str());
        proof {
            lemma_first_index(prefix, m);
            lemma_first_index(snake_all(prefix), snake_case(m));
        }
        match position_of(&seen, &ty) {
            Some(j) => {
                let other = seen[j].clone();
                proof {
                    lemma_resolve_names_err_prefix(ns, i + 1);
                }
                return Err(MacroError::DuplicateMember { key: ty, other });
            },
            None => {},
        }
        match position_of(&fields, &field) {
            Some(j) => {
                let other = seen[j].clone();
                proof {
                    lemma_resolve_names_err_prefix(ns, i + 1);
                }
                return Err(MacroError::FieldClash { member: ty, field, other });
            },
            None => {},
        }
        let ghost s0 = strings_view(seen@);
        let ghost f0 = strings_view(fields@);
        let ghost r0 = members_view(resolved@);
        seen.push(ty.clone());
        fields.push(field.clone());
        let ty_toks = word_toks(ty.as_str());
        resolved.push(ConjunctionMember { ty: ty_toks, field });
        assert(strings_view(seen@) =~= s0.push(m));
        assert(snake_all(ns.take(i + 1)) =~= snake_all(prefix).push(snake_case(m)));
        assert(strings_view(fields@) =~= f0.push(snake_case(m)));
        assert(members_view(resolved@) =~= r0.push(name_member(m)));
        assert(ns.take(i + 1) =~= prefix.push(m));
        i = i + 1;
    }
    assert(ns.take(n as int) =~= ns);
    Ok(resolved)
}

/// The names of the operands, in order.
pub open spec fn names_of(cs: Seq<NamedV>) -> Seq<Seq<char>> {
    cs.map_values(|c: NamedV| named_name(c))
}

/// The names of the operands.
pub fn child_names(children: &Vec<NamedExpr>) -> (r: Vec<String>)
    ensures
        strings_view(r@) == names_of(nameds_view(children@)),
{
    let ghost cv = nameds_view(children@);
    proof {
        lemma_nameds_view(children@);
    }
    let mut r: Vec<String> = Vec::new();
    let n = children.len();
    let mut i: usize = 0;
    while i < n
        invariant
            n == children@.len(),
            cv == nameds_view(children@),
            cv.len() == n,
            forall|j: int| 0 <= j < n ==> #[trigger] cv[j] == children@[j]@,
            i <= n,
            strings_view(r@) == names_of(cv).take(i as int),
        decreases n - i,
    {
        let ghost before = strings_view(r@);
        let nm = children[i].name();
        r.push(nm);
        assert(strings_view(r@) =~= before.push(nm@));
        assert(names_of(cv).take(i + 1) =~= names_of(cv).take(i as int).push(named_name(cv[i as int])));
        assert(strings_view(r@) =~= names_of(cv).take(i + 1));
        i = i + 1;
    }
    assert(names_of(cv).take(n as int) =~= names_of(cv));
    r
}

/// The parameters of an implication with the given premise: one per member of a
/// conjunction premise, else one for the whole premise, each named by its type in snake case.
pub open spec fn premise_params_spec(p: NamedV) -> Result<Seq<MemberV>, ErrV> {
    match p {
        NamedV::And { children, .. } => resolve_names_spec(names_of(children)),
        _ => Ok(seq![name_member(named_name(p))]),
    }
}

/// The parameters of an implication whose premise is the given part.
pub fn premise_params(premise: &NamedExpr) -> (r: Result<Vec<ConjunctionMember>, MacroError>)
    ensures
        match r {
            Ok(v) => premise_params_spec(premise@) == Ok::<Seq<MemberV>, ErrV>(members_view(v@)),
            Err(e) => premise_params_spec(premise@) == Err::<Seq<MemberV>, ErrV>(e@),
        },
{
    match premise {
        NamedExpr::And { children, .. } => {
            let names = child_names(children);
            resolve_conjunction_members(&names)
        },
        _ => {
            let mut v: Vec<ConjunctionMember> = Vec::new();
            v.push(single_param(premise));
            assert(members_view(v@) =~= seq![name_member(named_name(premise@))]);
            Ok(v)
        },
    }
}

/// The parameter for a whole premise: its name in snake case, with its type.
pub fn single_param(expr: &NamedExpr) -> (r: ConjunctionMember)
    ensures
        r@ == name_member(named_name(expr@)),
{
    let ty = expr.name();
    let field = to_snake_case(ty.as_str());
    ConjunctionMember { ty: word_toks(ty.as_str()), field }
}

/// The type an implication returns: a tuple of the members' names for a conjunction
/// (`(A,)` for one member), else the conclusion's name.
pub open spec fn conclusion_ty_spec(c: NamedV) -> Seq<TokV> {
    match c {
        NamedV::And { children, .. } => if children.len() == 1 {
            group(Delim::Paren, word(named_name(children[0])) + mark(','))
        } else {
            group(Delim::Paren, comma_list(names_of(children).map_values(|n: Seq<char>| word(n))))
        },
        _ => word(named_name(c)),
    }
}

/// The type an implication with the given conclusion returns.
pub fn conclusion_ty(conclusion: &NamedExpr) -> (r: Vec<Tok>)
    requires
        conclusion_ok(conclusion@),
    ensures
        toks_view(r@) == conclusion_ty_spec(conclusion@),
{
    match conclusion {
        NamedExpr::And { children, .. } => {
            let names = child_names(children);
            let ghost nv = strings_view(names@);
            proof {
                lemma_nameds_view(children@);
            }
            if names.len() == 1 {
                let mut inner = word_toks(names[0].as_str());
                app_mark(&mut inner, ',');
                let mut r: Vec<Tok> = Vec::new();
                app_group(&mut r, Delim::Paren, inner);
                assert(toks_view(r@) =~= conclusion_ty_spec(conclusion@));
                r
            } else {
                let mut inner: Vec<Tok> = Vec::new();
                let n = names.len();
                let mut i: usize = 0;
                assert(nv.map_values(|n: Seq<char>| word(n)).take(0) =~= seq![]);
                while i < n
                    invariant
                        n == names@.len(),
                        nv == strings_view(names@),
                        i <= n,
                        toks_view(inner@) == comma_list(nv.map_values(|n: Seq<char>| word(n)).take(i as int)),
                    decreases n - i,
                {
                    let ghost before = toks_view(inner@);
                    if i > 0 {
                        app_mark(&mut inner, ',');
                    }
                    let ghost mid = toks_view(inner@);
                    app_name(&mut inner, &names[i]);
                    proof {
                        let items = nv.map_values(|n: Seq<char>| word(n));
                        assert(items.take(i + 1) =~= items.take(i as int).push(word(nv[i as int])));
                        lemma_comma_list_push(items.take(i as int), word(nv[i as int]));
                        if i == 0 {
                            assert(mid =~= seq![]);
                            assert(toks_view(inner@) =~= word(nv[i as int]));
                        }
                    }
                    i = i + 1;
                }
                assert(nv.map_values(|n: Seq<char>| word(n)).take(n as int) =~= nv.map_values(|n: Seq<char>| word(n)));
                let mut r: Vec<Tok> = Vec::new();
                app_group(&mut r, Delim::Paren, inner);
                assert(toks_view(r@) =~= conclusion_ty_spec(conclusion@));
                r
            }
        },
        _ => word_toks(conclusion.name().as_str()),
    }
}

/// A conjunction of names that resolves has one member per name, in order, each of the
/// type of that name and in the field of its snake case; no name is listed twice and no two
/// names share a field.
pub proof fn law_resolved_names_distinct(ns: Seq<Seq<char>>)
    requires
        resolve_names_spec(ns) is Ok,
    ensures
        resolve_names_spec(ns)->Ok_0.len() == ns.len(),
        forall|i: int| 0 <= i < ns.len() ==> #[trigger] resolve_names_spec(ns)->Ok_0[i] == name_member(ns[i]),
        forall|i: int, j: int|
            0 <= i < j < ns.len() ==> #[trigger] ns[i] != #[trigger] ns[j] && snake_case(ns[i]) != snake_case(ns[j]),
    decreases ns.len(),
{
    if ns.len() > 0 {
        let prefix = ns.drop_last();
        let n = ns.last();
        law_resolved_names_distinct(prefix);
        lemma_first_index(prefix, n);
        lemma_first_index(snake_all(prefix), snake_case(n));
        assert forall|i: int, j: int| 0 <= i < j < ns.len() implies #[trigger] ns[i] != #[trigger] ns[j] && snake_case(ns[i])
            != snake_case(ns[j]) by {
            assert(prefix[i] == ns[i]);
            if j == ns.len() - 1 {
                assert(snake_all(prefix)[i] == snake_case(prefix[i]));
            } else {
                assert(prefix[j] == ns[j]);
            }
        }
        assert forall|i: int| 0 <= i < ns.len() implies #[trigger] resolve_names_spec(ns)->Ok_0[i] == name_member(ns[i]) by {
            if i < ns.len() - 1 {
                assert(prefix[i] == ns[i]);
            }
        }
    }
}

} // verus!
