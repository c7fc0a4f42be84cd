use vstd::prelude::*;
use crate::error::MacroError;
use crate::lexer::{lex, lex_spec};
use crate::derive::ast as full;
use crate::derive::parse::{Dialect, sp_input, parse_input, syntax};
use crate::rose::ast::{PropExpr, PropV, ProposeInput, InputV, props_view, lemma_props_view};

verus! {

/// The fact language: conjunction, disjunction and parentheses only.
pub open spec fn rose_dialect() -> Dialect {
    Dialect { implies: false, negation: false, generics: false }
}

/// An expression of the full language as one of the fact language, if it is one.
pub open spec fn rose_of(e: full::PropV) -> Option<PropV>
    decreases e, 1int,
{
    match e {
        full::PropV::Atom(a) => if a.args.len() == 0 {
            Some(PropV::Atom(a.name))
        } else {
            None
        },
        full::PropV::And(cs) => match rose_of_list(cs) {
            Some(rs) => Some(PropV::And(rs)),
            None => None,
        },
        full::PropV::Or(cs) => match rose_of_list(cs) {
            Some(rs) => Some(PropV::Or(rs)),
            None => None,
        },
        _ => None,
    }
}

pub open spec fn rose_of_list(cs: Seq<full::PropV>) -> Option<Seq<PropV>>
    decreases cs, 0int,
{
    if cs.len() == 0 {
        Some(seq![])
    } else {
        match rose_of_list(cs.drop_last()) {
            Some(rs) => match rose_of(cs.last()) {
                Some(r) => Some(rs.push(r)),
                None => None,
            },
            None => None,
        }
    }
}

/// The reading of the input of the fact language's `propose!`.
pub open spec fn sp_rose_input(ts: Seq<crate::tokens::TokV>) -> Option<InputV> {
    match sp_input(rose_dialect(), ts) {
        None => None,
        Some(i) => match i.expr {
            None => Some(InputV { attrs: i.attrs, name: i.name, expr: None }),
            Some(e) => match rose_of(e) {
                Some(r) => Some(InputV { attrs: i.attrs, name: i.name, expr: Some(r) }),
                None => None,
            },
        },
    }
}

fn to_rose(e: full::PropExpr) -> (r: Option<PropExpr>)
    ensures
        r matches Some(x) ==> rose_of(e@) == Some(x@),
        r is None ==> rose_of(e@) is None,
    decreases e@, 1int,
{
    match e {
        full::PropExpr::Atom(a) => {
            if a.args.len() == 0 {
                Some(PropExpr::Atom(a.name))
            } else {
                proof {
                    assert(a@.args.len() == a.args@.len());
                }
                None
            }
        },
        full::PropExpr::And(cs) => {
            proof {
                full::lemma_props_view(cs@);
            }
            match to_rose_list(cs) {
                Some(rs) => Some(PropExpr::And(rs)),
                None => None,
            }
        },
        full::PropExpr::Or(cs) => {
            proof {
                full::lemma_props_view(cs@);
            }
            match to_rose_list(cs) {
                Some(rs) => Some(PropExpr::Or(rs)),
                None => None,
            }
        },
        _ => None,
    }
}

fn to_rose_list(cs: Vec<full::PropExpr>) -> (r: Option<Vec<PropExpr>>)
    ensures
        r matches Some(x) ==> rose_of_list(full::props_view(cs@)) == Some(props_view(x@)),
        r is None ==> rose_of_list(full::props_view(cs@)) is None,
    decreases full::props_view(cs@), 0int,
{
    let ghost all = cs@;
    let ghost pv = full::props_view(all);
    let mut cs = cs;
    let mut out: Vec<PropExpr> = Vec::new();
    let n = cs.len();
    let mut i: usize = 0;
    proof {
        full::lemma_props_view(all);
        assert(pv.take(0) =~= seq![]);
        assert(props_view(out@) =~= seq![]);
    }
    #[verifier::loop_isolation(false)]
    while cs.len() > 0
        invariant
            n == all.len(),
            pv == full::props_view(all),
            pv.len() == n,
            forall|j: int| 0 <= j < n ==> #[trigger] pv[j] == full::prop_view(all[j]),
            i + cs@.len() == n,
            cs@ == all.subrange(i as int, n as int),
            rose_of_list(pv.take(i as int)) == Some(props_view(out@)),
        decreases cs@.len(),
    {
        let child = cs.remove(0);
        proof {
            assert(child == all[i as int]);
            assert(pv.take(i + 1).drop_last() =~= pv.take(i as int));
            assert(pv.take(i + 1).last() == full::prop_view(child));
            assert(decreases_to!(pv => pv[i as int]));
        }
        match to_rose(child) {
            Some(r) => {
                proof {
                    assert(out@.push(r).drop_last() =~= out@);
                }
                out.push(r);
            },
            None => {
                proof {
                    lemma_rose_of_list_none(pv, i + 1);
                }
                return None;
            },
        }
        assert(cs@ =~= all.subrange(i + 1, n as int));
        i = i + 1;
    }
    assert(pv.take(n as int) =~= pv);
    Some(out)
}

proof fn lemma_rose_of_list_none(cs: Seq<full::PropV>, k: int)
    requires
        0 <= k <= cs.len(),
        rose_of_list(cs.take(k)) is None,
    ensures
        rose_of_list(cs) is None,
    decreases cs.len(),
{
    if k == cs.len() {
        assert(cs.take(k) =~= cs);
    } else {
        assert(cs.drop_last().take(k) =~= cs.take(k));
        lemma_rose_of_list_none(cs.drop_last(), k);
    }
}

impl ProposeInput {
    /// Reads the input of the fact language's `propose!` from its text.
    pub fn parse(text: &str) -> (r: Result<ProposeInput, MacroError>)
        ensures
            r matches Ok(i) ==> lex_spec(text@) matches Some(ts) && sp_rose_input(ts) == Some(i@),
            r matches Err(e) ==> (e is Lex <==> lex_spec(text@) is None),
            r matches Err(e) ==> (e is Syntax <==> (lex_spec(text@) matches Some(ts) && sp_rose_input(ts) is None)),
            r is Err ==> (r->Err_0 is Lex || r->Err_0 is Syntax),
    {
        let ts = match lex(text) {
            Some(ts) => ts,
            None => return Err(MacroError::Lex),
        };
        let input = match parse_input(Dialect { implies: false, negation: false, generics: false }, &ts) {
            Ok(i) => i,
            Err(e) => return Err(e),
        };
        let full::ProposeInput { attrs, name, binders, expr } = input;
        match expr {
            None => Ok(ProposeInput { attrs, name, expr: None }),
            Some(e) => match to_rose(e) {
                Some(r) => Ok(ProposeInput { attrs, name, expr: Some(r) }),
                None => Err(syntax("expected a conjunction or disjunction of propositions")),
            },
        }
    }
}

} // verus!
