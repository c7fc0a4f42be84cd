use vstd::prelude::*;
use crate::tokens::{Tok, TokV, toks_view};

verus! {

/// A proposition of the fact language: an atom, or a conjunction or disjunction of
/// propositions.
#[derive(Debug)]
pub enum PropExpr {
    Atom(String),
    And(Vec<PropExpr>),
    Or(Vec<PropExpr>),
}

pub enum PropV {
    Atom(Seq<char>),
    And(Seq<PropV>),
    Or(Seq<PropV>),
}

pub open spec fn prop_view(e: PropExpr) -> PropV
    decreases e,
{
    match e {
        PropExpr::Atom(s) => PropV::Atom(s@),
        PropExpr::And(cs) => {
            proof {
                assert(decreases_to!(cs => cs@));
            }
            PropV::And(props_view(cs@))
        },
        PropExpr::Or(cs) => {
            proof {
                assert(decreases_to!(cs => cs@));
            }
            PropV::Or(props_view(cs@))
        },
    }
}

pub open spec fn props_view(v: Seq<PropExpr>) -> Seq<PropV>
    decreases v,
{
    if v.len() == 0 {
        seq![]
    } else {
        props_view(v.drop_last()).push(prop_view(v.last()))
    }
}

impl View for PropExpr {
    type V = PropV;

    open spec fn view(&self) -> PropV {
        prop_view(*self)
    }
}

pub proof fn lemma_props_view(v: Seq<PropExpr>)
    ensures
        props_view(v).len() == v.len(),
        forall|i: int| 0 <= i < v.len() ==> #[trigger] props_view(v)[i] == prop_view(v[i]),
    decreases v.len(),
{
    if v.len() > 0 {
        lemma_props_view(v.drop_last());
    }
}

/// The input of the fact language's `propose!`: attributes, a name, and the defining
/// expression if the proposition is not atomic.
#[derive(Debug)]
pub struct ProposeInput {
    pub attrs: Vec<Tok>,
    pub name: String,
    pub expr: Option<PropExpr>,
}

pub struct InputV {
    pub attrs: Seq<TokV>,
    pub name: Seq<char>,
    pub expr: Option<PropV>,
}

impl View for ProposeInput {
    type V = InputV;

    open spec fn view(&self) -> InputV {
        InputV {
            attrs: toks_view(self.attrs@),
            name: self.name@,
            expr: match self.expr {
                Some(e) => Some(e@),
                None => None,
            },
        }
    }
}

/// The shape of a named proposition: an atom, or the conjunction or disjunction of named
/// operands.
#[derive(Debug)]
pub enum NamedShape {
    Atom,
    And(Vec<NamedPropExpr>),
    Or(Vec<NamedPropExpr>),
}

/// A proposition with its name: every composite part carries the name it is declared under.
#[derive(Debug)]
pub struct NamedPropExpr {
    pub name: String,
    pub expr: NamedShape,
}

pub enum ShapeV {
    Atom,
    And(Seq<NamedPropV>),
    Or(Seq<NamedPropV>),
}

pub struct NamedPropV {
    pub name: Seq<char>,
    pub expr: ShapeV,
}

pub open spec fn named_prop_view(n: NamedPropExpr) -> NamedPropV
    decreases n,
{
    NamedPropV {
        name: n.name@,
        expr: match n.expr {
            NamedShape::Atom => ShapeV::Atom,
            NamedShape::And(cs) => {
                proof {
                    assert(decreases_to!(cs => cs@));
                }
                ShapeV::And(named_props_view(cs@))
            },
            NamedShape::Or(cs) => {
                proof {
                    assert(decreases_to!(cs => cs@));
                }
                ShapeV::Or(named_props_view(cs@))
            },
        },
    }
}

pub open spec fn named_props_view(v: Seq<NamedPropExpr>) -> Seq<NamedPropV>
    decreases v,
{
    if v.len() == 0 {
        seq![]
    } else {
        named_props_view(v.drop_last()).push(named_prop_view(v.last()))
    }
}

impl View for NamedPropExpr {
    type V = NamedPropV;

    open spec fn view(&self) -> NamedPropV {
        named_prop_view(*self)
    }
}

pub proof fn lemma_named_props_view(v: Seq<NamedPropExpr>)
    ensures
        named_props_view(v).len() == v.len(),
        forall|i: int| 0 <= i < v.len() ==> #[trigger] named_props_view(v)[i] == named_prop_view(v[i]),
    decreases v.len(),
{
    if v.len() > 0 {
        lemma_named_props_view(v.drop_last());
    }
}

} // verus!
