use vstd::prelude::*;
use crate::tokens::{Tok, TokV, toks_view, copy_toks};

verus! {

/// An argument of a generic proposition: a natural-number literal or a parameter.
#[derive(Clone, Debug)]
pub enum NatArg {
    Lit(u32),
    Param(String),
}

pub enum NatArgV {
    Lit(u32),
    Param(Seq<char>),
}

impl View for NatArg {
    type V = NatArgV;

    open spec fn view(&self) -> NatArgV {
        match self {
            NatArg::Lit(n) => NatArgV::Lit(*n),
            NatArg::Param(s) => NatArgV::Param(s@),
        }
    }
}

pub open spec fn args_view(v: Seq<NatArg>) -> Seq<NatArgV> {
    v.map_values(|a: NatArg| a@)
}

/// An atomic proposition, possibly applied to natural-number arguments (`At<N>`, `At<3>`).
#[derive(Clone, Debug)]
pub struct Atom {
    pub name: String,
    pub args: Vec<NatArg>,
}

pub struct AtomV {
    pub name: Seq<char>,
    pub args: Seq<NatArgV>,
}

impl View for Atom {
    type V = AtomV;

    open spec fn view(&self) -> AtomV {
        AtomV { name: self.name@, args: args_view(self.args@) }
    }
}

/// A propositional expression as written.
#[derive(Debug)]
pub enum PropExpr {
    Atom(Atom),
    Not(Box<PropExpr>),
    And(Vec<PropExpr>),
    Or(Vec<PropExpr>),
    Imply(Box<PropExpr>, Box<PropExpr>),
}

pub enum PropV {
    Atom(AtomV),
    Not(Box<PropV>),
    And(Seq<PropV>),
    Or(Seq<PropV>),
    Imply(Box<PropV>, Box<PropV>),
}

pub open spec fn prop_view(e: PropExpr) -> PropV
    decreases e,
{
    match e {
        PropExpr::Atom(a) => PropV::Atom(a@),
        PropExpr::Not(b) => PropV::Not(Box::new(prop_view(*b))),
        PropExpr::And(v) => {
            proof {
                assert(decreases_to!(v => v@));
            }
            PropV::And(props_view(v@))
        },
        PropExpr::Or(v) => {
            proof {
                assert(decreases_to!(v => v@));
            }
            PropV::Or(props_view(v@))
        },
        PropExpr::Imply(a, b) => PropV::Imply(Box::new(prop_view(*a)), Box::new(prop_view(*b))),
    }
}

pub open spec fn props_view(v: Seq<PropExpr>) -> Seq<PropV>
    decreases v,
{
    if v.len() == 0 {
        seq![]
    } else {
        props_view(v.drop_last()).push(prop_view(v.last()))
    }
}

impl View for PropExpr {
    type V = PropV;

    open spec fn view(&self) -> PropV {
        prop_view(*self)
    }
}

pub proof fn lemma_props_view(v: Seq<PropExpr>)
    ensures
        props_view(v).len() == v.len(),
        forall|i: int| 0 <= i < v.len() ==> #[trigger] props_view(v)[i] == prop_view(v[i]),
    decreases v.len(),
{
    if v.len() > 0 {
        lemma_props_view(v.drop_last());
    }
}

pub proof fn lemma_props_view_push(v: Seq<PropExpr>, e: PropExpr)
    ensures
        props_view(v.push(e)) == props_view(v).push(prop_view(e)),
{
    assert(v.push(e).drop_last() =~= v);
}

pub proof fn lemma_props_view_concat(a: Seq<PropExpr>, b: Seq<PropExpr>)
    ensures
        props_view(a + b) == props_view(a) + props_view(b),
    decreases b.len(),
{
    if b.len() == 0 {
        assert(a + b =~= a);
        assert(props_view(a) + props_view(b) =~= props_view(a));
    } else {
        lemma_props_view_concat(a, b.drop_last());
        assert((a + b).drop_last() =~= a + b.drop_last());
        assert(props_view(a + b) =~= props_view(a) + props_view(b));
    }
}

/// The input of `propose!` and `claim!`: attributes (such as doc comments), the name of
/// the proposition, the natural-number parameters it binds, and the expression that defines
/// it, if it is not atomic.
#[derive(Debug)]
pub struct ProposeInput {
    pub attrs: Vec<Tok>,
    pub name: String,
    pub binders: Vec<String>,
    pub expr: Option<PropExpr>,
}

pub struct InputV {
    pub attrs: Seq<TokV>,
    pub name: Seq<char>,
    pub binders: Seq<Seq<char>>,
    pub expr: Option<PropV>,
}

pub open spec fn strings_view(v: Seq<String>) -> Seq<Seq<char>> {
    v.map_values(|s: String| s@)
}

impl View for ProposeInput {
    type V = InputV;

    open spec fn view(&self) -> InputV {
        InputV {
            attrs: toks_view(self.attrs@),
            name: self.name@,
            binders: strings_view(self.binders@),
            expr: match self.expr {
                Some(e) => Some(e@),
                None => None,
            },
        }
    }
}

/// A copy of a natural-number argument.
pub fn copy_arg(a: &NatArg) -> (r: NatArg)
    ensures
        r@ == a@,
{
    match a {
        NatArg::Lit(n) => NatArg::Lit(*n),
        NatArg::Param(s) => NatArg::Param(s.clone()),
    }
}

/// A copy of an atom.
pub fn copy_atom(a: &Atom) -> (r: Atom)
    ensures
        r@ == a@,
{
    let mut args: Vec<NatArg> = Vec::new();
    let n = a.args.len();
    let mut i: usize = 0;
    while i < n
        invariant
            n == a.args@.len(),
            i <= n,
            args@.len() == i,
            forall|j: int| 0 <= j < i ==> #[trigger] args@[j]@ == a.args@[j]@,
        decreases n - i,
    {
        args.push(copy_arg(&a.args[i]));
        i = i + 1;
    }
    assert(args_view(args@) =~= args_view(a.args@));
    Atom { name: a.name.clone(), args }
}

/// A copy of an expression.
pub fn copy_prop(e: &PropExpr) -> (r: PropExpr)
    ensures
        r@ == e@,
    decreases e,
{
    match e {
        PropExpr::Atom(a) => PropExpr::Atom(copy_atom(a)),
        PropExpr::Not(b) => PropExpr::Not(Box::new(copy_prop(b))),
        PropExpr::And(v) => PropExpr::And(copy_props(v)),
        PropExpr::Or(v) => PropExpr::Or(copy_props(v)),
        PropExpr::Imply(a, b) => PropExpr::Imply(Box::new(copy_prop(a)), Box::new(copy_prop(b))),
    }
}

/// A copy of a list of expressions.
pub fn copy_props(v: &Vec<PropExpr>) -> (r: Vec<PropExpr>)
    ensures
        props_view(r@) == props_view(v@),
    decreases v,
{
    let mut r: Vec<PropExpr> = Vec::new();
    let n = v.len();
    let mut i: usize = 0;
    while i < n
        invariant
            n == v@.len(),
            i <= n,
            props_view(r@) == props_view(v@.take(i as int)),
        decreases n - i,
    {
        let c = copy_prop(&v[i]);
        proof {
            lemma_props_view_push(r@, c);
            assert(v@.take(i + 1).drop_last() =~= v@.take(i as int));
        }
        r.push(c);
        i = i + 1;
    }
    assert(v@.take(n as int) =~= v@);
    r
}

/// A copy of a list of strings.
pub fn copy_strings(v: &Vec<String>) -> (r: Vec<String>)
    ensures
        strings_view(r@) == strings_view(v@),
{
    let mut r: Vec<String> = Vec::new();
    let n = v.len();
    let mut i: usize = 0;
    while i < n
        invariant
            n == v@.len(),
            i <= n,
            r@.len() == i,
            forall|j: int| 0 <= j < i ==> #[trigger] r@[j]@ == v@[j]@,
        decreases n - i,
    {
        r.push(v[i].clone());
        i = i + 1;
    }
    assert(strings_view(r@) =~= strings_view(v@));
    r
}

impl ProposeInput {
    /// A copy of the input.
    pub fn copy(&self) -> (r: ProposeInput)
        ensures
            r@ == self@,
    {
        ProposeInput {
            attrs: copy_toks(&self.attrs),
            name: self.name.clone(),
            binders: copy_strings(&self.binders),
            expr: match &self.expr {
                Some(e) => Some(copy_prop(e)),
                None => None,
            },
        }
    }
}

} // verus!
