use vstd::prelude::*;
use crate::error::{MacroError, ErrV};
use crate::tokens::{Delim, Tok, TokV, toks_view, tok_view, lemma_toks_view_len, copy_range};
use crate::lexer::{lex, lex_spec};
use crate::derive::natural::{int_lit_value, parse_lit};
use crate::derive::ast::{
    Atom, AtomV, NatArg, NatArgV, PropExpr, PropV, ProposeInput, InputV, args_view, props_view,
    prop_view, strings_view, lemma_props_view, lemma_props_view_push, lemma_props_view_concat,
};

verus! {

/// The operators that a version of the proposition language knows: implication (`->`),
/// negation (`!`) and natural-number parameters (`At<N>`). Conjunction (`&&`),
/// disjunction (`||`) and parentheses are always known.
#[derive(Clone, Copy)]
pub struct Dialect {
    pub implies: bool,
    pub negation: bool,
    pub generics: bool,
}

/// The full language.
pub open spec fn full_dialect() -> Dialect {
    Dialect { implies: true, negation: true, generics: true }
}

/// Whether the token at `p` is the punctuation character `c`.
pub open spec fn punct_at(ts: Seq<TokV>, p: int, c: char) -> bool {
    0 <= p < ts.len() && (ts[p] matches TokV::Punct(c2, _) && c2 == c)
}

/// Whether the two-character operator `c1 c2` starts at `p` (the first glued to the second).
pub open spec fn op2_at(ts: Seq<TokV>, p: int, c1: char, c2: char) -> bool {
    0 <= p && p + 1 < ts.len() && ts[p] == TokV::Punct(c1, true) && punct_at(ts, p + 1, c2)
}

/// The identifier at `p`, if there is one.
pub open spec fn ident_at(ts: Seq<TokV>, p: int) -> Option<Seq<char>> {
    if 0 <= p < ts.len() {
        match ts[p] {
            TokV::Ident(s) => Some(s),
            _ => None,
        }
    } else {
        None
    }
}

/// Whether `syn` reads the text as an identifier: it does for every identifier but `_`
/// and the keywords of Rust.
pub uninterp spec fn ident_accepted(s: Seq<char>) -> bool;

/// The words that `syn` refuses as identifiers: `_` and the keywords of Rust.
pub open spec fn syn_keyword(s: Seq<char>) -> bool {
    s == "_"@ || s == "abstract"@ || s == "as"@ || s == "async"@ || s == "await"@ || s == "become"@
        || s == "box"@ || s == "break"@ || s == "const"@ || s == "continue"@ || s == "crate"@
        || s == "do"@ || s == "dyn"@ || s == "else"@ || s == "enum"@ || s == "extern"@
        || s == "false"@ || s == "final"@ || s == "fn"@ || s == "for"@ || s == "if"@ || s == "impl"@
        || s == "in"@ || s == "let"@ || s == "loop"@ || s == "macro"@ || s == "match"@ || s == "mod"@
        || s == "move"@ || s == "mut"@ || s == "override"@ || s == "priv"@ || s == "pub"@
        || s == "ref"@ || s == "return"@ || s == "Self"@ || s == "self"@ || s == "static"@
        || s == "struct"@ || s == "super"@ || s == "trait"@ || s == "true"@ || s == "try"@
        || s == "type"@ || s == "typeof"@ || s == "unsafe"@ || s == "unsized"@ || s == "use"@
        || s == "virtual"@ || s == "where"@ || s == "while"@ || s == "yield"@
}

/// Whether the text is an ASCII identifier: a letter or `_`, then letters, digits and `_`.
pub open spec fn ascii_ident(s: Seq<char>) -> bool {
    &&& s.len() > 0
    &&& ('a' <= s[0] && s[0] <= 'z') || ('A' <= s[0] && s[0] <= 'Z') || s[0] == '_'
    &&& forall|i: int| 1 <= i < s.len() ==> ('a' <= #[trigger] s[i] && s[i] <= 'z') || ('A' <= s[i] && s[i] <= 'Z')
        || ('0' <= s[i] && s[i] <= '9') || s[i] == '_'
}

/// Whether an identifier may name something.
///
/// Trusted: reads the text with `syn::parse_str::<syn::Ident>`, which takes one identifier
/// and refuses `_` and the keywords of Rust (`syn_keyword`). The result depends on the text
/// alone and is named `ident_accepted`; for an ASCII identifier the contract says it, and
/// a keyword is refused whatever the text.
#[verifier::external_body]
pub(crate) fn syn_accepts_ident(s: &str) -> (r: bool)
    ensures
        r == ident_accepted(s@),
        syn_keyword(s@) ==> !r,
        ascii_ident(s@) ==> r == !syn_keyword(s@),
{
    syn::parse_str::<syn::Ident>(s).is_ok()
}

/// The identifier at `p` that may name something (not `_` nor a keyword), if there is one.
pub open spec fn name_at(ts: Seq<TokV>, p: int) -> Option<Seq<char>> {
    match ident_at(ts, p) {
        Some(s) => if ident_accepted(s) {
            Some(s)
        } else {
            None
        },
        None => None,
    }
}

/// The members of a conjunction of the given operands: an operand that is itself a
/// conjunction contributes its members.
pub open spec fn and_parts(nodes: Seq<PropV>) -> Seq<PropV>
    decreases nodes.len(),
{
    if nodes.len() == 0 {
        seq![]
    } else {
        and_parts(nodes.drop_last()) + match nodes.last() {
            PropV::And(cs) => cs,
            other => seq![other],
        }
    }
}

/// The members of a disjunction of the given operands: an operand that is itself a
/// disjunction contributes its members.
pub open spec fn or_parts(nodes: Seq<PropV>) -> Seq<PropV>
    decreases nodes.len(),
{
    if nodes.len() == 0 {
        seq![]
    } else {
        or_parts(nodes.drop_last()) + match nodes.last() {
            PropV::Or(cs) => cs,
            other => seq![other],
        }
    }
}

/// The conjunction of the operands, flattened; a single member stands alone.
pub open spec fn flatten_and_spec(nodes: Seq<PropV>) -> PropV {
    let flat = and_parts(nodes);
    if flat.len() == 1 {
        flat[0]
    } else {
        PropV::And(flat)
    }
}

/// The disjunction of the operands, flattened; a single member stands alone.
pub open spec fn flatten_or_spec(nodes: Seq<PropV>) -> PropV {
    let flat = or_parts(nodes);
    if flat.len() == 1 {
        flat[0]
    } else {
        PropV::Or(flat)
    }
}

/// A natural-number argument: an identifier is a parameter, a decimal literal that fits a
/// `u32` is a number.
pub open spec fn sp_nat_arg(ts: Seq<TokV>, p: int) -> Option<NatArgV> {
    if 0 <= p < ts.len() {
        match ts[p] {
            TokV::Ident(s) => if ident_accepted(s) {
                Some(NatArgV::Param(s))
            } else {
                None
            },
            TokV::Lit(s) => match int_lit_value(s) {
                Some(v) => Some(NatArgV::Lit(v)),
                None => None,
            },
            _ => None,
        }
    } else {
        None
    }
}

/// The arguments after `<`: arguments separated by `,`, up to and including `>`.
pub open spec fn sp_nat_args(ts: Seq<TokV>, p: int) -> Option<(Seq<NatArgV>, int)>
    decreases ts.len() - p,
{
    if p < 0 || p >= ts.len() {
        None
    } else {
        match sp_nat_arg(ts, p) {
            None => None,
            Some(a) => if punct_at(ts, p + 1, ',') {
                match sp_nat_args(ts, p + 2) {
                    Some((rest, q)) => Some((seq![a] + rest, q)),
                    None => None,
                }
            } else if punct_at(ts, p + 1, '>') {
                Some((seq![a], p + 2))
            } else {
                None
            },
        }
    }
}

/// The binders after `<`: identifiers separated by `,`, up to and including `>`.
pub open spec fn sp_binders(ts: Seq<TokV>, p: int) -> Option<(Seq<Seq<char>>, int)>
    decreases ts.len() - p,
{
    if p < 0 || p >= ts.len() {
        None
    } else {
        match name_at(ts, p) {
            None => None,
            Some(b) => if punct_at(ts, p + 1, ',') {
                match sp_binders(ts, p + 2) {
                    Some((rest, q)) => Some((seq![b] + rest, q)),
                    None => None,
                }
            } else if punct_at(ts, p + 1, '>') {
                Some((seq![b], p + 2))
            } else {
                None
            },
        }
    }
}

/// An atom: an identifier, followed by arguments in angle brackets where the dialect has them.
pub open spec fn sp_atom(d: Dialect, ts: Seq<TokV>, p: int) -> Option<(PropV, int)> {
    match name_at(ts, p) {
        None => None,
        Some(name) => if d.generics && punct_at(ts, p + 1, '<') {
            match sp_nat_args(ts, p + 2) {
                Some((args, q)) => Some((PropV::Atom(AtomV { name, args }), q)),
                None => None,
            }
        } else {
            Some((PropV::Atom(AtomV { name, args: seq![] }), p + 1))
        },
    }
}

/// `primary := '(' expr ')' | atom`; the parenthesized expression must fill its parentheses.
pub open spec fn sp_primary(d: Dialect, ts: Seq<TokV>, p: int) -> Option<(PropV, int)>
    decreases ts, 0int, 0int,
{
    if 0 <= p < ts.len() && ts[p] is Group && ts[p]->Group_0 == Delim::Paren {
        let inner = ts[p]->Group_1;
        proof {
            assert(decreases_to!(ts => ts[p]));
        }
        match sp_implies(d, inner, 0) {
            Some((e, q)) => if q == inner.len() {
                Some((e, p + 1))
            } else {
                None
            },
            None => None,
        }
    } else {
        sp_atom(d, ts, p)
    }
}

/// `unary := '!' unary | primary` (negation only where the dialect has it).
pub open spec fn sp_unary(d: Dialect, ts: Seq<TokV>, p: int) -> Option<(PropV, int)>
    decreases ts, ts.len() - p, 1int,
{
    if p < 0 || p > ts.len() {
        None
    } else if d.negation && punct_at(ts, p, '!') {
        match sp_unary(d, ts, p + 1) {
            Some((e, q)) => Some((PropV::Not(Box::new(e)), q)),
            None => None,
        }
    } else {
        sp_primary(d, ts, p)
    }
}

/// The operands of `unary ('&&' unary)*`.
pub open spec fn sp_and_items(d: Dialect, ts: Seq<TokV>, p: int) -> Option<(Seq<PropV>, int)>
    decreases ts, ts.len() - p, 2int,
{
    if p < 0 || p > ts.len() {
        None
    } else {
        match sp_unary(d, ts, p) {
            None => None,
            Some((a, q)) => if p <= q && op2_at(ts, q, '&', '&') {
                match sp_and_items(d, ts, q + 2) {
                    Some((rest, r)) => Some((seq![a] + rest, r)),
                    None => None,
                }
            } else {
                Some((seq![a], q))
            },
        }
    }
}

/// `and := unary ('&&' unary)*`, flattened.
pub open spec fn sp_and(d: Dialect, ts: Seq<TokV>, p: int) -> Option<(PropV, int)>
    decreases ts, ts.len() - p, 3int,
{
    if p < 0 || p > ts.len() {
        None
    } else {
        match sp_and_items(d, ts, p) {
            Some((items, q)) => Some((flatten_and_spec(items), q)),
            None => None,
        }
    }
}

/// The operands of `and ('||' and)*`.
pub open spec fn sp_or_items(d: Dialect, ts: Seq<TokV>, p: int) -> Option<(Seq<PropV>, int)>
    decreases ts, ts.len() - p, 4int,
{
    if p < 0 || p > ts.len() {
        None
    } else {
        match sp_and(d, ts, p) {
            None => None,
            Some((a, q)) => if p <= q && op2_at(ts, q, '|', '|') {
                match sp_or_items(d, ts, q + 2) {
                    Some((rest, r)) => Some((seq![a] + rest, r)),
                    None => None,
                }
            } else {
                Some((seq![a], q))
            },
        }
    }
}

/// `or := and ('||' and)*`, flattened.
pub open spec fn sp_or(d: Dialect, ts: Seq<TokV>, p: int) -> Option<(PropV, int)>
    decreases ts, ts.len() - p, 5int,
{
    if p < 0 || p > ts.len() {
        None
    } else {
        match sp_or_items(d, ts, p) {
            Some((items, q)) => Some((flatten_or_spec(items), q)),
            None => None,
        }
    }
}

/// `expr := or ('->' expr)?`: implication binds loosest and groups to the right.
pub open spec fn sp_implies(d: Dialect, ts: Seq<TokV>, p: int) -> Option<(PropV, int)>
    decreases ts, ts.len() - p, 6int,
{
    if p < 0 || p > ts.len() {
        None
    } else {
        match sp_or(d, ts, p) {
            None => None,
            Some((lhs, q)) => if d.implies && p <= q && op2_at(ts, q, '-', '>') {
                match sp_implies(d, ts, q + 2) {
                    Some((rhs, r)) => Some((PropV::Imply(Box::new(lhs), Box::new(rhs)), r)),
                    None => None,
                }
            } else {
                Some((lhs, q))
            },
        }
    }
}


/// The end of the outer attributes (`#[...]`) that start at `p`; a `#` not followed by a
/// bracketed group is an error.
pub open spec fn sp_attrs(ts: Seq<TokV>, p: int) -> Option<int>
    decreases ts.len() - p,
{
    if p < 0 || p > ts.len() {
        None
    } else if punct_at(ts, p, '#') {
        if p + 1 < ts.len() && ts[p + 1] is Group && ts[p + 1]->Group_0 == Delim::Bracket {
            sp_attrs(ts, p + 2)
        } else {
            None
        }
    } else {
        Some(p)
    }
}

/// Skips one optional comma.
pub open spec fn skip_comma(ts: Seq<TokV>, p: int) -> int {
    if punct_at(ts, p, ',') {
        p + 1
    } else {
        p
    }
}

/// The binders after the name, if the dialect has them and a `<` follows, with the index
/// after them.
pub open spec fn sp_opt_binders(d: Dialect, ts: Seq<TokV>, p: int) -> Option<(Seq<Seq<char>>, int)> {
    if d.generics && punct_at(ts, p, '<') {
        sp_binders(ts, p + 1)
    } else {
        Some((seq![], p))
    }
}

/// `input := attr* name binders? ('=' expr)? ','?`, filling all the tokens.
pub open spec fn sp_input(d: Dialect, ts: Seq<TokV>) -> Option<InputV> {
    match sp_attrs(ts, 0) {
        None => None,
        Some(a) => match name_at(ts, a) {
            None => None,
            Some(name) => match sp_opt_binders(d, ts, a + 1) {
                None => None,
                Some((binders, b)) => if punct_at(ts, b, '=') {
                    match sp_implies(d, ts, b + 1) {
                        Some((e, q)) => if skip_comma(ts, q) == ts.len() {
                            Some(InputV { attrs: ts.subrange(0, a), name, binders, expr: Some(e) })
                        } else {
                            None
                        },
                        None => None,
                    }
                } else if skip_comma(ts, b) == ts.len() {
                    Some(InputV { attrs: ts.subrange(0, a), name, binders, expr: None })
                } else {
                    None
                },
            },
        },
    }
}

/// A refusal of the input's grammar, with the message.
pub fn syntax(msg: &str) -> (e: MacroError)
    ensures
        e is Syntax,
        e@ == ErrV::Syntax(msg@),
{
    MacroError::Syntax(String::from_str(msg))
}

/// Whether the token at `p` is the punctuation character `c`.
pub fn punct_at_exec(ts: &Vec<Tok>, p: usize, c: char) -> (r: bool)
    ensures
        r == punct_at(toks_view(ts@), p as int, c),
{
    proof {
        lemma_toks_view_len(ts@);
    }
    if p < ts.len() {
        match &ts[p] {
            Tok::Punct(c2, _) => *c2 == c,
            _ => false,
        }
    } else {
        false
    }
}

/// Whether the operator `c1 c2` starts at `p`.
pub fn op2_at_exec(ts: &Vec<Tok>, p: usize, c1: char, c2: char) -> (r: bool)
    ensures
        r == op2_at(toks_view(ts@), p as int, c1, c2),
{
    proof {
        lemma_toks_view_len(ts@);
    }
    if p < ts.len() && ts.len() - p > 1 {
        let first = match &ts[p] {
            Tok::Punct(c, j) => *c == c1 && *j,
            _ => false,
        };
        first && punct_at_exec(ts, p + 1, c2)
    } else {
        false
    }
}

/// The identifier at `p`, if there is one.
pub fn ident_at_exec(ts: &Vec<Tok>, p: usize) -> (r: Option<String>)
    ensures
        r matches Some(s) ==> ident_at(toks_view(ts@), p as int) == Some(s@) && p < ts@.len(),
        r is None ==> ident_at(toks_view(ts@), p as int) is None,
{
    proof {
        lemma_toks_view_len(ts@);
    }
    if p < ts.len() {
        match &ts[p] {
            Tok::Ident(s) => Some(s.clone()),
            _ => None,
        }
    } else {
        None
    }
}

/// The identifier at `p` that may name something, if there is one.
pub fn name_at_exec(ts: &Vec<Tok>, p: usize) -> (r: Option<String>)
    ensures
        r matches Some(s) ==> name_at(toks_view(ts@), p as int) == Some(s@) && p < ts@.len(),
        r is None ==> name_at(toks_view(ts@), p as int) is None,
{
    match ident_at_exec(ts, p) {
        Some(s) => if syn_accepts_ident(s.as_str()) {
            Some(s)
        } else {
            None
        },
        None => None,
    }
}

/// The conjunction of the operands, flattened.
pub fn flatten_and(nodes: Vec<PropExpr>) -> (r: PropExpr)
    ensures
        r@ == flatten_and_spec(props_view(nodes@)),
{
    let flat = flatten_parts(nodes, true);
    let mut flat = flat;
    proof {
        lemma_props_view(flat@);
    }
    if flat.len() == 1 {
        let ghost f0 = flat@[0];
        let r = flat.pop().unwrap();
        assert(r == f0);
        r
    } else {
        let r = PropExpr::And(flat);
        assert(r@ == PropV::And(props_view(flat@)));
        r
    }
}

/// The disjunction of the operands, flattened.
pub fn flatten_or(nodes: Vec<PropExpr>) -> (r: PropExpr)
    ensures
        r@ == flatten_or_spec(props_view(nodes@)),
{
    let flat = flatten_parts(nodes, false);
    let mut flat = flat;
    proof {
        lemma_props_view(flat@);
    }
    if flat.len() == 1 {
        let ghost f0 = flat@[0];
        let r = flat.pop().unwrap();
        assert(r == f0);
        r
    } else {
        let r = PropExpr::Or(flat);
        assert(r@ == PropV::Or(props_view(flat@)));
        r
    }
}

/// The members contributed by the operands: those of a nested conjunction (`and`) or of a
/// nested disjunction (`!and`), and every other operand itself.
fn flatten_parts(nodes: Vec<PropExpr>, and: bool) -> (flat: Vec<PropExpr>)
    ensures
        and ==> props_view(flat@) == and_parts(props_view(nodes@)),
        !and ==> props_view(flat@) == or_parts(props_view(nodes@)),
{
    let ghost all = nodes@;
    let mut nodes = nodes;
    let mut flat: Vec<PropExpr> = Vec::new();
    let n = nodes.len();
    let mut i: usize = 0;
    proof {
        lemma_props_view(all);
        assert(props_view(all).take(0) =~= seq![]);
    }
    while nodes.len() > 0
        invariant
            n == all.len(),
            i + nodes@.len() == n,
            nodes@ == all.subrange(i as int, n as int),
            props_view(all).len() == n,
            forall|j: int| 0 <= j < n ==> #[trigger] props_view(all)[j] == prop_view(all[j]),
            and ==> props_view(flat@) == and_parts(props_view(all).take(i as int)),
            !and ==> props_view(flat@) == or_parts(props_view(all).take(i as int)),
        decreases nodes@.len(),
    {
        let node = nodes.remove(0);
        let ghost before = props_view(flat@);
        let ghost pv = props_view(all);
        proof {
            assert(node == all[i as int]);
            assert(pv.take(i + 1).drop_last() =~= pv.take(i as int));
            assert(pv.take(i + 1).last() == prop_view(node));
        }
        match node {
            PropExpr::And(children) if and => {
                let mut children = children;
                proof {
                    lemma_props_view_concat(flat@, children@);
                }
                flat.append(&mut children);
            },
            PropExpr::Or(children) if !and => {
                let mut children = children;
                proof {
                    lemma_props_view_concat(flat@, children@);
                }
                flat.append(&mut children);
            },
            other => {
                proof {
                    lemma_props_view_push(flat@, other);
                }
                flat.push(other);
            },
        }
        assert(nodes@ =~= all.subrange(i + 1, n as int));
        i = i + 1;
    }
    assert(props_view(all).take(n as int) =~= props_view(all));
    flat
}


/// Reads a natural-number argument.
fn parse_nat_arg(ts: &Vec<Tok>, p: usize) -> (r: Result<NatArg, MacroError>)
    ensures
        r matches Ok(a) ==> sp_nat_arg(toks_view(ts@), p as int) == Some(a@),
        r is Err ==> sp_nat_arg(toks_view(ts@), p as int) is None,
        r is Err ==> r->Err_0 is Syntax,
{
    proof {
        lemma_toks_view_len(ts@);
    }
    if p < ts.len() {
        match &ts[p] {
            Tok::Ident(s) => if syn_accepts_ident(s.as_str()) {
                Ok(NatArg::Param(s.clone()))
            } else {
                Err(syntax("expected identifier, found keyword"))
            },
            Tok::Lit(s) => match parse_lit(s.as_str()) {
                Some(v) => Ok(NatArg::Lit(v)),
                None => Err(syntax("expected a natural number that fits a `u32`")),
            },
            _ => Err(syntax("expected a natural-number argument")),
        }
    } else {
        Err(syntax("expected a natural-number argument"))
    }
}

/// Reads the arguments after `<`, up to and including `>`.
fn parse_nat_args(ts: &Vec<Tok>, p: usize) -> (r: Result<(Vec<NatArg>, usize), MacroError>)
    requires
        p <= ts@.len(),
    ensures
        r matches Ok((v, q)) ==> sp_nat_args(toks_view(ts@), p as int) == Some((args_view(v@), q as int))
            && p < q <= ts@.len(),
        r is Err ==> sp_nat_args(toks_view(ts@), p as int) is None,
        r is Err ==> r->Err_0 is Syntax,
{
    let n = ts.len();
    let ghost tv = toks_view(ts@);
    proof {
        lemma_toks_view_len(ts@);
    }
    let mut acc: Vec<NatArg> = Vec::new();
    let mut k = p;
    loop
        invariant
            tv == toks_view(ts@),
            tv.len() == ts@.len(),
            n == ts@.len(),
            p <= k <= ts@.len(),
            sp_nat_args(tv, p as int) == (match sp_nat_args(tv, k as int) {
                Some((rest, q)) => Some((args_view(acc@) + rest, q)),
                None => None::<(Seq<NatArgV>, int)>,
            }),
            (k > p ==> acc@.len() > 0),
        decreases ts@.len() - k,
    {
        if k >= ts.len() {
            return Err(syntax("expected `>`"));
        }
        let a = parse_nat_arg(ts, k)?;
        let ghost before = args_view(acc@);
        let ghost av = a@;
        acc.push(a);
        assert(args_view(acc@) =~= before.push(av));
        if punct_at_exec(ts, k + 1, ',') {
            proof {
                match sp_nat_args(tv, k + 2) {
                    Some((rest, q)) => {
                        assert(before + (seq![av] + rest) =~= before.push(av) + rest);
                    },
                    None => {},
                }
            }
            k = k + 2;
        } else if punct_at_exec(ts, k + 1, '>') {
            assert(before + seq![av] =~= before.push(av));
            return Ok((acc, k + 2));
        } else {
            return Err(syntax("expected `,` or `>`"));
        }
    }
}

/// Reads the binders after `<`, up to and including `>`.
fn parse_binders(ts: &Vec<Tok>, p: usize) -> (r: Result<(Vec<String>, usize), MacroError>)
    requires
        p <= ts@.len(),
    ensures
        r matches Ok((v, q)) ==> sp_binders(toks_view(ts@), p as int) == Some((strings_view(v@), q as int))
            && p < q <= ts@.len(),
        r is Err ==> sp_binders(toks_view(ts@), p as int) is None,
        r is Err ==> r->Err_0 is Syntax,
{
    let n = ts.len();
    let ghost tv = toks_view(ts@);
    proof {
        lemma_toks_view_len(ts@);
    }
    let mut acc: Vec<String> = Vec::new();
    let mut k = p;
    loop
        invariant
            tv == toks_view(ts@),
            tv.len() == ts@.len(),
            n == ts@.len(),
            p <= k <= ts@.len(),
            sp_binders(tv, p as int) == (match sp_binders(tv, k as int) {
                Some((rest, q)) => Some((strings_view(acc@) + rest, q)),
                None => None::<(Seq<Seq<char>>, int)>,
            }),
        decreases ts@.len() - k,
    {
        if k >= ts.len() {
            return Err(syntax("expected `>`"));
        }
        let b = match name_at_exec(ts, k) {
            Some(b) => b,
            None => {
                return Err(syntax("expected a parameter name"));
            },
        };
        let ghost before = strings_view(acc@);
        let ghost bv = b@;
        acc.push(b);
        assert(strings_view(acc@) =~= before.push(bv));
        if punct_at_exec(ts, k + 1, ',') {
            proof {
                match sp_binders(tv, k + 2) {
                    Some((rest, q)) => {
                        assert(before + (seq![bv] + rest) =~= before.push(bv) + rest);
                    },
                    None => {},
                }
            }
            k = k + 2;
        } else if punct_at_exec(ts, k + 1, '>') {
            assert(before + seq![bv] =~= before.push(bv));
            return Ok((acc, k + 2));
        } else {
            return Err(syntax("expected `,` or `>`"));
        }
    }
}

/// Reads an atom.
fn parse_atom(d: Dialect, ts: &Vec<Tok>, p: usize) -> (r: Result<(PropExpr, usize), MacroError>)
    requires
        p <= ts@.len(),
    ensures
        r matches Ok((e, q)) ==> sp_atom(d, toks_view(ts@), p as int) == Some((e@, q as int))
            && p < q <= ts@.len(),
        r is Err ==> sp_atom(d, toks_view(ts@), p as int) is None,
        r is Err ==> r->Err_0 is Syntax,
{
    let n = ts.len();
    proof {
        lemma_toks_view_len(ts@);
    }
    let name = match name_at_exec(ts, p) {
        Some(name) => name,
        None => {
            return Err(syntax("expected a proposition"));
        },
    };
    if d.generics && punct_at_exec(ts, p + 1, '<') {
        let (args, q) = parse_nat_args(ts, p + 2)?;
        let a = Atom { name, args };
        Ok((PropExpr::Atom(a), q))
    } else {
        let a = Atom { name, args: Vec::new() };
        assert(args_view(a.args@) =~= seq![]);
        Ok((PropExpr::Atom(a), p + 1))
    }
}

/// Reads a parenthesized expression or an atom.
fn parse_primary(d: Dialect, ts: &Vec<Tok>, p: usize) -> (r: Result<(PropExpr, usize), MacroError>)
    requires
        p <= ts@.len(),
    ensures
        r matches Ok((e, q)) ==> sp_primary(d, toks_view(ts@), p as int) == Some((e@, q as int))
            && p < q <= ts@.len(),
        r is Err ==> sp_primary(d, toks_view(ts@), p as int) is None,
        r is Err ==> r->Err_0 is Syntax,
    decreases toks_view(ts@), 0int, 0int,
{
    let ghost tv = toks_view(ts@);
    proof {
        lemma_toks_view_len(ts@);
    }
    if p < ts.len() {
        if let Tok::Group(Delim::Paren, inner) = &ts[p] {
            proof {
                lemma_toks_view_len(inner@);
                assert(tv[p as int] == TokV::Group(Delim::Paren, toks_view(inner@)));
                assert(decreases_to!(tv => tv[p as int]));
            }
            let (e, q) = parse_implies(d, inner, 0)?;
            if q == inner.len() {
                return Ok((e, p + 1));
            } else {
                return Err(syntax("unexpected token in parentheses"));
            }
        }
    }
    parse_atom(d, ts, p)
}

/// Reads `'!'* primary`.
fn parse_unary(d: Dialect, ts: &Vec<Tok>, p: usize) -> (r: Result<(PropExpr, usize), MacroError>)
    requires
        p <= ts@.len(),
    ensures
        r matches Ok((e, q)) ==> sp_unary(d, toks_view(ts@), p as int) == Some((e@, q as int))
            && p < q <= ts@.len(),
        r is Err ==> sp_unary(d, toks_view(ts@), p as int) is None,
        r is Err ==> r->Err_0 is Syntax,
    decreases toks_view(ts@), ts@.len() - p, 1int,
{
    let n = ts.len();
    proof {
        lemma_toks_view_len(ts@);
    }
    if d.negation && punct_at_exec(ts, p, '!') {
        let (e, q) = parse_unary(d, ts, p + 1)?;
        Ok((PropExpr::Not(Box::new(e)), q))
    } else {
        parse_primary(d, ts, p)
    }
}

/// Reads the operands of `unary ('&&' unary)*`.
fn parse_and_items(d: Dialect, ts: &Vec<Tok>, p: usize) -> (r: Result<(Vec<PropExpr>, usize), MacroError>)
    requires
        p <= ts@.len(),
    ensures
        r matches Ok((v, q)) ==> sp_and_items(d, toks_view(ts@), p as int) == Some((props_view(v@), q as int))
            && p < q <= ts@.len(),
        r is Err ==> sp_and_items(d, toks_view(ts@), p as int) is None,
        r is Err ==> r->Err_0 is Syntax,
    decreases toks_view(ts@), ts@.len() - p, 2int,
{
    let n = ts.len();
    let ghost tv = toks_view(ts@);
    proof {
        lemma_toks_view_len(ts@);
    }
    let mut acc: Vec<PropExpr> = Vec::new();
    let mut k = p;
    loop
        invariant
            tv == toks_view(ts@),
            tv.len() == ts@.len(),
            n == ts@.len(),
            p <= k <= ts@.len(),
            sp_and_items(d, tv, p as int) == (match sp_and_items(d, tv, k as int) {
                Some((rest, q)) => Some((props_view(acc@) + rest, q)),
                None => None::<(Seq<PropV>, int)>,
            }),
        decreases ts@.len() - k,
    {
        let (a, q) = parse_unary(d, ts, k)?;
        let ghost before = props_view(acc@);
        let ghost av = a@;
        proof {
            lemma_props_view_push(acc@, a);
        }
        acc.push(a);
        if op2_at_exec(ts, q, '&', '&') {
            proof {
                match sp_and_items(d, tv, q + 2) {
                    Some((rest, r)) => {
                        assert(before + (seq![av] + rest) =~= before.push(av) + rest);
                    },
                    None => {},
                }
            }
            k = q + 2;
        } else {
            assert(before + seq![av] =~= before.push(av));
            return Ok((acc, q));
        }
    }
}

/// Reads `unary ('&&' unary)*`, flattened.
fn parse_and(d: Dialect, ts: &Vec<Tok>, p: usize) -> (r: Result<(PropExpr, usize), MacroError>)
    requires
        p <= ts@.len(),
    ensures
        r matches Ok((e, q)) ==> sp_and(d, toks_view(ts@), p as int) == Some((e@, q as int))
            && p < q <= ts@.len(),
        r is Err ==> sp_and(d, toks_view(ts@), p as int) is None,
        r is Err ==> r->Err_0 is Syntax,
    decreases toks_view(ts@), ts@.len() - p, 3int,
{
    let (items, q) = parse_and_items(d, ts, p)?;
    Ok((flatten_and(items), q))
}

/// Reads the operands of `and ('||' and)*`.
fn parse_or_items(d: Dialect, ts: &Vec<Tok>, p: usize) -> (r: Result<(Vec<PropExpr>, usize), MacroError>)
    requires
        p <= ts@.len(),
    ensures
        r matches Ok((v, q)) ==> sp_or_items(d, toks_view(ts@), p as int) == Some((props_view(v@), q as int))
            && p < q <= ts@.len(),
        r is Err ==> sp_or_items(d, toks_view(ts@), p as int) is None,
        r is Err ==> r->Err_0 is Syntax,
    decreases toks_view(ts@), ts@.len() - p, 4int,
{
    let n = ts.len();
    let ghost tv = toks_view(ts@);
    proof {
        lemma_toks_view_len(ts@);
    }
    let mut acc: Vec<PropExpr> = Vec::new();
    let mut k = p;
    loop
        invariant
            tv == toks_view(ts@),
            tv.len() == ts@.len(),
            n == ts@.len(),
            p <= k <= ts@.len(),
            sp_or_items(d, tv, p as int) == (match sp_or_items(d, tv, k as int) {
                Some((rest, q)) => Some((props_view(acc@) + rest, q)),
                None => None::<(Seq<PropV>, int)>,
            }),
        decreases ts@.len() - k,
    {
        let (a, q) = parse_and(d, ts, k)?;
        let ghost before = props_view(acc@);
        let ghost av = a@;
        proof {
            lemma_props_view_push(acc@, a);
        }
        acc.push(a);
        if op2_at_exec(ts, q, '|', '|') {
            proof {
                match sp_or_items(d, tv, q + 2) {
                    Some((rest, r)) => {
                        assert(before + (seq![av] + rest) =~= before.push(av) + rest);
                    },
                    None => {},
                }
            }
            k = q + 2;
        } else {
            assert(before + seq![av] =~= before.push(av));
            return Ok((acc, q));
        }
    }
}

/// Reads `and ('||' and)*`, flattened.
fn parse_or(d: Dialect, ts: &Vec<Tok>, p: usize) -> (r: Result<(PropExpr, usize), MacroError>)
    requires
        p <= ts@.len(),
    ensures
        r matches Ok((e, q)) ==> sp_or(d, toks_view(ts@), p as int) == Some((e@, q as int))
            && p < q <= ts@.len(),
        r is Err ==> sp_or(d, toks_view(ts@), p as int) is None,
        r is Err ==> r->Err_0 is Syntax,
    decreases toks_view(ts@), ts@.len() - p, 5int,
{
    let (items, q) = parse_or_items(d, ts, p)?;
    Ok((flatten_or(items), q))
}

/// Reads an expression: `or ('->' expr)?`.
pub fn parse_implies(d: Dialect, ts: &Vec<Tok>, p: usize) -> (r: Result<(PropExpr, usize), MacroError>)
    requires
        p <= ts@.len(),
    ensures
        r matches Ok((e, q)) ==> sp_implies(d, toks_view(ts@), p as int) == Some((e@, q as int))
            && p < q <= ts@.len(),
        r is Err ==> sp_implies(d, toks_view(ts@), p as int) is None,
        r is Err ==> r->Err_0 is Syntax,
    decreases toks_view(ts@), ts@.len() - p, 6int,
{
    let n = ts.len();
    proof {
        lemma_toks_view_len(ts@);
    }
    let (lhs, q) = parse_or(d, ts, p)?;
    if d.implies && op2_at_exec(ts, q, '-', '>') {
        let (rhs, r) = parse_implies(d, ts, q + 2)?;
        Ok((PropExpr::Imply(Box::new(lhs), Box::new(rhs)), r))
    } else {
        Ok((lhs, q))
    }
}


/// Skips the outer attributes that start at `p`.
pub fn parse_attrs(ts: &Vec<Tok>, p: usize) -> (r: Result<usize, MacroError>)
    requires
        p <= ts@.len(),
    ensures
        r matches Ok(a) ==> sp_attrs(toks_view(ts@), p as int) == Some(a as int) && p <= a <= ts@.len(),
        r is Err ==> sp_attrs(toks_view(ts@), p as int) is None,
        r is Err ==> r->Err_0 is Syntax,
{
    let ghost tv = toks_view(ts@);
    let n = ts.len();
    proof {
        lemma_toks_view_len(ts@);
    }
    let mut k = p;
    while punct_at_exec(ts, k, '#')
        invariant
            tv == toks_view(ts@),
            tv.len() == ts@.len(),
            n == ts@.len(),
            p <= k <= ts@.len(),
            sp_attrs(tv, p as int) == sp_attrs(tv, k as int),
        decreases ts@.len() - k,
    {
        let bracket = k + 1 < n && match &ts[k + 1] {
            Tok::Group(Delim::Bracket, _) => true,
            _ => false,
        };
        proof {
            lemma_toks_view_len(ts@);
            if k + 1 < n {
                assert(tv[k + 1] == tok_view(ts@[k + 1]));
            }
        }
        if !bracket {
            return Err(syntax("expected `[` after `#`"));
        }
        k = k + 2;
    }
    Ok(k)
}

/// Skips one optional comma.
fn skip_comma_exec(ts: &Vec<Tok>, p: usize) -> (r: usize)
    requires
        p <= ts@.len(),
    ensures
        r == skip_comma(toks_view(ts@), p as int),
        r <= ts@.len(),
{
    let n = ts.len();
    proof {
        lemma_toks_view_len(ts@);
    }
    if punct_at_exec(ts, p, ',') {
        p + 1
    } else {
        p
    }
}

/// Reads the input of `propose!` or `claim!` in the given dialect; all the tokens must be used.
pub fn parse_input(d: Dialect, ts: &Vec<Tok>) -> (r: Result<ProposeInput, MacroError>)
    ensures
        r matches Ok(i) ==> sp_input(d, toks_view(ts@)) == Some(i@),
        r is Err ==> sp_input(d, toks_view(ts@)) is None && r->Err_0 is Syntax,
{
    let ghost tv = toks_view(ts@);
    let n = ts.len();
    proof {
        lemma_toks_view_len(ts@);
    }
    let a = parse_attrs(ts, 0)?;
    let name = match name_at_exec(ts, a) {
        Some(name) => name,
        None => {
            return Err(syntax("expected the name of a proposition"));
        },
    };
    let (binders, b) = if d.generics && punct_at_exec(ts, a + 1, '<') {
        parse_binders(ts, a + 2)?
    } else {
        let none: Vec<String> = Vec::new();
        assert(strings_view(none@) =~= seq![]);
        (none, a + 1)
    };
    let attrs = copy_range(ts, 0, a);
    if punct_at_exec(ts, b, '=') {
        let (e, q) = parse_implies(d, ts, b + 1)?;
        if skip_comma_exec(ts, q) == n {
            Ok(ProposeInput { attrs, name, binders, expr: Some(e) })
        } else {
            Err(syntax("unexpected token after the proposition"))
        }
    } else if skip_comma_exec(ts, b) == n {
        Ok(ProposeInput { attrs, name, binders, expr: None })
    } else {
        Err(syntax("expected `=` or the end of the input"))
    }
}

impl ProposeInput {
    /// Reads the input of `propose!` or `claim!` from its text, in the full language.
    pub fn parse(text: &str) -> (r: Result<ProposeInput, MacroError>)
        ensures
            r matches Ok(i) ==> lex_spec(text@) matches Some(ts) && sp_input(full_dialect(), ts) == Some(i@),
            r matches Err(e) ==> (e is Lex <==> lex_spec(text@) is None),
            r matches Err(e) ==> (e is Syntax <==> (lex_spec(text@) matches Some(ts) && sp_input(full_dialect(), ts) is None)),
            r is Err ==> (r->Err_0 is Lex || r->Err_0 is Syntax),
    {
        match lex(text) {
            None => Err(MacroError::Lex),
            Some(ts) => parse_input(Dialect { implies: true, negation: true, generics: true }, &ts),
        }
    }
}

} // verus!
