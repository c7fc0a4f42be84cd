use vstd::prelude::*;
use crate::case::{snake_case, to_snake_case};
use crate::text::{decimal, decimal_string, push_char};
use crate::tokens::{Tok, TokV, toks_view, push_ident, push_punct, push_tok, extend_toks};
use crate::derive::ast::{Atom, AtomV, NatArg, NatArgV, ProposeInput, args_view, strings_view, copy_strings};
use crate::derive::lower::{NamedExpr, NamedV, named_name, nameds_view, lemma_nameds_view, named_view};
use crate::derive::natural::{emit_nat_ty, nat_ty_spec};

verus! {

/// The natural-number parameters that an emitted item binds.
#[derive(Clone, Debug)]
pub struct GenericContext {
    pub binders: Vec<String>,
}

impl GenericContext {
    /// The parameters that the input binds.
    pub fn from_input(input: &ProposeInput) -> (r: GenericContext)
        ensures
            strings_view(r.binders@) == strings_view(input.binders@),
    {
        GenericContext { binders: copy_strings(&input.binders) }
    }

    /// The given parameters.
    pub fn from_binders(binders: Vec<String>) -> (r: GenericContext)
        ensures
            r.binders == binders,
    {
        GenericContext { binders }
    }

    /// Whether there is any parameter.
    pub fn has_binders(&self) -> (r: bool)
        ensures
            r == (self.binders@.len() > 0),
    {
        !self.binders.is_empty()
    }
}

/// `,` between the items of a list.
pub open spec fn comma() -> TokV {
    TokV::Punct(',', false)
}

/// The items of a list, separated by commas.
pub open spec fn comma_list(items: Seq<Seq<TokV>>) -> Seq<TokV>
    decreases items.len(),
{
    if items.len() == 0 {
        seq![]
    } else if items.len() == 1 {
        items[0]
    } else {
        comma_list(items.drop_last()) + seq![comma()] + items.last()
    }
}

/// `const N: ::rprop::Nat` for one parameter.
pub open spec fn const_param(b: Seq<char>) -> Seq<TokV> {
    seq![TokV::Ident("const"@), TokV::Ident(b), TokV::Punct(':', false)] + nat_ty_spec()
}

/// The generic parameters of an item: `<const N: ::rprop::Nat, ...>`, nothing when there
/// is no parameter.
pub open spec fn const_params_spec(binders: Seq<Seq<char>>) -> Seq<TokV> {
    if binders.len() == 0 {
        seq![]
    } else {
        seq![TokV::Punct('<', false)] + comma_list(binders.map_values(|b: Seq<char>| const_param(b)))
            + seq![TokV::Punct('>', false)]
    }
}

/// The generic arguments that name an item: `<N, ...>`, nothing when there is no parameter.
pub open spec fn const_args_spec(binders: Seq<Seq<char>>) -> Seq<TokV> {
    if binders.len() == 0 {
        seq![]
    } else {
        seq![TokV::Punct('<', false)] + comma_list(binders.map_values(|b: Seq<char>| seq![TokV::Ident(b)]))
            + seq![TokV::Punct('>', false)]
    }
}

/// The arguments with which a generic claim is checked: `<0, ...>`, one `0` per parameter.
pub open spec fn obligation_args_spec(binders: Seq<Seq<char>>) -> Seq<TokV> {
    if binders.len() == 0 {
        seq![]
    } else {
        seq![TokV::Punct('<', false)] + comma_list(binders.map_values(|b: Seq<char>| seq![TokV::Lit("0"@)]))
            + seq![TokV::Punct('>', false)]
    }
}

pub proof fn lemma_comma_list_push(items: Seq<Seq<TokV>>, x: Seq<TokV>)
    ensures
        comma_list(items.push(x)) == if items.len() == 0 {
            x
        } else {
            comma_list(items) + seq![comma()] + x
        },
{
    assert(items.push(x).drop_last() =~= items);
}

/// The tokens of one item of a parameter list: a declaration, a use, or a zero.
pub open spec fn list_item(kind: u8, b: Seq<char>) -> Seq<TokV> {
    if kind == 0 {
        const_param(b)
    } else if kind == 1 {
        seq![TokV::Ident(b)]
    } else {
        seq![TokV::Lit("0"@)]
    }
}

/// Appends the items' tokens separated by commas; `item` gives the tokens of one item.
fn emit_list_of(binders: &Vec<String>, kind: u8) -> (r: Vec<Tok>)
    requires
        kind < 3,
    ensures
        kind == 0 ==> toks_view(r@) == comma_list(strings_view(binders@).map_values(|b: Seq<char>| const_param(b))),
        kind == 1 ==> toks_view(r@) == comma_list(strings_view(binders@).map_values(|b: Seq<char>| seq![TokV::Ident(b)])),
        kind == 2 ==> toks_view(r@) == comma_list(strings_view(binders@).map_values(|b: Seq<char>| seq![TokV::Lit("0"@)])),
{
    let ghost bv = strings_view(binders@);
    let mut r: Vec<Tok> = Vec::new();
    let n = binders.len();
    let mut i: usize = 0;
    assert(bv.map_values(|b: Seq<char>| list_item(kind, b)).take(0) =~= seq![]);
    while i < n
        invariant
            n == binders@.len(),
            bv == strings_view(binders@),
            i <= n,
            toks_view(r@) == comma_list(bv.map_values(|b: Seq<char>| list_item(kind, b)).take(i as int)),
        decreases n - i,
    {
        let ghost before = toks_view(r@);
        assert(bv[i as int] == binders@[i as int]@);
        if i > 0 {
            push_punct(&mut r, ',', false);
        }
        let ghost mid = toks_view(r@);
        if kind == 0 {
            push_ident(&mut r, "const");
            push_tok(&mut r, Tok::Ident(binders[i].clone()));
            push_punct(&mut r, ':', false);
            extend_toks(&mut r, emit_nat_ty());
        } else if kind == 1 {
            push_tok(&mut r, Tok::Ident(binders[i].clone()));
        } else {
            push_tok(&mut r, Tok::Lit(String::from_str("0")));
        }
        assert(toks_view(r@) =~= mid + list_item(kind, bv[i as int]));
        proof {
            let items = bv.map_values(|b: Seq<char>| list_item(kind, b)).take(i as int);
            assert(bv.map_values(|b: Seq<char>| list_item(kind, b)).take(i + 1) =~= items.push(list_item(kind, bv[i as int])));
            lemma_comma_list_push(items, list_item(kind, bv[i as int]));
            if i > 0 {
                assert(toks_view(r@) =~= before + seq![comma()] + list_item(kind, bv[i as int]));
            } else {
                assert(toks_view(r@) =~= list_item(kind, bv[i as int]));
            }
        }
        i = i + 1;
    }
    assert(bv.map_values(|b: Seq<char>| list_item(kind, b)).take(n as int) =~= bv.map_values(|b: Seq<char>| list_item(kind, b)));
    if kind == 0 {
        assert(bv.map_values(|b: Seq<char>| list_item(kind, b)) =~= bv.map_values(|b: Seq<char>| const_param(b)));
    } else if kind == 1 {
        assert(bv.map_values(|b: Seq<char>| list_item(kind, b)) =~= bv.map_values(|b: Seq<char>| seq![TokV::Ident(b)]));
    } else {
        assert(bv.map_values(|b: Seq<char>| list_item(kind, b)) =~= bv.map_values(|b: Seq<char>| seq![TokV::Lit("0"@)]));
    }
    r
}

/// Wraps a list in `<` and `>`, unless there is no parameter.
fn angle(binders: &Vec<String>, kind: u8) -> (r: Vec<Tok>)
    requires
        kind < 3,
    ensures
        kind == 0 ==> toks_view(r@) == const_params_spec(strings_view(binders@)),
        kind == 1 ==> toks_view(r@) == const_args_spec(strings_view(binders@)),
        kind == 2 ==> toks_view(r@) == obligation_args_spec(strings_view(binders@)),
{
    let mut r: Vec<Tok> = Vec::new();
    if binders.is_empty() {
        assert(toks_view(r@) =~= seq![]);
        return r;
    }
    push_punct(&mut r, '<', false);
    extend_toks(&mut r, emit_list_of(binders, kind));
    push_punct(&mut r, '>', false);
    let ghost open_v = seq![TokV::Punct('<', false)];
    let ghost close_v = seq![TokV::Punct('>', false)];
    assert(toks_view(r@) =~= open_v + toks_view(r@).subrange(1, toks_view(r@).len() - 1) + close_v);
    r
}

/// `<const N: ::rprop::Nat, ...>`, or nothing without parameters.
pub fn emit_const_params(binders: &Vec<String>) -> (r: Vec<Tok>)
    ensures
        toks_view(r@) == const_params_spec(strings_view(binders@)),
{
    angle(binders, 0)
}

/// `<N, ...>`, or nothing without parameters.
pub fn emit_const_arg_list(binders: &Vec<String>) -> (r: Vec<Tok>)
    ensures
        toks_view(r@) == const_args_spec(strings_view(binders@)),
{
    angle(binders, 1)
}

/// `<0, ...>`, or nothing without parameters: a generic claim is checked at zero, as no
/// check can cover every value.
pub fn emit_obligation_args(binders: &Vec<String>) -> (r: Vec<Tok>)
    ensures
        toks_view(r@) == obligation_args_spec(strings_view(binders@)),
{
    angle(binders, 2)
}


/// The tokens of a natural-number argument: the number, or the parameter's name.
pub open spec fn nat_arg_tok(a: NatArgV) -> TokV {
    match a {
        NatArgV::Lit(n) => TokV::Lit(decimal(n as nat)),
        NatArgV::Param(p) => TokV::Ident(p),
    }
}

/// The tokens that name an atom: `Name`, or `Name<3, N>` with its arguments.
pub open spec fn atom_tokens(a: AtomV) -> Seq<TokV> {
    if a.args.len() == 0 {
        seq![TokV::Ident(a.name)]
    } else {
        seq![TokV::Ident(a.name), TokV::Punct('<', false)] + comma_list(
            a.args.map_values(|x: NatArgV| seq![nat_arg_tok(x)]),
        ) + seq![TokV::Punct('>', false)]
    }
}

/// The part of a field name that an argument contributes: the number, or the parameter
/// in snake case.
pub open spec fn arg_suffix_part(a: NatArgV) -> Seq<char> {
    match a {
        NatArgV::Lit(n) => decimal(n as nat),
        NatArgV::Param(p) => snake_case(p),
    }
}

/// The parts joined with `_`.
pub open spec fn join_underscore(parts: Seq<Seq<char>>) -> Seq<char>
    decreases parts.len(),
{
    if parts.len() == 0 {
        seq![]
    } else if parts.len() == 1 {
        parts[0]
    } else {
        join_underscore(parts.drop_last()) + seq!['_'] + parts.last()
    }
}

/// The suffix that an atom's arguments add to its field name (`At<N, 3>` gives `n_3`).
pub open spec fn field_suffix_spec(a: AtomV) -> Seq<char> {
    join_underscore(a.args.map_values(|x: NatArgV| arg_suffix_part(x)))
}

/// A base name followed by `_` and a suffix, or the base alone when the suffix is empty.
pub open spec fn with_suffix(base: Seq<char>, suffix: Seq<char>) -> Seq<char> {
    if suffix.len() == 0 {
        base
    } else {
        base + seq!['_'] + suffix
    }
}

/// The field that holds an atom in a conjunction: its name in snake case, then the suffix
/// of its arguments (`At<N>` is held in `at_n`).
pub open spec fn atom_field_spec(a: AtomV) -> Seq<char> {
    with_suffix(snake_case(a.name), field_suffix_spec(a))
}

proof fn lemma_join_push(parts: Seq<Seq<char>>, x: Seq<char>)
    ensures
        join_underscore(parts.push(x)) == if parts.len() == 0 {
            x
        } else {
            join_underscore(parts) + seq!['_'] + x
        },
{
    assert(parts.push(x).drop_last() =~= parts);
}

impl NatArg {
    /// The token of the argument.
    pub fn to_tokens(&self) -> (r: Tok)
        ensures
            r@ == nat_arg_tok(self@),
    {
        match self {
            NatArg::Lit(n) => Tok::Lit(decimal_string(*n)),
            NatArg::Param(p) => Tok::Ident(p.clone()),
        }
    }
}

impl Atom {
    /// The atom's name without its arguments.
    pub fn base_name(&self) -> (r: String)
        ensures
            r@ == self.name@,
    {
        self.name.clone()
    }

    /// The tokens that name the atom, with its arguments.
    pub fn to_tokens(&self) -> (r: Vec<Tok>)
        ensures
            toks_view(r@) == atom_tokens(self@),
    {
        let mut r: Vec<Tok> = Vec::new();
        push_tok(&mut r, Tok::Ident(self.name.clone()));
        if self.args.is_empty() {
            assert(toks_view(r@) =~= atom_tokens(self@));
            return r;
        }
        push_punct(&mut r, '<', false);
        let ghost av = args_view(self.args@);
        let ghost head = toks_view(r@);
        let n = self.args.len();
        let mut i: usize = 0;
        assert(av.map_values(|x: NatArgV| seq![nat_arg_tok(x)]).take(0) =~= seq![]);
        assert(head + comma_list(av.map_values(|x: NatArgV| seq![nat_arg_tok(x)]).take(0)) =~= head);
        while i < n
            invariant
                n == self.args@.len(),
                av == args_view(self.args@),
                i <= n,
                toks_view(r@) == head + comma_list(av.map_values(|x: NatArgV| seq![nat_arg_tok(x)]).take(i as int)),
            decreases n - i,
        {
            let ghost before = toks_view(r@);
            assert(av[i as int] == self.args@[i as int]@);
            if i > 0 {
                push_punct(&mut r, ',', false);
            }
            let ghost mid = toks_view(r@);
            push_tok(&mut r, self.args[i].to_tokens());
            assert(toks_view(r@) =~= mid + seq![nat_arg_tok(av[i as int])]);
            proof {
                let items = av.map_values(|x: NatArgV| seq![nat_arg_tok(x)]).take(i as int);
                assert(av.map_values(|x: NatArgV| seq![nat_arg_tok(x)]).take(i + 1) =~= items.push(seq![nat_arg_tok(av[i as int])]));
                lemma_comma_list_push(items, seq![nat_arg_tok(av[i as int])]);
                if i > 0 {
                    assert(toks_view(r@) =~= head + (comma_list(items) + seq![comma()] + seq![nat_arg_tok(av[i as int])]));
                } else {
                    assert(toks_view(r@) =~= head + seq![nat_arg_tok(av[i as int])]);
                }
            }
            i = i + 1;
        }
        assert(av.map_values(|x: NatArgV| seq![nat_arg_tok(x)]).take(n as int) =~= av.map_values(|x: NatArgV| seq![nat_arg_tok(x)]));
        push_punct(&mut r, '>', false);
        assert(toks_view(r@) =~= atom_tokens(self@));
        r
    }

    /// The suffix that the atom's arguments add to its field name.
    pub fn field_suffix(&self) -> (r: String)
        ensures
            r@ == field_suffix_spec(self@),
    {
        let ghost av = args_view(self.args@);
        let mut r = String::new();
        if self.args.is_empty() {
            assert(av.map_values(|x: NatArgV| arg_suffix_part(x)) =~= seq![]);
            return r;
        }
        let n = self.args.len();
        let mut i: usize = 0;
        assert(av.map_values(|x: NatArgV| arg_suffix_part(x)).take(0) =~= seq![]);
        while i < n
            invariant
                n == self.args@.len(),
                av == args_view(self.args@),
                i <= n,
                r@ == join_underscore(av.map_values(|x: NatArgV| arg_suffix_part(x)).take(i as int)),
            decreases n - i,
        {
            let ghost before = r@;
            assert(av[i as int] == self.args@[i as int]@);
            if i > 0 {
                push_char(&mut r, '_');
            }
            let ghost mid = r@;
            let part = match &self.args[i] {
                NatArg::Lit(k) => decimal_string(*k),
                NatArg::Param(p) => to_snake_case(p.as_str()),
            };
            assert(part@ == arg_suffix_part(av[i as int]));
            r.append(part.as_str());
            assert(r@ =~= mid + arg_suffix_part(av[i as int]));
            proof {
                let items = av.map_values(|x: NatArgV| arg_suffix_part(x)).take(i as int);
                assert(av.map_values(|x: NatArgV| arg_suffix_part(x)).take(i + 1) =~= items.push(arg_suffix_part(av[i as int])));
                lemma_join_push(items, arg_suffix_part(av[i as int]));
                if i > 0 {
                    assert(r@ =~= before + seq!['_'] + arg_suffix_part(av[i as int]));
                }
            }
            i = i + 1;
        }
        assert(av.map_values(|x: NatArgV| arg_suffix_part(x)).take(n as int) =~= av.map_values(|x: NatArgV| arg_suffix_part(x)));
        r
    }

    /// The field that holds the atom in a conjunction (`At<N>` is held in `at_n`).
    pub fn field_name(&self) -> (r: String)
        ensures
            r@ == atom_field_spec(self@),
    {
        let base = to_snake_case(self.name.as_str());
        let suffix = self.field_suffix();
        if suffix.as_str().unicode_len() == 0 {
            base
        } else {
            let mut name = base;
            push_char(&mut name, '_');
            name.append(suffix.as_str());
            assert(name@ =~= with_suffix(snake_case(self.name@), field_suffix_spec(self@)));
            name
        }
    }
}


/// The parameters among the arguments, in order.
pub open spec fn params_of_args(args: Seq<NatArgV>) -> Seq<Seq<char>>
    decreases args.len(),
{
    if args.len() == 0 {
        seq![]
    } else {
        params_of_args(args.drop_last()) + match args.last() {
            NatArgV::Param(p) => seq![p],
            NatArgV::Lit(_) => seq![],
        }
    }
}

/// Every parameter that occurs in a named expression, in order, with repetitions.
pub open spec fn params_in(n: NamedV) -> Seq<Seq<char>>
    decreases n, 1int,
{
    match n {
        NamedV::Atom(a) => params_of_args(a.args),
        NamedV::And { children, .. } => params_in_list(children),
        NamedV::Or { children, .. } => params_in_list(children),
        NamedV::Imply { premise, conclusion, .. } => params_in(*premise) + params_in(*conclusion),
    }
}

pub open spec fn params_in_list(cs: Seq<NamedV>) -> Seq<Seq<char>>
    decreases cs, 0int,
{
    if cs.len() == 0 {
        seq![]
    } else {
        params_in_list(cs.drop_last()) + params_in(cs.last())
    }
}

/// `acc` followed by the elements of `s` that are new, each at its first occurrence.
pub open spec fn add_new(acc: Seq<Seq<char>>, s: Seq<Seq<char>>) -> Seq<Seq<char>>
    decreases s.len(),
{
    if s.len() == 0 {
        acc
    } else {
        let a = add_new(acc, s.drop_last());
        if a.contains(s.last()) {
            a
        } else {
            a.push(s.last())
        }
    }
}

/// The parameters that a named part binds: each parameter of its atoms once, in order of
/// first occurrence.
pub open spec fn binders_of(n: NamedV) -> Seq<Seq<char>> {
    add_new(seq![], params_in(n))
}

pub proof fn lemma_add_new_concat(acc: Seq<Seq<char>>, s1: Seq<Seq<char>>, s2: Seq<Seq<char>>)
    ensures
        add_new(acc, s1 + s2) == add_new(add_new(acc, s1), s2),
    decreases s2.len(),
{
    if s2.len() == 0 {
        assert(s1 + s2 =~= s1);
    } else {
        lemma_add_new_concat(acc, s1, s2.drop_last());
        assert((s1 + s2).drop_last() =~= s1 + s2.drop_last());
    }
}

/// Adding new elements keeps a list free of repetitions, and the result holds exactly the
/// elements of both.
pub proof fn lemma_add_new_props(acc: Seq<Seq<char>>, s: Seq<Seq<char>>)
    requires
        acc.no_duplicates(),
    ensures
        add_new(acc, s).no_duplicates(),
        forall|x: Seq<char>| add_new(acc, s).contains(x) <==> (acc.contains(x) || s.contains(x)),
    decreases s.len(),
{
    if s.len() > 0 {
        lemma_add_new_props(acc, s.drop_last());
        let a = add_new(acc, s.drop_last());
        assert forall|x: Seq<char>| add_new(acc, s).contains(x) <==> (acc.contains(x) || s.contains(x)) by {
            if s.contains(x) && !s.drop_last().contains(x) {
                let k = choose|k: int| 0 <= k < s.len() && s[k] == x;
                if k < s.len() - 1 {
                    assert(s.drop_last()[k] == x);
                }
            }
            if s.drop_last().contains(x) {
                let k = choose|k: int| 0 <= k < s.drop_last().len() && s.drop_last()[k] == x;
                assert(s[k] == x);
            }
            if !a.contains(s.last()) && a.push(s.last()).contains(x) && !a.contains(x) {
                let k = choose|k: int| 0 <= k < a.push(s.last()).len() && a.push(s.last())[k] == x;
                assert(k == a.len());
            }
            if a.contains(x) && !a.contains(s.last()) {
                let k = choose|k: int| 0 <= k < a.len() && a[k] == x;
                assert(a.push(s.last())[k] == x);
            }
            if x == s.last() && !a.contains(s.last()) {
                assert(a.push(s.last())[a.len() as int] == x);
            }
        }
    }
}

/// The parameters of a lowered part are listed once each, in order of first occurrence,
/// and they are exactly the parameters that occur in it.
pub proof fn law_binders_once_each(n: NamedV)
    ensures
        binders_of(n).no_duplicates(),
        forall|x: Seq<char>| binders_of(n).contains(x) <==> params_in(n).contains(x),
{
    lemma_add_new_props(seq![], params_in(n));
}

/// Whether the list holds the string.
pub fn contains_string(v: &Vec<String>, s: &String) -> (r: bool)
    ensures
        r == strings_view(v@).contains(s@),
{
    let n = v.len();
    let mut i: usize = 0;
    while i < n
        invariant
            n == v@.len(),
            i <= n,
            forall|j: int| 0 <= j < i ==> v@[j]@ != s@,
        decreases n - i,
    {
        if v[i] == *s {
            assert(strings_view(v@)[i as int] == s@);
            return true;
        }
        i = i + 1;
    }
    assert forall|j: int| 0 <= j < strings_view(v@).len() implies strings_view(v@)[j] != s@ by {
        assert(strings_view(v@)[j] == v@[j]@);
    }
    false
}

impl Atom {
    /// Adds the atom's parameters that are not yet listed, in order.
    pub fn collect_param_binders_into(&self, binders: &mut Vec<String>)
        ensures
            strings_view(final(binders)@) == add_new(strings_view(old(binders)@), params_of_args(self@.args)),
    {
        let ghost acc0 = strings_view(binders@);
        let ghost av = args_view(self.args@);
        let n = self.args.len();
        let mut i: usize = 0;
        assert(av.take(0) =~= seq![]);
        while i < n
            invariant
                n == self.args@.len(),
                av == args_view(self.args@),
                i <= n,
                strings_view(binders@) == add_new(acc0, params_of_args(av.take(i as int))),
            decreases n - i,
        {
            let ghost before = strings_view(binders@);
            assert(av.take(i + 1).drop_last() =~= av.take(i as int));
            assert(av.take(i + 1).last() == self.args@[i as int]@);
            match &self.args[i] {
                NatArg::Param(p) => {
                    let ghost x = params_of_args(av.take(i as int));
                    assert(params_of_args(av.take(i + 1)) =~= x.push(p@));
                    assert(x.push(p@).drop_last() =~= x);
                    if !contains_string(binders, p) {
                        binders.push(p.clone());
                        assert(strings_view(binders@) =~= before.push(p@));
                    }
                },
                NatArg::Lit(_) => {
                    assert(params_of_args(av.take(i + 1)) =~= params_of_args(av.take(i as int)));
                },
            }
            i = i + 1;
        }
        assert(av.take(n as int) =~= av);
    }
}

impl NamedExpr {
    /// The parameters that the part binds: each parameter of its atoms once, in order of
    /// first occurrence.
    pub fn collect_param_binders(&self) -> (r: Vec<String>)
        ensures
            strings_view(r@) == binders_of(self@),
    {
        let mut binders: Vec<String> = Vec::new();
        assert(strings_view(binders@) =~= seq![]);
        self.collect_param_binders_into(&mut binders);
        binders
    }

    fn collect_param_binders_into(&self, binders: &mut Vec<String>)
        ensures
            strings_view(final(binders)@) == add_new(strings_view(old(binders)@), params_in(self@)),
        decreases self,
    {
        match self {
            NamedExpr::Atom(atom) => atom.collect_param_binders_into(binders),
            NamedExpr::And { children, .. } => collect_list_binders(children, binders),
            NamedExpr::Or { children, .. } => collect_list_binders(children, binders),
            NamedExpr::Imply { premise, conclusion, .. } => {
                let ghost acc0 = strings_view(binders@);
                premise.collect_param_binders_into(binders);
                conclusion.collect_param_binders_into(binders);
                proof {
                    lemma_add_new_concat(acc0, params_in(premise@), params_in(conclusion@));
                }
            },
        }
    }
}

fn collect_list_binders(children: &Vec<NamedExpr>, binders: &mut Vec<String>)
    ensures
        strings_view(final(binders)@) == add_new(strings_view(old(binders)@), params_in_list(nameds_view(children@))),
    decreases children,
{
    let ghost acc0 = strings_view(binders@);
    let ghost cv = nameds_view(children@);
    proof {
        lemma_nameds_view(children@);
        assert(cv.take(0) =~= seq![]);
    }
    let n = children.len();
    let mut i: usize = 0;
    while i < n
        invariant
            n == children@.len(),
            cv == nameds_view(children@),
            cv.len() == n,
            forall|j: int| 0 <= j < n ==> #[trigger] cv[j] == named_view(children@[j]),
            i <= n,
            strings_view(binders@) == add_new(acc0, params_in_list(cv.take(i as int))),
        decreases n - i,
    {
        children[i].collect_param_binders_into(binders);
        proof {
            assert(cv.take(i + 1).drop_last() =~= cv.take(i as int));
            assert(cv.take(i + 1).last() == named_view(children@[i as int]));
            lemma_add_new_concat(acc0, params_in_list(cv.take(i as int)), params_in(cv[i as int]));
        }
        i = i + 1;
    }
    assert(cv.take(n as int) =~= cv);
}

/// The tokens that name a part: an atom with its arguments, or the part's name with the
/// parameters it binds.
pub open spec fn reference_spec(n: NamedV) -> Seq<TokV> {
    match n {
        NamedV::Atom(a) => atom_tokens(a),
        _ => seq![TokV::Ident(named_name(n))] + const_args_spec(binders_of(n)),
    }
}

/// The field that holds a part in a conjunction: an atom's field, or the part's name in
/// snake case followed by its parameters in snake case.
pub open spec fn member_field_spec(n: NamedV) -> Seq<char> {
    match n {
        NamedV::Atom(a) => atom_field_spec(a),
        _ => with_suffix(
            snake_case(named_name(n)),
            join_underscore(binders_of(n).map_values(|b: Seq<char>| snake_case(b))),
        ),
    }
}

impl NamedExpr {
    /// The tokens that name the part where it is used.
    pub fn reference_tokens(&self) -> (r: Vec<Tok>)
        ensures
            toks_view(r@) == reference_spec(self@),
    {
        match self {
            NamedExpr::Atom(atom) => atom.to_tokens(),
            _ => {
                let mut r: Vec<Tok> = Vec::new();
                push_tok(&mut r, Tok::Ident(self.name()));
                let binders = self.collect_param_binders();
                extend_toks(&mut r, emit_const_arg_list(&binders));
                r
            },
        }
    }

    /// The field that holds the part in a conjunction.
    pub fn member_field_name(&self) -> (r: String)
        ensures
            r@ == member_field_spec(self@),
    {
        match self {
            NamedExpr::Atom(atom) => atom.field_name(),
            _ => {
                let base = to_snake_case(self.name().as_str());
                let binders = self.collect_param_binders();
                let ghost bv = strings_view(binders@);
                let mut suffix = String::new();
                let n = binders.len();
                let mut i: usize = 0;
                assert(bv.map_values(|b: Seq<char>| snake_case(b)).take(0) =~= seq![]);
                while i < n
                    invariant
                        n == binders@.len(),
                        bv == strings_view(binders@),
                        i <= n,
                        suffix@ == join_underscore(bv.map_values(|b: Seq<char>| snake_case(b)).take(i as int)),
                    decreases n - i,
                {
                    let ghost before = suffix@;
                    assert(bv[i as int] == binders@[i as int]@);
                    if i > 0 {
                        push_char(&mut suffix, '_');
                    }
                    let ghost mid = suffix@;
                    let part = to_snake_case(binders[i].as_str());
                    assert(part@ == snake_case(bv[i as int]));
                    suffix.append(part.as_str());
                    assert(suffix@ =~= mid + snake_case(bv[i as int]));
                    proof {
                        let items = bv.map_values(|b: Seq<char>| snake_case(b)).take(i as int);
                        assert(bv.map_values(|b: Seq<char>| snake_case(b)).take(i + 1) =~= items.push(snake_case(bv[i as int])));
                        lemma_join_push(items, snake_case(bv[i as int]));
                        if i > 0 {
                            assert(suffix@ =~= before + seq!['_'] + snake_case(bv[i as int]));
                        }
                    }
                    i = i + 1;
                }
                assert(bv.map_values(|b: Seq<char>| snake_case(b)).take(n as int) =~= bv.map_values(|b: Seq<char>| snake_case(b)));
                if suffix.as_str().unicode_len() == 0 {
                    base
                } else {
                    let mut name = base;
                    push_char(&mut name, '_');
                    name.append(suffix.as_str());
                    name
                }
            },
        }
    }
}

} // verus!
