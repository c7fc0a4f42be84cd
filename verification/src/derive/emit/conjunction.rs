use vstd::prelude::*;
use crate::error::{MacroError, ErrV};
use crate::search::{first_index, lemma_first_index, lemma_first_index_push, lemma_first_index_prefix, position_of};
use crate::text::{decimal, decimal_string, push_char};
use crate::tokens::{
    Delim, Tok, TokV, toks_view, push_punct, extend_toks, copy_toks, word, mark, group,
    word_toks, app_word, app_name, app_mark, app_group, app_copy,
};
use crate::derive::ast::{Atom, AtomV, NatArg, NatArgV, args_view, strings_view};
use crate::derive::lower::{NamedExpr, NamedV, named_name, refs_view};
use crate::derive::generics::{
    GenericContext, binders_of, reference_spec, member_field_spec, const_params_spec, const_args_spec,
    emit_const_params, comma_list, lemma_comma_list_push,
};
use crate::derive::emit::common::{
    arrow, rprop_path, derive_clone_copy, concat_seqs, lemma_concat_push, push_arrow, push_rprop_path,
    push_derive_clone_copy, self_ty, marker_impl, push_self_ty, push_marker_impl, in_order, occurs_at, lemma_concat_in_order, lemma_two_in_order,
};

verus! {

/// An argument of a conjunction member's key.
#[derive(Clone, Debug)]
pub enum ConjunctionMemberArg {
    Lit(u32),
    Param(String),
}

impl View for ConjunctionMemberArg {
    type V = NatArgV;

    open spec fn view(&self) -> NatArgV {
        match self {
            ConjunctionMemberArg::Lit(n) => NatArgV::Lit(*n),
            ConjunctionMemberArg::Param(s) => NatArgV::Param(s@),
        }
    }
}

/// What identifies a member of a conjunction: its name and its arguments. A conjunction
/// cannot hold two members with the same key.
#[derive(Clone, Debug)]
pub struct ConjunctionMemberKey {
    pub name: String,
    pub args: Vec<ConjunctionMemberArg>,
}

pub open spec fn key_args_view(v: Seq<ConjunctionMemberArg>) -> Seq<NatArgV> {
    v.map_values(|a: ConjunctionMemberArg| a@)
}

impl View for ConjunctionMemberKey {
    type V = AtomV;

    open spec fn view(&self) -> AtomV {
        AtomV { name: self.name@, args: key_args_view(self.args@) }
    }
}

/// The key of a part: an atom's name and arguments, or a composite part's name with the
/// parameters it binds.
pub open spec fn member_key(n: NamedV) -> AtomV {
    match n {
        NamedV::Atom(a) => a,
        _ => AtomV {
            name: named_name(n),
            args: binders_of(n).map_values(|b: Seq<char>| NatArgV::Param(b)),
        },
    }
}

/// The text of an argument: the number, or the parameter.
pub open spec fn arg_display(a: NatArgV) -> Seq<char> {
    match a {
        NatArgV::Lit(n) => decimal(n as nat),
        NatArgV::Param(p) => p,
    }
}

/// The arguments' texts separated by `, `.
pub open spec fn args_display(args: Seq<NatArgV>) -> Seq<char>
    decreases args.len(),
{
    if args.len() == 0 {
        seq![]
    } else if args.len() == 1 {
        arg_display(args[0])
    } else {
        args_display(args.drop_last()) + seq![',', ' '] + arg_display(args.last())
    }
}

/// The text of a key: `Name`, or `Name<3, N>`.
pub open spec fn key_display(k: AtomV) -> Seq<char> {
    if k.args.len() == 0 {
        k.name
    } else {
        k.name + seq!['<'] + args_display(k.args) + seq!['>']
    }
}

impl ConjunctionMemberArg {
    /// The text of the argument.
    pub fn fmt(&self) -> (r: String)
        ensures
            r@ == arg_display(self@),
    {
        match self {
            ConjunctionMemberArg::Lit(n) => decimal_string(*n),
            ConjunctionMemberArg::Param(p) => p.clone(),
        }
    }
}

impl ConjunctionMemberKey {
    /// The key of an atom.
    pub fn from_atom(atom: &Atom) -> (r: ConjunctionMemberKey)
        ensures
            r@ == atom@,
    {
        let mut args: Vec<ConjunctionMemberArg> = Vec::new();
        let n = atom.args.len();
        let mut i: usize = 0;
        while i < n
            invariant
                n == atom.args@.len(),
                i <= n,
                args@.len() == i,
                forall|j: int| 0 <= j < i ==> #[trigger] args@[j]@ == atom.args@[j]@,
            decreases n - i,
        {
            let a = match &atom.args[i] {
                NatArg::Lit(k) => ConjunctionMemberArg::Lit(*k),
                NatArg::Param(p) => ConjunctionMemberArg::Param(p.clone()),
            };
            args.push(a);
            i = i + 1;
        }
        assert(key_args_view(args@) =~= args_view(atom.args@));
        ConjunctionMemberKey { name: atom.name.clone(), args }
    }

    /// The key of a part.
    pub fn from_named_expr(expr: &NamedExpr) -> (r: ConjunctionMemberKey)
        ensures
            r@ == member_key(expr@),
    {
        match expr {
            NamedExpr::Atom(atom) => Self::from_atom(atom),
            _ => {
                let binders = expr.collect_param_binders();
                let mut args: Vec<ConjunctionMemberArg> = Vec::new();
                let n = binders.len();
                let mut i: usize = 0;
                while i < n
                    invariant
                        n == binders@.len(),
                        i <= n,
                        args@.len() == i,
                        forall|j: int| 0 <= j < i ==> #[trigger] args@[j]@ == NatArgV::Param(binders@[j]@),
                    decreases n - i,
                {
                    args.push(ConjunctionMemberArg::Param(binders[i].clone()));
                    i = i + 1;
                }
                assert(key_args_view(args@) =~= strings_view(binders@).map_values(|b: Seq<char>| NatArgV::Param(b)));
                ConjunctionMemberKey { name: expr.name(), args }
            },
        }
    }

    /// The text of the key: `Name`, or `Name<3, N>`.
    pub fn fmt(&self) -> (r: String)
        ensures
            r@ == key_display(self@),
    {
        let mut r = self.name.clone();
        if self.args.is_empty() {
            return r;
        }
        push_char(&mut r, '<');
        let ghost head = r@;
        let ghost av = key_args_view(self.args@);
        let n = self.args.len();
        let mut i: usize = 0;
        while i < n
            invariant
                n == self.args@.len(),
                av == key_args_view(self.args@),
                i <= n,
                r@ == head + args_display(av.take(i as int)),
            decreases n - i,
        {
            let ghost before = r@;
            if i > 0 {
                push_char(&mut r, ',');
                push_char(&mut r, ' ');
            }
            let part = self.args[i].fmt();
            r.append(part.as_str());
            proof {
                assert(av.take(i + 1).drop_last() =~= av.take(i as int));
                assert(av.take(i + 1).last() == self.args@[i as int]@);
                if i > 0 {
                    assert(r@ =~= head + args_display(av.take(i + 1)));
                } else {
                    assert(av.take(1)[0] == self.args@[0]@);
                    assert(r@ =~= head + args_display(av.take(i + 1)));
                }
            }
            i = i + 1;
        }
        assert(av.take(n as int) =~= av);
        push_char(&mut r, '>');
        assert(r@ =~= key_display(self@));
        r
    }
}

/// Whether two keys are equal.
pub fn same_key(a: &ConjunctionMemberKey, b: &ConjunctionMemberKey) -> (r: bool)
    ensures
        r == (a@ == b@),
{
    if a.name != b.name || a.args.len() != b.args.len() {
        proof {
            if a@ == b@ {
                assert(key_args_view(a.args@).len() == a.args@.len());
                assert(key_args_view(b.args@).len() == b.args@.len());
            }
        }
        return false;
    }
    let n = a.args.len();
    let mut i: usize = 0;
    while i < n
        invariant
            n == a.args@.len(),
            n == b.args@.len(),
            i <= n,
            forall|j: int| 0 <= j < i ==> a.args@[j]@ == b.args@[j]@,
        decreases n - i,
    {
        let same = match (&a.args[i], &b.args[i]) {
            (ConjunctionMemberArg::Lit(x), ConjunctionMemberArg::Lit(y)) => *x == *y,
            (ConjunctionMemberArg::Param(x), ConjunctionMemberArg::Param(y)) => *x == *y,
            _ => false,
        };
        if !same {
            proof {
                assert(key_args_view(a.args@)[i as int] != key_args_view(b.args@)[i as int]);
            }
            return false;
        }
        i = i + 1;
    }
    assert(key_args_view(a.args@) =~= key_args_view(b.args@));
    true
}

/// A member of a conjunction as it is emitted: the type that names it and its field.
#[derive(Debug)]
pub struct ConjunctionMember {
    pub ty: Vec<Tok>,
    pub field: String,
}

/// The model of an emitted member.
pub struct MemberV {
    pub ty: Seq<TokV>,
    pub field: Seq<char>,
}

impl View for ConjunctionMember {
    type V = MemberV;

    open spec fn view(&self) -> MemberV {
        MemberV { ty: toks_view(self.ty@), field: self.field@ }
    }
}

pub open spec fn members_view(v: Seq<ConjunctionMember>) -> Seq<MemberV> {
    v.map_values(|m: ConjunctionMember| m@)
}

/// The emitted form of one part.
pub open spec fn member_of(n: NamedV) -> MemberV {
    MemberV { ty: reference_spec(n), field: member_field_spec(n) }
}

pub open spec fn keys_of(ms: Seq<NamedV>) -> Seq<AtomV> {
    ms.map_values(|m: NamedV| member_key(m))
}

pub open spec fn fields_of(ms: Seq<NamedV>) -> Seq<Seq<char>> {
    ms.map_values(|m: NamedV| member_field_spec(m))
}

/// The members of a conjunction, in order, or the first refusal: a member whose key an
/// earlier member has, or else a member whose field an earlier member has. The refusal
/// names the earlier member.
pub open spec fn resolve_spec(ms: Seq<NamedV>) -> Result<Seq<MemberV>, ErrV>
    decreases ms.len(),
{
    if ms.len() == 0 {
        Ok(seq![])
    } else {
        let prefix = ms.drop_last();
        let m = ms.last();
        match resolve_spec(prefix) {
            Err(e) => Err(e),
            Ok(rs) => match first_index(keys_of(prefix), member_key(m)) {
                Some(j) => Err(ErrV::DuplicateMember { key: key_display(member_key(m)), other: named_name(prefix[j]) }),
                None => match first_index(fields_of(prefix), member_field_spec(m)) {
                    Some(j) => Err(
                        ErrV::FieldClash { member: named_name(m), field: member_field_spec(m), other: named_name(prefix[j]) },
                    ),
                    None => Ok(rs.push(member_of(m))),
                },
            },
        }
    }
}

/// Where a key occurs first among the keys.
fn find_key(keys: &Vec<ConjunctionMemberKey>, k: &ConjunctionMemberKey) -> (r: Option<usize>)
    ensures
        r matches Some(j) ==> first_index(keys@.map_values(|x: ConjunctionMemberKey| x@), k@) == Some(j as int),
        r is None ==> first_index(keys@.map_values(|x: ConjunctionMemberKey| x@), k@) is None,
{
    let ghost kv = keys@.map_values(|x: ConjunctionMemberKey| x@);
    let n = keys.len();
    let mut i: usize = 0;
    while i < n
        invariant
            n == keys@.len(),
            kv == keys@.map_values(|x: ConjunctionMemberKey| x@),
            i <= n,
            first_index(kv.take(i as int), k@) is None,
        decreases n - i,
    {
        assert(kv.take(i + 1) =~= kv.take(i as int).push(kv[i as int]));
        proof { lemma_first_index_push(kv.take(i as int), kv[i as int], k@); }
        if same_key(&keys[i], k) {
            proof {
                assert(kv.take(i + 1) + kv.skip(i + 1) =~= kv);
                lemma_first_index_prefix(kv.take(i + 1), kv.skip(i + 1), k@);
            }
            return Some(i);
        }
        i = i + 1;
    }
    assert(kv.take(n as int) =~= kv);
    None
}

/// A refusal on a prefix of the members is the refusal of all of them.
pub proof fn lemma_resolve_err_prefix(ms: Seq<NamedV>, k: int)
    requires
        0 <= k <= ms.len(),
        resolve_spec(ms.take(k)) is Err,
    ensures
        resolve_spec(ms) == resolve_spec(ms.take(k)),
    decreases ms.len(),
{
    if k == ms.len() {
        assert(ms.take(k) =~= ms);
    } else {
        assert(ms.drop_last().take(k) =~= ms.take(k));
        lemma_resolve_err_prefix(ms.drop_last(), k);
    }
}

/// The members of a conjunction with their types and fields, or the first member whose
/// key or field an earlier member already has.
pub fn resolve_conjunction_members(members: &Vec<&NamedExpr>) -> (r: Result<Vec<ConjunctionMember>, MacroError>)
    ensures
        match r {
            Ok(v) => resolve_spec(refs_view(members@)) == Ok::<Seq<MemberV>, ErrV>(members_view(v@)),
            Err(e) => resolve_spec(refs_view(members@)) == Err::<Seq<MemberV>, ErrV>(e@),
        },
{
    let ghost ms = refs_view(members@);
    let mut resolved: Vec<ConjunctionMember> = Vec::new();
    let mut keys: Vec<ConjunctionMemberKey> = Vec::new();
    let mut fields: Vec<String> = Vec::new();
    let n = members.len();
    let mut i: usize = 0;
    assert(ms.take(0) =~= seq![]);
    assert(members_view(resolved@) =~= seq![]);
    assert(keys@.map_values(|x: ConjunctionMemberKey| x@) =~= keys_of(ms.take(0)));
    assert(strings_view(fields@) =~= fields_of(ms.take(0)));
    while i < n
        invariant
            n == members@.len(),
            ms == refs_view(members@),
            i <= n,
            resolve_spec(ms.take(i as int)) == Ok::<Seq<MemberV>, ErrV>(members_view(resolved@)),
            keys@.map_values(|x: ConjunctionMemberKey| x@) == keys_of(ms.take(i as int)),
            strings_view(fields@) == fields_of(ms.take(i as int)),
        decreases n - i,
    {
        let member = members[i];
        let ghost m = ms[i as int];
        assert(m == member@);
        let ghost prefix = ms.take(i as int);
        assert(ms.take(i + 1).drop_last() =~= prefix);
        assert(ms.take(i + 1).last() == m);
        let key = ConjunctionMemberKey::from_named_expr(member);
        proof {
            lemma_first_index(keys_of(prefix), key@);
            lemma_first_index(fields_of(prefix), member_field_spec(m));
        }
        match find_key(&keys, &key) {
            Some(j) => {
                let other = members[j].name();
                let shown = key.fmt();
                proof {
                    assert(keys_of(prefix)[j as int] == member_key(prefix[j as int]));
                    assert(prefix[j as int] == ms[j as int]);
                }
                proof {
                    lemma_resolve_err_prefix(ms, i + 1);
                }
                return Err(MacroError::DuplicateMember { key: shown, other });
            },
            None => {},
        }
        let field = member.member_field_name();
        match position_of(&fields, &field) {
            Some(j) => {
                let other = members[j].name();
                proof {
                    assert(prefix[j as int] == ms[j as int]);
                }
                proof {
                    lemma_resolve_err_prefix(ms, i + 1);
                }
                return Err(MacroError::FieldClash { member: member.name(), field, other });
            },
            None => {},
        }
        let ty = member.reference_tokens();
        let ghost kv0 = keys@.map_values(|x: ConjunctionMemberKey| x@);
        keys.push(key);
        assert(keys_of(ms.take(i + 1)) =~= keys_of(prefix).push(member_key(m)));
        assert(keys@.map_values(|x: ConjunctionMemberKey| x@) =~= kv0.push(member_key(m)));
        let ghost fv0 = strings_view(fields@);
        fields.push(field.clone());
        assert(fields_of(ms.take(i + 1)) =~= fields_of(prefix).push(member_field_spec(m)));
        assert(strings_view(fields@) =~= fv0.push(member_field_spec(m)));
        let ghost rv0 = members_view(resolved@);
        resolved.push(ConjunctionMember { ty, field });
        assert(members_view(resolved@) =~= rv0.push(member_of(m)));
        i = i + 1;
    }
    assert(ms.take(n as int) =~= ms);
    Ok(resolved)
}

/// `pub field: Type,` in the struct.
pub open spec fn struct_field_toks(r: MemberV) -> Seq<TokV> {
    word("pub"@) + word(r.field) + mark(':') + r.ty + mark(',')
}

/// `field: Type` among the parameters of `new`.
pub open spec fn new_param_toks(r: MemberV) -> Seq<TokV> {
    word(r.field) + mark(':') + r.ty
}

/// `field,` in the struct expression of `new`.
pub open spec fn init_toks(r: MemberV) -> Seq<TokV> {
    word(r.field) + mark(',')
}

/// `pub fn new(field: Type, ...) -> Self { Self { field, ... } }`.
pub open spec fn new_fn_toks(rs: Seq<MemberV>) -> Seq<TokV> {
    word("pub"@) + word("fn"@) + word("new"@) + group(Delim::Paren, comma_list(rs.map_values(|r: MemberV| new_param_toks(r))))
        + arrow() + word("Self"@) + group(
        Delim::Brace,
        word("Self"@) + group(Delim::Brace, concat_seqs(rs.map_values(|r: MemberV| init_toks(r)))),
    )
}

/// `fn prop(&self) -> Type { self.field }`.
pub open spec fn prop_fn_toks(r: MemberV) -> Seq<TokV> {
    word("fn"@) + word("prop"@) + group(Delim::Paren, mark('&') + word("self"@)) + arrow() + r.ty + group(
        Delim::Brace,
        word("self"@) + mark('.') + word(r.field),
    )
}

/// `impl<params> ::rprop::HasProp<Type> for Name<args> { fn prop(&self) -> Type { self.field } }`.
pub open spec fn has_prop_impl(r: MemberV, name: Seq<char>, binders: Seq<Seq<char>>) -> Seq<TokV> {
    word("impl"@) + const_params_spec(binders) + rprop_path("HasProp"@) + mark('<') + r.ty + mark('>') + word("for"@)
        + self_ty(name, binders) + group(Delim::Brace, prop_fn_toks(r))
}

/// The items of a conjunction: the attributes, a `Clone + Copy` struct with one public
/// field per member, its `Prop` and `Conjunction` impls, a constructor `new` taking the
/// members in order, and one `HasProp` impl per member.
pub open spec fn conjunction_spec(attrs: Seq<TokV>, name: Seq<char>, binders: Seq<Seq<char>>, rs: Seq<MemberV>) -> Seq<TokV> {
    attrs + derive_clone_copy() + word("pub"@) + word("struct"@) + word(name) + const_params_spec(binders) + group(
        Delim::Brace,
        concat_seqs(rs.map_values(|r: MemberV| struct_field_toks(r))),
    ) + marker_impl("Prop"@, name, binders) + marker_impl("Conjunction"@, name, binders) + word("impl"@)
        + const_params_spec(binders) + self_ty(name, binders) + group(Delim::Brace, new_fn_toks(rs)) + concat_seqs(
        rs.map_values(|r: MemberV| has_prop_impl(r, name, binders)),
    )
}

/// What `emit_conjunction` gives for the members: a refusal without members, else the
/// refusal of resolving them, else the items.
pub open spec fn emit_conjunction_spec(attrs: Seq<TokV>, name: Seq<char>, ms: Seq<NamedV>, binders: Seq<Seq<char>>) -> Result<Seq<TokV>, ErrV> {
    if ms.len() == 0 {
        Err(ErrV::EmptyConjunction(name))
    } else {
        match resolve_spec(ms) {
            Err(e) => Err(e),
            Ok(rs) => Ok(conjunction_spec(attrs, name, binders, rs)),
        }
    }
}

/// The fields of a conjunction's struct, one `pub field: Type,` per member.
pub fn struct_fields_tokens(rs: &Vec<ConjunctionMember>) -> (out: Vec<Tok>)
    ensures
        toks_view(out@) == concat_seqs(members_view(rs@).map_values(|r: MemberV| struct_field_toks(r))),
{
    let ghost rv = members_view(rs@);
    let mut out: Vec<Tok> = Vec::new();
    let n = rs.len();
    let mut i: usize = 0;
    assert(rv.map_values(|r: MemberV| struct_field_toks(r)).take(0) =~= seq![]);
    while i < n
        invariant
            n == rs@.len(),
            rv == members_view(rs@),
            i <= n,
            toks_view(out@) == concat_seqs(rv.map_values(|r: MemberV| struct_field_toks(r)).take(i as int)),
        decreases n - i,
    {
        let mut item = word_toks("pub");
        app_name(&mut item, &rs[i].field);
        app_mark(&mut item, ':');
        app_copy(&mut item, &rs[i].ty);
        app_mark(&mut item, ',');
        let ghost iv = toks_view(item@);
        extend_toks(&mut out, item);
        proof {
            let items = rv.map_values(|r: MemberV| struct_field_toks(r));
            assert(items.take(i + 1) =~= items.take(i as int).push(struct_field_toks(rv[i as int])));
            lemma_concat_push(items.take(i as int), struct_field_toks(rv[i as int]));
        }
        i = i + 1;
    }
    assert(rv.map_values(|r: MemberV| struct_field_toks(r)).take(n as int) =~= rv.map_values(|r: MemberV| struct_field_toks(r)));
    out
}

/// The constructor `new` of a conjunction, taking the members in order.
pub fn new_fn_tokens(rs: &Vec<ConjunctionMember>) -> (out: Vec<Tok>)
    ensures
        toks_view(out@) == new_fn_toks(members_view(rs@)),
{
    let ghost rv = members_view(rs@);
    let mut params: Vec<Tok> = Vec::new();
    let mut inits: Vec<Tok> = Vec::new();
    let n = rs.len();
    let mut i: usize = 0;
    assert(rv.map_values(|r: MemberV| new_param_toks(r)).take(0) =~= seq![]);
    assert(rv.map_values(|r: MemberV| init_toks(r)).take(0) =~= seq![]);
    while i < n
        invariant
            n == rs@.len(),
            rv == members_view(rs@),
            i <= n,
            toks_view(params@) == comma_list(rv.map_values(|r: MemberV| new_param_toks(r)).take(i as int)),
            toks_view(inits@) == concat_seqs(rv.map_values(|r: MemberV| init_toks(r)).take(i as int)),
        decreases n - i,
    {
        let ghost p0 = toks_view(params@);
        let mut param: Vec<Tok> = Vec::new();
        app_name(&mut param, &rs[i].field);
        app_mark(&mut param, ':');
        app_copy(&mut param, &rs[i].ty);
        assert(toks_view(param@) =~= new_param_toks(rv[i as int]));
        if i > 0 {
            push_punct(&mut params, ',', false);
        }
        extend_toks(&mut params, param);
        let mut init: Vec<Tok> = Vec::new();
        app_name(&mut init, &rs[i].field);
        app_mark(&mut init, ',');
        assert(toks_view(init@) =~= init_toks(rv[i as int]));
        extend_toks(&mut inits, init);
        proof {
            let ps = rv.map_values(|r: MemberV| new_param_toks(r));
            let is = rv.map_values(|r: MemberV| init_toks(r));
            assert(ps.take(i + 1) =~= ps.take(i as int).push(new_param_toks(rv[i as int])));
            assert(is.take(i + 1) =~= is.take(i as int).push(init_toks(rv[i as int])));
            lemma_comma_list_push(ps.take(i as int), new_param_toks(rv[i as int]));
            lemma_concat_push(is.take(i as int), init_toks(rv[i as int]));
            if i > 0 {
                assert(toks_view(params@) =~= p0 + seq![TokV::Punct(',', false)] + new_param_toks(rv[i as int]));
            } else {
                assert(toks_view(params@) =~= new_param_toks(rv[i as int]));
            }
        }
        i = i + 1;
    }
    assert(rv.map_values(|r: MemberV| new_param_toks(r)).take(n as int) =~= rv.map_values(|r: MemberV| new_param_toks(r)));
    assert(rv.map_values(|r: MemberV| init_toks(r)).take(n as int) =~= rv.map_values(|r: MemberV| init_toks(r)));
    let mut self_init = word_toks("Self");
    app_group(&mut self_init, Delim::Brace, inits);
    let mut out = word_toks("pub");
    app_word(&mut out, "fn");
    app_word(&mut out, "new");
    app_group(&mut out, Delim::Paren, params);
    push_arrow(&mut out);
    app_word(&mut out, "Self");
    app_group(&mut out, Delim::Brace, self_init);
    out
}

fn has_prop_impls_tokens(name: &String, binders: &Vec<String>, rs: &Vec<ConjunctionMember>) -> (out: Vec<Tok>)
    ensures
        toks_view(out@) == concat_seqs(
            members_view(rs@).map_values(|r: MemberV| has_prop_impl(r, name@, strings_view(binders@))),
        ),
{
    let ghost rv = members_view(rs@);
    let ghost bv = strings_view(binders@);
    let mut out: Vec<Tok> = Vec::new();
    let n = rs.len();
    let mut i: usize = 0;
    assert(rv.map_values(|r: MemberV| has_prop_impl(r, name@, bv)).take(0) =~= seq![]);
    while i < n
        invariant
            n == rs@.len(),
            rv == members_view(rs@),
            bv == strings_view(binders@),
            i <= n,
            toks_view(out@) == concat_seqs(rv.map_values(|r: MemberV| has_prop_impl(r, name@, bv)).take(i as int)),
        decreases n - i,
    {
        let ghost r = rv[i as int];
        let mut recv: Vec<Tok> = Vec::new();
        app_mark(&mut recv, '&');
        app_word(&mut recv, "self");
        assert(toks_view(recv@) =~= mark('&') + word("self"@));
        let mut get = word_toks("self");
        app_mark(&mut get, '.');
        app_name(&mut get, &rs[i].field);
        let mut body = word_toks("fn");
        app_word(&mut body, "prop");
        app_group(&mut body, Delim::Paren, recv);
        push_arrow(&mut body);
        app_copy(&mut body, &rs[i].ty);
        app_group(&mut body, Delim::Brace, get);
        let mut item = word_toks("impl");
        extend_toks(&mut item, emit_const_params(binders));
        push_rprop_path(&mut item, "HasProp");
        app_mark(&mut item, '<');
        app_copy(&mut item, &rs[i].ty);
        app_mark(&mut item, '>');
        app_word(&mut item, "for");
        push_self_ty(&mut item, name, binders);
        app_group(&mut item, Delim::Brace, body);
        extend_toks(&mut out, item);
        proof {
            let items = rv.map_values(|r: MemberV| has_prop_impl(r, name@, bv));
            assert(items.take(i + 1) =~= items.take(i as int).push(has_prop_impl(r, name@, bv)));
            lemma_concat_push(items.take(i as int), has_prop_impl(r, name@, bv));
        }
        i = i + 1;
    }
    assert(rv.map_values(|r: MemberV| has_prop_impl(r, name@, bv)).take(n as int) =~= rv.map_values(|r: MemberV| has_prop_impl(r, name@, bv)));
    out
}

/// The items of a conjunction of the given members: refused without members, or when
/// two members have the same key or the same field.
pub fn emit_conjunction(attrs: &Vec<Tok>, name: &String, members: &Vec<&NamedExpr>, ctx: &GenericContext) -> (r: Result<Vec<Tok>, MacroError>)
    ensures
        match r {
            Ok(v) => emit_conjunction_spec(toks_view(attrs@), name@, refs_view(members@), strings_view(ctx.binders@))
                == Ok::<Seq<TokV>, ErrV>(toks_view(v@)),
            Err(e) => emit_conjunction_spec(toks_view(attrs@), name@, refs_view(members@), strings_view(ctx.binders@))
                == Err::<Seq<TokV>, ErrV>(e@),
        },
{
    if members.len() == 0 {
        return Err(MacroError::EmptyConjunction(name.clone()));
    }
    let resolved = match resolve_conjunction_members(members) {
        Ok(v) => v,
        Err(e) => return Err(e),
    };
    let binders = &ctx.binders;
    let mut out = copy_toks(attrs);
    push_derive_clone_copy(&mut out);
    app_word(&mut out, "pub");
    app_word(&mut out, "struct");
    app_name(&mut out, name);
    extend_toks(&mut out, emit_const_params(binders));
    app_group(&mut out, Delim::Brace, struct_fields_tokens(&resolved));
    push_marker_impl(&mut out, "Prop", name, binders);
    push_marker_impl(&mut out, "Conjunction", name, binders);
    app_word(&mut out, "impl");
    extend_toks(&mut out, emit_const_params(binders));
    push_self_ty(&mut out, name, binders);
    app_group(&mut out, Delim::Brace, new_fn_tokens(&resolved));
    extend_toks(&mut out, has_prop_impls_tokens(name, binders, &resolved));
    Ok(out)
}

/// A conjunction that resolves has one member per listed part, in order, each in the
/// field and under the type that the part gives; no two members share a key or a field.
pub proof fn law_resolved_members_distinct(ms: Seq<NamedV>)
    requires
        resolve_spec(ms) is Ok,
    ensures
        resolve_spec(ms)->Ok_0.len() == ms.len(),
        forall|i: int| 0 <= i < ms.len() ==> #[trigger] resolve_spec(ms)->Ok_0[i] == member_of(ms[i]),
        forall|i: int, j: int|
            0 <= i < j < ms.len() ==> member_key(#[trigger] ms[i]) != member_key(#[trigger] ms[j])
                && member_field_spec(ms[i]) != member_field_spec(ms[j]),
    decreases ms.len(),
{
    if ms.len() > 0 {
        let prefix = ms.drop_last();
        let m = ms.last();
        law_resolved_members_distinct(prefix);
        lemma_first_index(keys_of(prefix), member_key(m));
        lemma_first_index(fields_of(prefix), member_field_spec(m));
        let rs = resolve_spec(prefix)->Ok_0;
        assert(resolve_spec(ms)->Ok_0 == rs.push(member_of(m)));
        assert forall|i: int, j: int| 0 <= i < j < ms.len() implies member_key(#[trigger] ms[i]) != member_key(
            #[trigger] ms[j],
        ) && member_field_spec(ms[i]) != member_field_spec(ms[j]) by {
            if j == ms.len() - 1 {
                assert(keys_of(prefix)[i] == member_key(prefix[i]));
                assert(fields_of(prefix)[i] == member_field_spec(prefix[i]));
                assert(prefix[i] == ms[i]);
            } else {
                assert(prefix[i] == ms[i] && prefix[j] == ms[j]);
            }
        }
        assert forall|i: int| 0 <= i < ms.len() implies #[trigger] resolve_spec(ms)->Ok_0[i] == member_of(ms[i]) by {
            if i < ms.len() - 1 {
                assert(prefix[i] == ms[i]);
            }
        }
    }
}

} // verus!

verus! {

/// The impl through which a conjunction gives out one of its members:
/// `impl<params> ::rprop::HasProp<Type> for Name<args> { fn prop(&self) -> Type { self.field } }`.
pub open spec fn has_prop_item(ty: Seq<TokV>, field: Seq<char>, name: Seq<char>, binders: Seq<Seq<char>>) -> Seq<TokV> {
    seq![TokV::Ident("impl"@)] + const_params_spec(binders) + seq![
        TokV::Punct(':', true),
        TokV::Punct(':', false),
        TokV::Ident("rprop"@),
        TokV::Punct(':', true),
        TokV::Punct(':', false),
        TokV::Ident("HasProp"@),
        TokV::Punct('<', false),
    ] + ty + seq![TokV::Punct('>', false), TokV::Ident("for"@), TokV::Ident(name)] + const_args_spec(binders) + seq![
        TokV::Group(
            Delim::Brace,
            seq![
                TokV::Ident("fn"@),
                TokV::Ident("prop"@),
                TokV::Group(Delim::Paren, seq![TokV::Punct('&', false), TokV::Ident("self"@)]),
                TokV::Punct('-', true),
                TokV::Punct('>', false),
            ] + ty + seq![
                TokV::Group(Delim::Brace, seq![TokV::Ident("self"@), TokV::Punct('.', false), TokV::Ident(field)]),
            ],
        ),
    ]
}

/// Resolving members that are accepted gives each member, in order, as its type and field.
pub proof fn lemma_resolve_members(ms: Seq<NamedV>)
    ensures
        resolve_spec(ms) matches Ok(rs) ==> rs == ms.map_values(|m: NamedV| member_of(m)),
    decreases ms.len(),
{
    if ms.len() > 0 {
        lemma_resolve_members(ms.drop_last());
        if let Ok(rs) = resolve_spec(ms) {
            assert(ms.map_values(|m: NamedV| member_of(m)) =~= ms.drop_last().map_values(|m: NamedV| member_of(m)).push(
                member_of(ms.last()),
            ));
        }
    }
}

proof fn lemma_has_prop_impl_is_item(r: MemberV, name: Seq<char>, binders: Seq<Seq<char>>)
    ensures
        has_prop_impl(r, name, binders) == has_prop_item(r.ty, r.field, name, binders),
{
    let get = word("self"@) + mark('.') + word(r.field);
    assert(get =~= seq![TokV::Ident("self"@), TokV::Punct('.', false), TokV::Ident(r.field)]);
    let recv = mark('&') + word("self"@);
    assert(recv =~= seq![TokV::Punct('&', false), TokV::Ident("self"@)]);
    assert(prop_fn_toks(r) =~= seq![
        TokV::Ident("fn"@),
        TokV::Ident("prop"@),
        TokV::Group(Delim::Paren, seq![TokV::Punct('&', false), TokV::Ident("self"@)]),
        TokV::Punct('-', true),
        TokV::Punct('>', false),
    ] + r.ty + seq![TokV::Group(Delim::Brace, seq![TokV::Ident("self"@), TokV::Punct('.', false), TokV::Ident(r.field)])]);
    assert(has_prop_impl(r, name, binders) =~= has_prop_item(r.ty, r.field, name, binders));
}

/// Every member of an accepted conjunction, whatever their number, can be taken out of
/// it: the items hold one `HasProp` impl per member, of the member's type and returning
/// the member's field, in the members' order.
pub proof fn law_conjunction_has_prop_every_member(attrs: Seq<TokV>, name: Seq<char>, ms: Seq<NamedV>, binders: Seq<Seq<char>>)
    ensures
        emit_conjunction_spec(attrs, name, ms, binders) matches Ok(out) ==> in_order(
            out,
            ms.map_values(|m: NamedV| has_prop_item(reference_spec(m), member_field_spec(m), name, binders)),
        ),
{
    if let Ok(out) = emit_conjunction_spec(attrs, name, ms, binders) {
        let rs = resolve_spec(ms)->Ok_0;
        lemma_resolve_members(ms);
        let parts = rs.map_values(|r: MemberV| has_prop_impl(r, name, binders));
        let pre = attrs + derive_clone_copy() + word("pub"@) + word("struct"@) + word(name) + const_params_spec(binders) + group(
            Delim::Brace,
            concat_seqs(rs.map_values(|r: MemberV| struct_field_toks(r))),
        ) + marker_impl("Prop"@, name, binders) + marker_impl("Conjunction"@, name, binders) + word("impl"@)
            + const_params_spec(binders) + self_ty(name, binders) + group(Delim::Brace, new_fn_toks(rs));
        lemma_concat_in_order(pre, parts, seq![]);
        assert(out =~= pre + concat_seqs(parts) + seq![]);
        assert forall|i: int| 0 <= i < ms.len() implies #[trigger] parts[i] == has_prop_item(
            reference_spec(ms[i]),
            member_field_spec(ms[i]),
            name,
            binders,
        ) by {
            lemma_has_prop_impl_is_item(rs[i], name, binders);
        }
        assert(parts =~= ms.map_values(|m: NamedV| has_prop_item(reference_spec(m), member_field_spec(m), name, binders)));
    }
}

} // verus!

verus! {

/// `struct Name<params> { pub field: Type, ... }`, one field per member, in order.
pub open spec fn struct_of_members(name: Seq<char>, binders: Seq<Seq<char>>, ms: Seq<NamedV>) -> Seq<TokV> {
    seq![TokV::Ident("struct"@), TokV::Ident(name)] + const_params_spec(binders) + seq![
        TokV::Group(
            Delim::Brace,
            concat_seqs(
                ms.map_values(
                    |m: NamedV|
                        seq![TokV::Ident("pub"@), TokV::Ident(member_field_spec(m)), TokV::Punct(':', false)]
                            + reference_spec(m) + seq![TokV::Punct(',', false)],
                ),
            ),
        ),
    ]
}

/// `pub fn new(field: Type, ...) -> Self { Self { field, ... } }`, one parameter and one
/// field per member, in order.
pub open spec fn new_of_members(ms: Seq<NamedV>) -> Seq<TokV> {
    seq![
        TokV::Ident("pub"@),
        TokV::Ident("fn"@),
        TokV::Ident("new"@),
        TokV::Group(
            Delim::Paren,
            comma_list(
                ms.map_values(|m: NamedV| seq![TokV::Ident(member_field_spec(m)), TokV::Punct(':', false)] + reference_spec(m)),
            ),
        ),
        TokV::Punct('-', true),
        TokV::Punct('>', false),
        TokV::Ident("Self"@),
        TokV::Group(
            Delim::Brace,
            seq![
                TokV::Ident("Self"@),
                TokV::Group(
                    Delim::Brace,
                    concat_seqs(ms.map_values(|m: NamedV| seq![TokV::Ident(member_field_spec(m)), TokV::Punct(',', false)])),
                ),
            ],
        ),
    ]
}

proof fn lemma_members_struct_and_new(ms: Seq<NamedV>, rs: Seq<MemberV>)
    requires
        rs == ms.map_values(|m: NamedV| member_of(m)),
    ensures
        rs.map_values(|r: MemberV| struct_field_toks(r)) == ms.map_values(
            |m: NamedV|
                seq![TokV::Ident("pub"@), TokV::Ident(member_field_spec(m)), TokV::Punct(':', false)] + reference_spec(m)
                    + seq![TokV::Punct(',', false)],
        ),
        new_fn_toks(rs) == new_of_members(ms),
{
    assert forall|i: int| 0 <= i < ms.len() implies #[trigger] struct_field_toks(rs[i]) == seq![
        TokV::Ident("pub"@),
        TokV::Ident(member_field_spec(ms[i])),
        TokV::Punct(':', false),
    ] + reference_spec(ms[i]) + seq![TokV::Punct(',', false)] by {
        assert(struct_field_toks(rs[i]) =~= seq![
            TokV::Ident("pub"@),
            TokV::Ident(member_field_spec(ms[i])),
            TokV::Punct(':', false),
        ] + reference_spec(ms[i]) + seq![TokV::Punct(',', false)]);
    }
    assert forall|i: int| 0 <= i < ms.len() implies #[trigger] new_param_toks(rs[i]) == seq![
        TokV::Ident(member_field_spec(ms[i])),
        TokV::Punct(':', false),
    ] + reference_spec(ms[i]) by {
        assert(new_param_toks(rs[i]) =~= seq![TokV::Ident(member_field_spec(ms[i])), TokV::Punct(':', false)] + reference_spec(ms[i]));
    }
    assert forall|i: int| 0 <= i < ms.len() implies #[trigger] init_toks(rs[i]) == seq![
        TokV::Ident(member_field_spec(ms[i])),
        TokV::Punct(',', false),
    ] by {
        assert(init_toks(rs[i]) =~= seq![TokV::Ident(member_field_spec(ms[i])), TokV::Punct(',', false)]);
    }
    assert(rs.map_values(|r: MemberV| struct_field_toks(r)) =~= ms.map_values(
        |m: NamedV|
            seq![TokV::Ident("pub"@), TokV::Ident(member_field_spec(m)), TokV::Punct(':', false)] + reference_spec(m)
                + seq![TokV::Punct(',', false)],
    ));
    assert(rs.map_values(|r: MemberV| new_param_toks(r)) =~= ms.map_values(
        |m: NamedV| seq![TokV::Ident(member_field_spec(m)), TokV::Punct(':', false)] + reference_spec(m),
    ));
    assert(rs.map_values(|r: MemberV| init_toks(r)) =~= ms.map_values(
        |m: NamedV| seq![TokV::Ident(member_field_spec(m)), TokV::Punct(',', false)],
    ));
    let inits = concat_seqs(ms.map_values(|m: NamedV| seq![TokV::Ident(member_field_spec(m)), TokV::Punct(',', false)]));
    assert(word("Self"@) + group(Delim::Brace, concat_seqs(rs.map_values(|r: MemberV| init_toks(r)))) =~= seq![
        TokV::Ident("Self"@),
        TokV::Group(Delim::Brace, inits),
    ]);
    assert(new_fn_toks(rs) =~= new_of_members(ms));
}

/// The struct of an accepted conjunction has one public field per member, whatever their
/// number, of the member's type and in order; and, after it, its impl holds the
/// constructor that takes every member.
pub proof fn law_conjunction_struct_holds_every_member(attrs: Seq<TokV>, name: Seq<char>, ms: Seq<NamedV>, binders: Seq<Seq<char>>)
    ensures
        emit_conjunction_spec(attrs, name, ms, binders) matches Ok(out) ==> in_order(
            out,
            seq![struct_of_members(name, binders, ms), seq![TokV::Group(Delim::Brace, new_of_members(ms))]],
        ),
{
    if let Ok(out) = emit_conjunction_spec(attrs, name, ms, binders) {
        let rs = resolve_spec(ms)->Ok_0;
        lemma_resolve_members(ms);
        lemma_members_struct_and_new(ms, rs);
        let s = struct_of_members(name, binders, ms);
        let g = seq![TokV::Group(Delim::Brace, new_of_members(ms))];
        let a = attrs + derive_clone_copy() + word("pub"@);
        let b = marker_impl("Prop"@, name, binders) + marker_impl("Conjunction"@, name, binders) + word("impl"@)
            + const_params_spec(binders) + self_ty(name, binders);
        let d = concat_seqs(rs.map_values(|r: MemberV| has_prop_impl(r, name, binders)));
        assert(out =~= a + s + b + g + d);
        let k1 = a.len() as int;
        let k2 = (a.len() + s.len() + b.len()) as int;
        assert(out.subrange(k1, k1 + s.len()) =~= s);
        assert(out.subrange(k2, k2 + 1) =~= g);
        lemma_two_in_order(out, s, g, k1, k2);
    }
}

} // verus!
