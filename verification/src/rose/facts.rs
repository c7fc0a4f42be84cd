use vstd::prelude::*;
use crate::case::{snake_case, to_snake_case};
use crate::text::str_eq;
use crate::error::{MacroError, ErrV};
use crate::search::{first_index, lemma_first_index, position_of};
use crate::lexer::{lex, lex_spec};
use crate::tokens::{
    Delim, Tok, TokV, toks_view, render, copy_range, lemma_toks_view_len, extend_toks, word, mark,
    group, word_toks, app_word, app_name, app_mark, app_group};
use crate::derive::ast::strings_view;
use crate::derive::parse::{sp_attrs, ident_at, name_at, punct_at, ident_at_exec, name_at_exec, punct_at_exec, parse_attrs, syntax};
use crate::derive::emit::common::{
    arrow, derive_clone_copy, framework_path, concat_seqs, lemma_concat_push, push_arrow, push_derive_clone_copy,
    in_order, lemma_concat_in_order, lemma_two_in_order,
    push_framework_path};
use crate::derive::api::answers;

verus! {

/// One entry of a fact set: a fact held in the field its name gives, or in a field named
/// with `as`.
#[derive(Clone, Debug)]
pub enum FactEntry {
    Plain(String),
    Aliased { fact: String, field: String },
}

pub enum EntryV {
    Plain(Seq<char>),
    Aliased { fact: Seq<char>, field: Seq<char> },
}

impl View for FactEntry {
    type V = EntryV;

    open spec fn view(&self) -> EntryV {
        match self {
            FactEntry::Plain(f) => EntryV::Plain(f@),
            FactEntry::Aliased { fact, field } => EntryV::Aliased { fact: fact@, field: field@ },
        }
    }
}

pub open spec fn entries_view(v: Seq<FactEntry>) -> Seq<EntryV> {
    v.map_values(|e: FactEntry| e@)
}

/// The input of `define_fact_set!`: attributes, the set's name, a comma, and the facts in
/// brackets (`Fact` or `Fact as field`, commas between them optional).
#[derive(Debug)]
pub struct FactSetInput {
    pub attrs: Vec<Tok>,
    pub name: String,
    pub facts: Vec<FactEntry>,
}

pub struct FactSetV {
    pub attrs: Seq<TokV>,
    pub name: Seq<char>,
    pub facts: Seq<EntryV>,
}

impl View for FactSetInput {
    type V = FactSetV;

    open spec fn view(&self) -> FactSetV {
        FactSetV { attrs: toks_view(self.attrs@), name: self.name@, facts: entries_view(self.facts@) }
    }
}

/// The entries from `p` to the end of a bracketed list.
pub open spec fn sp_fact_list(ts: Seq<TokV>, p: int) -> Option<Seq<EntryV>>
    decreases ts.len() - p,
{
    if p < 0 || p > ts.len() {
        None
    } else if p == ts.len() {
        Some(seq![])
    } else {
        match name_at(ts, p) {
            None => None,
            Some(fact) => {
                let aliased = ident_at(ts, p + 1) == Some("as"@);
                let entry_end = if aliased {
                    p + 3
                } else {
                    p + 1
                };
                let entry = if aliased {
                    match name_at(ts, p + 2) {
                        Some(field) => Some(EntryV::Aliased { fact, field }),
                        None => None,
                    }
                } else {
                    Some(EntryV::Plain(fact))
                };
                let q = if punct_at(ts, entry_end, ',') {
                    entry_end + 1
                } else {
                    entry_end
                };
                match entry {
                    None => None,
                    Some(e) => match sp_fact_list(ts, q) {
                        Some(rest) => Some(seq![e] + rest),
                        None => None,
                    },
                }
            },
        }
    }
}

/// The index of each entry's fact among the tokens, from `p` on, as `sp_fact_list` reads
/// the entries.
pub open spec fn fact_sites(ts: Seq<TokV>, p: int) -> Seq<int>
    decreases ts.len() - p,
{
    if p < 0 || p >= ts.len() {
        seq![]
    } else {
        match name_at(ts, p) {
            None => seq![],
            Some(_) => {
                let entry_end = if ident_at(ts, p + 1) == Some("as"@) {
                    p + 3
                } else {
                    p + 1
                };
                let q = if punct_at(ts, entry_end, ',') {
                    entry_end + 1
                } else {
                    entry_end
                };
                if q > ts.len() {
                    seq![p]
                } else {
                    seq![p] + fact_sites(ts, q)
                }
            },
        }
    }
}

/// Where the entries are read, there is one site per entry, at a token of the list; the
/// field of an entry with `as` stands two tokens after its fact.
pub proof fn lemma_fact_sites(ts: Seq<TokV>, p: int)
    ensures
        sp_fact_list(ts, p) matches Some(es) ==> {
            &&& fact_sites(ts, p).len() == es.len()
            &&& forall|k: int| 0 <= k < es.len() ==> 0 <= #[trigger] fact_sites(ts, p)[k] < ts.len()
                && (es[k] is Aliased ==> fact_sites(ts, p)[k] + 2 < ts.len())
        },
    decreases ts.len() - p,
{
    if 0 <= p < ts.len() {
        if let Some(_) = name_at(ts, p) {
            let entry_end = if ident_at(ts, p + 1) == Some("as"@) {
                p + 3
            } else {
                p + 1
            };
            let q = if punct_at(ts, entry_end, ',') {
                entry_end + 1
            } else {
                entry_end
            };
            if q <= ts.len() {
                lemma_fact_sites(ts, q);
            }
            if let Some(es) = sp_fact_list(ts, p) {
                let rest = sp_fact_list(ts, q)->Some_0;
                let fs = fact_sites(ts, p);
                assert(es == seq![es[0]] + rest);
                assert(fs == seq![p] + fact_sites(ts, q));
                assert forall|k: int| 0 <= k < es.len() implies 0 <= #[trigger] fs[k] < ts.len()
                    && (es[k] is Aliased ==> fs[k] + 2 < ts.len()) by {
                    if k > 0 {
                        assert(fs[k] == fact_sites(ts, q)[k - 1]);
                        assert(es[k] == rest[k - 1]);
                    }
                }
            }
        }
    }
}

/// The index of each entry's fact among the tokens of a fact list.
pub(crate) fn entry_sites(ts: &Vec<Tok>) -> (r: Vec<usize>)
    ensures
        r@.map_values(|x: usize| x as int) == fact_sites(toks_view(ts@), 0),
{
    let ghost tv = toks_view(ts@);
    proof {
        lemma_toks_view_len(ts@);
    }
    let n = ts.len();
    let mut out: Vec<usize> = Vec::new();
    let mut p: usize = 0;
    assert(out@.map_values(|x: usize| x as int) =~= seq![]);
    while p < n
        invariant
            n == ts@.len(),
            tv == toks_view(ts@),
            tv.len() == n,
            p <= n,
            fact_sites(tv, 0) == out@.map_values(|x: usize| x as int) + fact_sites(tv, p as int),
        decreases n - p,
    {
        if name_at_exec(ts, p).is_none() {
            assert(fact_sites(tv, p as int) == Seq::<int>::empty());
            assert(out@.map_values(|x: usize| x as int) + Seq::<int>::empty() =~= out@.map_values(|x: usize| x as int));
            return out;
        }
        let aliased = match ident_at_exec(ts, p + 1) {
            Some(w) => str_eq(w.as_str(), "as"),
            None => false,
        };
        let ghost before = out@.map_values(|x: usize| x as int);
        out.push(p);
        assert(out@.map_values(|x: usize| x as int) =~= before.push(p as int));
        if aliased && n - p < 3 {
            return out;
        }
        let entry_end = if aliased { p + 3 } else { p + 1 };
        let q = if punct_at_exec(ts, entry_end, ',') { entry_end + 1 } else { entry_end };
        assert(before + (seq![p as int] + fact_sites(tv, q as int)) =~= before.push(p as int) + fact_sites(tv, q as int));
        p = q;
    }
    assert(fact_sites(tv, p as int) == Seq::<int>::empty());
    assert(out@.map_values(|x: usize| x as int) + Seq::<int>::empty() =~= out@.map_values(|x: usize| x as int));
    out
}

/// The reading of the whole input of `define_fact_set!`.
pub open spec fn sp_fact_set(ts: Seq<TokV>) -> Option<FactSetV> {
    match sp_attrs(ts, 0) {
        None => None,
        Some(a) => match name_at(ts, a) {
            None => None,
            Some(name) => if punct_at(ts, a + 1, ',') && a + 3 == ts.len() && ts[a + 2] is Group
                && ts[a + 2]->Group_0 == Delim::Bracket {
                match sp_fact_list(ts[a + 2]->Group_1, 0) {
                    Some(fs) => Some(FactSetV { attrs: ts.take(a), name, facts: fs }),
                    None => None,
                }
            } else {
                None
            },
        },
    }
}

fn parse_fact_list(ts: &Vec<Tok>) -> (r: Result<Vec<FactEntry>, MacroError>)
    ensures
        r matches Ok(v) ==> sp_fact_list(toks_view(ts@), 0) == Some(entries_view(v@)),
        r is Err ==> sp_fact_list(toks_view(ts@), 0) is None && r->Err_0 is Syntax,
{
    let ghost tv = toks_view(ts@);
    proof {
        lemma_toks_view_len(ts@);
    }
    let n = ts.len();
    let mut facts: Vec<FactEntry> = Vec::new();
    let mut p: usize = 0;
    assert(entries_view(facts@) =~= seq![]);
    while p < n
        invariant
            n == ts@.len(),
            tv == toks_view(ts@),
            tv.len() == n,
            p <= n,
            sp_fact_list(tv, 0) == match sp_fact_list(tv, p as int) {
                Some(rest) => Some(entries_view(facts@) + rest),
                None => None::<Seq<EntryV>>,
            },
        decreases n - p,
    {
        let fact = match name_at_exec(ts, p) {
            Some(x) => x,
            None => return Err(syntax("expected the name of a fact")),
        };
        let aliased = match ident_at_exec(ts, p + 1) {
            Some(w) => str_eq(w.as_str(), "as"),
            None => false,
        };
        let (entry, entry_end) = if aliased {
            match name_at_exec(ts, p + 2) {
                Some(field) => (FactEntry::Aliased { fact, field }, p + 3),
                None => return Err(syntax("expected a field name after `as`")),
            }
        } else {
            (FactEntry::Plain(fact), p + 1)
        };
        let q = if punct_at_exec(ts, entry_end, ',') {
            entry_end + 1
        } else {
            entry_end
        };
        let ghost before = entries_view(facts@);
        let ghost ev = entry@;
        facts.push(entry);
        proof {
            assert(entries_view(facts@) =~= before.push(ev));
            match sp_fact_list(tv, q as int) {
                Some(rest) => {
                    assert(before + (seq![ev] + rest) =~= entries_view(facts@) + rest);
                },
                None => {},
            }
        }
        p = q;
    }
    assert(entries_view(facts@) + seq![] =~= entries_view(facts@));
    Ok(facts)
}

impl FactSetInput {
    /// Reads the input of `define_fact_set!` from its text.
    pub fn parse(text: &str) -> (r: Result<FactSetInput, MacroError>)
        ensures
            r matches Ok(l) ==> lex_spec(text@) matches Some(ts) && sp_fact_set(ts) == Some(l@),
            r matches Err(e) ==> (e is Lex <==> lex_spec(text@) is None),
            r matches Err(e) ==> (e is Syntax <==> (lex_spec(text@) matches Some(ts) && sp_fact_set(ts) is None)),
            r is Err ==> (r->Err_0 is Lex || r->Err_0 is Syntax),
    {
        let ts = match lex(text) {
            Some(ts) => ts,
            None => return Err(MacroError::Lex),
        };
        let ghost tv = toks_view(ts@);
        proof {
            lemma_toks_view_len(ts@);
        }
        let a = match parse_attrs(&ts, 0) {
            Ok(a) => a,
            Err(e) => return Err(e),
        };
        let name = match name_at_exec(&ts, a) {
            Some(name) => name,
            None => return Err(syntax("expected a name")),
        };
        if !punct_at_exec(&ts, a + 1, ',') {
            return Err(syntax("expected `,`"));
        }
        if ts.len() - a != 3 {
            return Err(syntax("expected one bracketed list of facts"));
        }
        let facts = match &ts[a + 2] {
            Tok::Group(Delim::Bracket, inner) => match parse_fact_list(inner) {
                Ok(v) => v,
                Err(e) => return Err(e),
            },
            _ => return Err(syntax("expected one bracketed list of facts")),
        };
        let attrs = copy_range(&ts, 0, a);
        Ok(FactSetInput { attrs, name, facts })
    }
}

/// A fact with the field that holds it.
#[derive(Clone, Debug)]
pub struct ResolvedFact {
    pub fact: String,
    pub field: String,
}

pub struct ResolvedV {
    pub fact: Seq<char>,
    pub field: Seq<char>,
}

impl View for ResolvedFact {
    type V = ResolvedV;

    open spec fn view(&self) -> ResolvedV {
        ResolvedV { fact: self.fact@, field: self.field@ }
    }
}

pub open spec fn resolved_view(v: Seq<ResolvedFact>) -> Seq<ResolvedV> {
    v.map_values(|r: ResolvedFact| r@)
}

/// The field of an entry: the fact's name in snake case, or the name given with `as`.
pub open spec fn entry_resolved(e: EntryV) -> ResolvedV {
    match e {
        EntryV::Plain(f) => ResolvedV { fact: f, field: snake_case(f) },
        EntryV::Aliased { fact, field } => ResolvedV { fact, field },
    }
}

pub open spec fn entry_facts(es: Seq<EntryV>) -> Seq<Seq<char>> {
    es.map_values(|e: EntryV| entry_resolved(e).fact)
}

pub open spec fn entry_fields(es: Seq<EntryV>) -> Seq<Seq<char>> {
    es.map_values(|e: EntryV| entry_resolved(e).field)
}

/// The facts with their fields, in order, or the first refusal: a fact listed before, or
/// else a field that an earlier fact already uses (naming that fact).
pub open spec fn resolve_facts_spec(es: Seq<EntryV>) -> Result<Seq<ResolvedV>, ErrV>
    decreases es.len(),
{
    if es.len() == 0 {
        Ok(seq![])
    } else {
        let prefix = es.drop_last();
        let r = entry_resolved(es.last());
        match resolve_facts_spec(prefix) {
            Err(e) => Err(e),
            Ok(rs) => match first_index(entry_facts(prefix), r.fact) {
                Some(j) => Err(ErrV::DuplicateFact { fact: r.fact, other: entry_facts(prefix)[j] }),
                None => match first_index(entry_fields(prefix), r.field) {
                    Some(j) => Err(ErrV::FactFieldClash { fact: r.fact, field: r.field, other: entry_facts(prefix)[j] }),
                    None => Ok(rs.push(r)),
                },
            },
        }
    }
}

/// A refusal on a prefix of the entries is the refusal of all of them.
pub proof fn lemma_resolve_facts_err_prefix(es: Seq<EntryV>, k: int)
    requires
        0 <= k <= es.len(),
        resolve_facts_spec(es.take(k)) is Err,
    ensures
        resolve_facts_spec(es) == resolve_facts_spec(es.take(k)),
    decreases es.len(),
{
    if k == es.len() {
        assert(es.take(k) =~= es);
    } else {
        assert(es.drop_last().take(k) =~= es.take(k));
        lemma_resolve_facts_err_prefix(es.drop_last(), k);
    }
}


/// The index of the entry at which resolving the facts is refused: the last entry of the
/// shortest refused prefix.
pub open spec fn first_refused(es: Seq<EntryV>) -> int
    decreases es.len(),
{
    if es.len() == 0 {
        0
    } else if resolve_facts_spec(es.drop_last()) is Err {
        first_refused(es.drop_last())
    } else {
        es.len() - 1
    }
}

proof fn lemma_first_refused_at(es: Seq<EntryV>, i: int)
    requires
        0 <= i < es.len(),
        resolve_facts_spec(es.take(i)) is Ok,
        resolve_facts_spec(es.take(i + 1)) is Err,
    ensures
        first_refused(es) == i,
    decreases es.len(),
{
    if i + 1 == es.len() {
        assert(es.drop_last() =~= es.take(i));
    } else {
        let d = es.drop_last();
        assert(d.take(i) =~= es.take(i));
        assert(d.take(i + 1) =~= es.take(i + 1));
        lemma_first_refused_at(d, i);
        lemma_resolve_facts_err_prefix(d, i + 1);
    }
}

/// The facts of a set with their fields, or the first fact listed twice or whose field is
/// taken.
pub fn resolve_facts(facts: Vec<FactEntry>) -> (r: Result<Vec<ResolvedFact>, MacroError>)
    ensures
        match r {
            Ok(v) => resolve_facts_spec(entries_view(facts@)) == Ok::<Seq<ResolvedV>, ErrV>(resolved_view(v@)),
            Err(e) => resolve_facts_spec(entries_view(facts@)) == Err::<Seq<ResolvedV>, ErrV>(e@),
        },
{
    resolve_entries(&facts).0
}

/// Resolves the entries, and gives the index of the entry at which it stopped.
pub(crate) fn resolve_entries(facts: &Vec<FactEntry>) -> (r: (Result<Vec<ResolvedFact>, MacroError>, usize))
    ensures
        match r.0 {
            Ok(v) => resolve_facts_spec(entries_view(facts@)) == Ok::<Seq<ResolvedV>, ErrV>(resolved_view(v@)),
            Err(e) => resolve_facts_spec(entries_view(facts@)) == Err::<Seq<ResolvedV>, ErrV>(e@),
        },
        r.0 is Err ==> r.1 < facts@.len() && r.1 == first_refused(entries_view(facts@)),
{
    let ghost es = entries_view(facts@);
    let mut resolved: Vec<ResolvedFact> = Vec::new();
    let mut seen_facts: Vec<String> = Vec::new();
    let mut seen_fields: Vec<String> = Vec::new();
    let n = facts.len();
    let mut i: usize = 0;
    assert(es.take(0) =~= seq![]);
    assert(resolved_view(resolved@) =~= seq![]);
    assert(strings_view(seen_facts@) =~= entry_facts(es.take(0)));
    assert(strings_view(seen_fields@) =~= entry_fields(es.take(0)));
    while i < n
        invariant
            n == facts@.len(),
            es == entries_view(facts@),
            i <= n,
            resolve_facts_spec(es.take(i as int)) == Ok::<Seq<ResolvedV>, ErrV>(resolved_view(resolved@)),
            strings_view(seen_facts@) == entry_facts(es.take(i as int)),
            strings_view(seen_fields@) == entry_fields(es.take(i as int)),
        decreases n - i,
    {
        let ghost prefix = es.take(i as int);
        assert(es.take(i + 1).drop_last() =~= prefix);
        assert(es.take(i + 1).last() == facts@[i as int]@);
        let (fact, field) = match &facts[i] {
            FactEntry::Plain(f) => (f.clone(), to_snake_case(f.as_str())),
            FactEntry::Aliased { fact, field } => (fact.clone(), field.clone()),
        };
        let ghost r = entry_resolved(es[i as int]);
        assert(fact@ == r.fact && field@ == r.field);
        proof {
            lemma_first_index(entry_facts(prefix), r.fact);
            lemma_first_index(entry_fields(prefix), r.field);
        }
        match position_of(&seen_facts, &fact) {
            Some(j) => {
                let other = seen_facts[j].clone();
                proof {
                    lemma_resolve_facts_err_prefix(es, i + 1);
                    lemma_first_refused_at(es, i as int);
                }
                return (Err(MacroError::DuplicateFact { fact, other }), i);
            },
            None => {},
        }
        match position_of(&seen_fields, &field) {
            Some(j) => {
                let other = seen_facts[j].clone();
                proof {
                    lemma_resolve_facts_err_prefix(es, i + 1);
                    lemma_first_refused_at(es, i as int);
                }
                return (Err(MacroError::FactFieldClash { fact, field, other }), i);
            },
            None => {},
        }
        let ghost f0 = strings_view(seen_facts@);
        let ghost d0 = strings_view(seen_fields@);
        let ghost v0 = resolved_view(resolved@);
        seen_facts.push(fact.clone());
        seen_fields.push(field.clone());
        resolved.push(ResolvedFact { fact, field });
        assert(entry_facts(es.take(i + 1)) =~= entry_facts(prefix).push(r.fact));
        assert(entry_fields(es.take(i + 1)) =~= entry_fields(prefix).push(r.field));
        assert(strings_view(seen_facts@) =~= f0.push(r.fact));
        assert(strings_view(seen_fields@) =~= d0.push(r.field));
        assert(resolved_view(resolved@) =~= v0.push(r));
        i = i + 1;
    }
    assert(es.take(n as int) =~= es);
    (Ok(resolved), n)
}

/// `pub field: Fact,` in the struct.
pub open spec fn fact_field_toks(r: ResolvedV) -> Seq<TokV> {
    word("pub"@) + word(r.field) + mark(':') + word(r.fact) + mark(',')
}

/// `field: Fact,` among the parameters of `new`.
pub open spec fn fact_param_toks(r: ResolvedV) -> Seq<TokV> {
    word(r.field) + mark(':') + word(r.fact) + mark(',')
}

/// `field,` in the struct expression of `new`.
pub open spec fn fact_init_toks(r: ResolvedV) -> Seq<TokV> {
    word(r.field) + mark(',')
}

/// `impl crate::framework::HasFact<Fact> for Name { fn fact(&self) -> Fact { self.field } }`.
pub open spec fn has_fact_impl(r: ResolvedV, name: Seq<char>) -> Seq<TokV> {
    word("impl"@) + framework_path("HasFact"@) + mark('<') + word(r.fact) + mark('>') + word("for"@) + word(name) + group(
        Delim::Brace,
        word("fn"@) + word("fact"@) + group(Delim::Paren, mark('&') + word("self"@)) + arrow() + word(r.fact) + group(
            Delim::Brace,
            word("self"@) + mark('.') + word(r.field),
        ),
    )
}

/// The items of a fact set: the attributes, a `Clone + Copy` struct with one public field
/// per fact, a constructor `new` taking the facts in order, and one `HasFact` impl per fact.
pub open spec fn fact_set_items(attrs: Seq<TokV>, name: Seq<char>, rs: Seq<ResolvedV>) -> Seq<TokV> {
    attrs + derive_clone_copy() + word("pub"@) + word("struct"@) + word(name) + group(
        Delim::Brace,
        concat_seqs(rs.map_values(|r: ResolvedV| fact_field_toks(r))),
    ) + word("impl"@) + word(name) + group(
        Delim::Brace,
        word("pub"@) + word("fn"@) + word("new"@) + group(Delim::Paren, concat_seqs(rs.map_values(|r: ResolvedV| fact_param_toks(r))))
            + arrow() + word("Self"@) + group(
            Delim::Brace,
            word("Self"@) + group(Delim::Brace, concat_seqs(rs.map_values(|r: ResolvedV| fact_init_toks(r)))),
        ),
    ) + concat_seqs(rs.map_values(|r: ResolvedV| has_fact_impl(r, name)))
}

/// What `define_fact_set!` writes for a read input: refused without facts or when
/// resolving them fails, else the items.
pub open spec fn fact_set_spec(i: FactSetV) -> Result<Seq<TokV>, ErrV> {
    if i.facts.len() == 0 {
        Err(ErrV::NoFacts(i.name))
    } else {
        match resolve_facts_spec(i.facts) {
            Err(e) => Err(e),
            Ok(rs) => Ok(fact_set_items(i.attrs, i.name, rs)),
        }
    }
}

/// The given per-fact tokens (0: struct field, 1: parameter, 2: field init, 3: impl),
/// one after the other.
pub open spec fn fact_piece(kind: u8, r: ResolvedV, name: Seq<char>) -> Seq<TokV> {
    if kind == 0 {
        fact_field_toks(r)
    } else if kind == 1 {
        fact_param_toks(r)
    } else if kind == 2 {
        fact_init_toks(r)
    } else {
        has_fact_impl(r, name)
    }
}

fn fact_pieces(rs: &Vec<ResolvedFact>, kind: u8, name: &String) -> (out: Vec<Tok>)
    requires
        kind < 4,
    ensures
        toks_view(out@) == concat_seqs(resolved_view(rs@).map_values(|r: ResolvedV| fact_piece(kind, r, name@))),
{
    let ghost rv = resolved_view(rs@);
    let mut out: Vec<Tok> = Vec::new();
    let n = rs.len();
    let mut i: usize = 0;
    assert(rv.map_values(|r: ResolvedV| fact_piece(kind, r, name@)).take(0) =~= seq![]);
    while i < n
        invariant
            n == rs@.len(),
            rv == resolved_view(rs@),
            kind < 4,
            i <= n,
            toks_view(out@) == concat_seqs(rv.map_values(|r: ResolvedV| fact_piece(kind, r, name@)).take(i as int)),
        decreases n - i,
    {
        let r = &rs[i];
        let ghost v = rv[i as int];
        assert(v == r@);
        let item = if kind == 0 {
            let mut item = word_toks("pub");
            app_name(&mut item, &r.field);
            app_mark(&mut item, ':');
            app_name(&mut item, &r.fact);
            app_mark(&mut item, ',');
            item
        } else if kind == 1 {
            let mut item: Vec<Tok> = Vec::new();
            app_name(&mut item, &r.field);
            app_mark(&mut item, ':');
            app_name(&mut item, &r.fact);
            app_mark(&mut item, ',');
            assert(toks_view(item@) =~= fact_param_toks(v));
            item
        } else if kind == 2 {
            let mut item: Vec<Tok> = Vec::new();
            app_name(&mut item, &r.field);
            app_mark(&mut item, ',');
            assert(toks_view(item@) =~= fact_init_toks(v));
            item
        } else {
            let mut recv: Vec<Tok> = Vec::new();
            app_mark(&mut recv, '&');
            app_word(&mut recv, "self");
            assert(toks_view(recv@) =~= mark('&') + word("self"@));
            let mut get = word_toks("self");
            app_mark(&mut get, '.');
            app_name(&mut get, &r.field);
            let mut body = word_toks("fn");
            app_word(&mut body, "fact");
            app_group(&mut body, Delim::Paren, recv);
            push_arrow(&mut body);
            app_name(&mut body, &r.fact);
            app_group(&mut body, Delim::Brace, get);
            let mut item = word_toks("impl");
            push_framework_path(&mut item, "HasFact");
            app_mark(&mut item, '<');
            app_name(&mut item, &r.fact);
            app_mark(&mut item, '>');
            app_word(&mut item, "for");
            app_name(&mut item, name);
            app_group(&mut item, Delim::Brace, body);
            item
        };
        assert(toks_view(item@) == fact_piece(kind, v, name@));
        extend_toks(&mut out, item);
        proof {
            let items = rv.map_values(|r: ResolvedV| fact_piece(kind, r, name@));
            assert(items.take(i + 1) =~= items.take(i as int).push(fact_piece(kind, v, name@)));
            lemma_concat_push(items.take(i as int), fact_piece(kind, v, name@));
        }
        i = i + 1;
    }
    assert(rv.map_values(|r: ResolvedV| fact_piece(kind, r, name@)).take(n as int) =~= rv.map_values(|r: ResolvedV| fact_piece(kind, r, name@)));
    out
}

/// The items of a fact set, or its refusal.
pub fn emit_fact_set(input: FactSetInput) -> (r: Result<Vec<Tok>, MacroError>)
    ensures
        match r {
            Ok(v) => fact_set_spec(input@) == Ok::<Seq<TokV>, ErrV>(toks_view(v@)),
            Err(e) => fact_set_spec(input@) == Err::<Seq<TokV>, ErrV>(e@),
        },
{
    let ghost iv = input@;
    if input.facts.len() == 0 {
        return Err(MacroError::NoFacts(input.name));
    }
    let name = input.name;
    let attrs = input.attrs;
    let resolved = match resolve_facts(input.facts) {
        Ok(v) => v,
        Err(e) => return Err(e),
    };
    let ghost rv = resolved_view(resolved@);
    let fields = fact_pieces(&resolved, 0, &name);
    let params = fact_pieces(&resolved, 1, &name);
    let inits = fact_pieces(&resolved, 2, &name);
    let impls = fact_pieces(&resolved, 3, &name);
    assert(rv.map_values(|r: ResolvedV| fact_piece(0, r, name@)) =~= rv.map_values(|r: ResolvedV| fact_field_toks(r)));
    assert(rv.map_values(|r: ResolvedV| fact_piece(1, r, name@)) =~= rv.map_values(|r: ResolvedV| fact_param_toks(r)));
    assert(rv.map_values(|r: ResolvedV| fact_piece(2, r, name@)) =~= rv.map_values(|r: ResolvedV| fact_init_toks(r)));
    assert(rv.map_values(|r: ResolvedV| fact_piece(3, r, name@)) =~= rv.map_values(|r: ResolvedV| has_fact_impl(r, name@)));
    let mut self_init = word_toks("Self");
    app_group(&mut self_init, Delim::Brace, inits);
    let mut new_fn = word_toks("pub");
    app_word(&mut new_fn, "fn");
    app_word(&mut new_fn, "new");
    app_group(&mut new_fn, Delim::Paren, params);
    push_arrow(&mut new_fn);
    app_word(&mut new_fn, "Self");
    app_group(&mut new_fn, Delim::Brace, self_init);
    let mut out = attrs;
    push_derive_clone_copy(&mut out);
    app_word(&mut out, "pub");
    app_word(&mut out, "struct");
    app_name(&mut out, &name);
    app_group(&mut out, Delim::Brace, fields);
    app_word(&mut out, "impl");
    app_name(&mut out, &name);
    app_group(&mut out, Delim::Brace, new_fn);
    extend_toks(&mut out, impls);
    Ok(out)
}

/// `define_fact_set!`: a struct that holds a set of facts, each in its own field.
pub fn define_fact_set(text: &str) -> (r: Result<String, MacroError>)
    ensures
        match lex_spec(text@) {
            None => r matches Err(e) && e is Lex,
            Some(ts) => match sp_fact_set(ts) {
                None => r matches Err(e) && e is Syntax,
                Some(i) => answers(r, fact_set_spec(i)),
            },
        },
{
    let input = match FactSetInput::parse(text) {
        Ok(i) => i,
        Err(e) => return Err(e),
    };
    match emit_fact_set(input) {
        Ok(items) => Ok(render(&items)),
        Err(e) => Err(e),
    }
}

/// A fact set that resolves holds each listed fact once, in order, each in the field its
/// entry names (the alias, or the fact's name in snake case); no two facts share a field.
pub proof fn law_fact_set_fields_distinct(es: Seq<EntryV>)
    requires
        resolve_facts_spec(es) is Ok,
    ensures
        resolve_facts_spec(es)->Ok_0.len() == es.len(),
        forall|i: int| 0 <= i < es.len() ==> #[trigger] resolve_facts_spec(es)->Ok_0[i] == entry_resolved(es[i]),
        forall|i: int, j: int|
            0 <= i < j < es.len() ==> entry_resolved(#[trigger] es[i]).fact != entry_resolved(#[trigger] es[j]).fact
                && entry_resolved(es[i]).field != entry_resolved(es[j]).field,
    decreases es.len(),
{
    if es.len() > 0 {
        let prefix = es.drop_last();
        let r = entry_resolved(es.last());
        law_fact_set_fields_distinct(prefix);
        lemma_first_index(entry_facts(prefix), r.fact);
        lemma_first_index(entry_fields(prefix), r.field);
        assert forall|i: int, j: int| 0 <= i < j < es.len() implies entry_resolved(#[trigger] es[i]).fact != entry_resolved(
            #[trigger] es[j],
        ).fact && entry_resolved(es[i]).field != entry_resolved(es[j]).field by {
            assert(prefix[i] == es[i]);
            if j == es.len() - 1 {
                assert(entry_facts(prefix)[i] == entry_resolved(prefix[i]).fact);
                assert(entry_fields(prefix)[i] == entry_resolved(prefix[i]).field);
            } else {
                assert(prefix[j] == es[j]);
            }
        }
        assert forall|i: int| 0 <= i < es.len() implies #[trigger] resolve_facts_spec(es)->Ok_0[i] == entry_resolved(es[i]) by {
            if i < es.len() - 1 {
                assert(prefix[i] == es[i]);
            }
        }
    }
}

} // verus!

verus! {

/// The impl through which a fact set gives out one of its facts:
/// `impl crate::framework::HasFact<Fact> for Name { fn fact(&self) -> Fact { self.field } }`.
pub open spec fn has_fact_item(fact: Seq<char>, field: Seq<char>, name: Seq<char>) -> Seq<TokV> {
    seq![
        TokV::Ident("impl"@),
        TokV::Ident("crate"@),
        TokV::Punct(':', true),
        TokV::Punct(':', false),
        TokV::Ident("framework"@),
        TokV::Punct(':', true),
        TokV::Punct(':', false),
        TokV::Ident("HasFact"@),
        TokV::Punct('<', false),
        TokV::Ident(fact),
        TokV::Punct('>', false),
        TokV::Ident("for"@),
        TokV::Ident(name),
        TokV::Group(
            Delim::Brace,
            seq![
                TokV::Ident("fn"@),
                TokV::Ident("fact"@),
                TokV::Group(Delim::Paren, seq![TokV::Punct('&', false), TokV::Ident("self"@)]),
                TokV::Punct('-', true),
                TokV::Punct('>', false),
                TokV::Ident(fact),
                TokV::Group(Delim::Brace, seq![TokV::Ident("self"@), TokV::Punct('.', false), TokV::Ident(field)]),
            ],
        ),
    ]
}

/// Resolving entries that are accepted gives each entry, in order, as its fact and field.
pub proof fn lemma_resolve_entries(es: Seq<EntryV>)
    ensures
        resolve_facts_spec(es) matches Ok(rs) ==> rs == es.map_values(|e: EntryV| entry_resolved(e)),
    decreases es.len(),
{
    if es.len() > 0 {
        lemma_resolve_entries(es.drop_last());
        if let Ok(rs) = resolve_facts_spec(es) {
            assert(es.map_values(|e: EntryV| entry_resolved(e)) =~= es.drop_last().map_values(|e: EntryV| entry_resolved(e)).push(
                entry_resolved(es.last()),
            ));
        }
    }
}

proof fn lemma_has_fact_impl_is_item(r: ResolvedV, name: Seq<char>)
    ensures
        has_fact_impl(r, name) == has_fact_item(r.fact, r.field, name),
{
    let get = word("self"@) + mark('.') + word(r.field);
    assert(get =~= seq![TokV::Ident("self"@), TokV::Punct('.', false), TokV::Ident(r.field)]);
    let recv = mark('&') + word("self"@);
    assert(recv =~= seq![TokV::Punct('&', false), TokV::Ident("self"@)]);
    let body = word("fn"@) + word("fact"@) + group(Delim::Paren, recv) + arrow() + word(r.fact) + group(Delim::Brace, get);
    assert(body =~= seq![
        TokV::Ident("fn"@),
        TokV::Ident("fact"@),
        TokV::Group(Delim::Paren, seq![TokV::Punct('&', false), TokV::Ident("self"@)]),
        TokV::Punct('-', true),
        TokV::Punct('>', false),
        TokV::Ident(r.fact),
        TokV::Group(Delim::Brace, seq![TokV::Ident("self"@), TokV::Punct('.', false), TokV::Ident(r.field)]),
    ]);
    assert(has_fact_impl(r, name) =~= has_fact_item(r.fact, r.field, name));
}

/// Every fact of a fact set that is accepted, whatever their number, can be taken out of
/// it: the items hold one `HasFact` impl per entry, of the entry's fact and returning the
/// entry's field, in the entries' order.
pub proof fn law_fact_set_has_fact_every_entry(i: FactSetV)
    ensures
        fact_set_spec(i) matches Ok(out) ==> in_order(
            out,
            i.facts.map_values(|e: EntryV| has_fact_item(entry_resolved(e).fact, entry_resolved(e).field, i.name)),
        ),
{
    if let Ok(out) = fact_set_spec(i) {
        let rs = resolve_facts_spec(i.facts)->Ok_0;
        lemma_resolve_entries(i.facts);
        let name = i.name;
        let parts = rs.map_values(|r: ResolvedV| has_fact_impl(r, name));
        let pre = i.attrs + derive_clone_copy() + word("pub"@) + word("struct"@) + word(name) + group(
            Delim::Brace,
            concat_seqs(rs.map_values(|r: ResolvedV| fact_field_toks(r))),
        ) + word("impl"@) + word(name) + group(
            Delim::Brace,
            word("pub"@) + word("fn"@) + word("new"@) + group(Delim::Paren, concat_seqs(rs.map_values(|r: ResolvedV| fact_param_toks(r))))
                + arrow() + word("Self"@) + group(
                Delim::Brace,
                word("Self"@) + group(Delim::Brace, concat_seqs(rs.map_values(|r: ResolvedV| fact_init_toks(r)))),
            ),
        );
        lemma_concat_in_order(pre, parts, seq![]);
        assert(out =~= pre + concat_seqs(parts) + seq![]);
        assert forall|k: int| 0 <= k < i.facts.len() implies #[trigger] parts[k] == has_fact_item(
            entry_resolved(i.facts[k]).fact,
            entry_resolved(i.facts[k]).field,
            name,
        ) by {
            lemma_has_fact_impl_is_item(rs[k], name);
        }
        assert(parts =~= i.facts.map_values(|e: EntryV| has_fact_item(entry_resolved(e).fact, entry_resolved(e).field, name)));
    }
}

} // verus!

verus! {

/// `struct Name { pub field: Fact, ... }`, one field per entry, in order.
pub open spec fn struct_of_entries(name: Seq<char>, es: Seq<EntryV>) -> Seq<TokV> {
    seq![
        TokV::Ident("struct"@),
        TokV::Ident(name),
        TokV::Group(
            Delim::Brace,
            concat_seqs(es.map_values(|e: EntryV| seq![
                TokV::Ident("pub"@),
                TokV::Ident(entry_resolved(e).field),
                TokV::Punct(':', false),
                TokV::Ident(entry_resolved(e).fact),
                TokV::Punct(',', false),
            ])),
        ),
    ]
}

/// `{ pub fn new(field: Fact, ...) -> Self { Self { field, ... } } }`, the body of the
/// impl that builds the set from every entry, in order.
pub open spec fn new_of_entries(es: Seq<EntryV>) -> Seq<TokV> {
    seq![
        TokV::Group(
            Delim::Brace,
            seq![
                TokV::Ident("pub"@),
                TokV::Ident("fn"@),
                TokV::Ident("new"@),
                TokV::Group(
                    Delim::Paren,
                    concat_seqs(es.map_values(|e: EntryV| seq![
                        TokV::Ident(entry_resolved(e).field),
                        TokV::Punct(':', false),
                        TokV::Ident(entry_resolved(e).fact),
                        TokV::Punct(',', false),
                    ])),
                ),
                TokV::Punct('-', true),
                TokV::Punct('>', false),
                TokV::Ident("Self"@),
                TokV::Group(
                    Delim::Brace,
                    seq![
                        TokV::Ident("Self"@),
                        TokV::Group(
                            Delim::Brace,
                            concat_seqs(es.map_values(|e: EntryV| seq![TokV::Ident(entry_resolved(e).field), TokV::Punct(',', false)])),
                        ),
                    ],
                ),
            ],
        ),
    ]
}

proof fn lemma_entries_struct_and_new(es: Seq<EntryV>, rs: Seq<ResolvedV>, name: Seq<char>)
    requires
        rs == es.map_values(|e: EntryV| entry_resolved(e)),
    ensures
        word("struct"@) + word(name) + group(Delim::Brace, concat_seqs(rs.map_values(|r: ResolvedV| fact_field_toks(r))))
            == struct_of_entries(name, es),
        group(
            Delim::Brace,
            word("pub"@) + word("fn"@) + word("new"@) + group(Delim::Paren, concat_seqs(rs.map_values(|r: ResolvedV| fact_param_toks(r))))
                + arrow() + word("Self"@) + group(
                Delim::Brace,
                word("Self"@) + group(Delim::Brace, concat_seqs(rs.map_values(|r: ResolvedV| fact_init_toks(r)))),
            ),
        ) == new_of_entries(es),
{
    assert forall|i: int| 0 <= i < es.len() implies #[trigger] fact_field_toks(rs[i]) == seq![
        TokV::Ident("pub"@),
        TokV::Ident(entry_resolved(es[i]).field),
        TokV::Punct(':', false),
        TokV::Ident(entry_resolved(es[i]).fact),
        TokV::Punct(',', false),
    ] by {
        assert(fact_field_toks(rs[i]) =~= seq![
            TokV::Ident("pub"@),
            TokV::Ident(entry_resolved(es[i]).field),
            TokV::Punct(':', false),
            TokV::Ident(entry_resolved(es[i]).fact),
            TokV::Punct(',', false),
        ]);
    }
    assert forall|i: int| 0 <= i < es.len() implies #[trigger] fact_param_toks(rs[i]) == seq![
        TokV::Ident(entry_resolved(es[i]).field),
        TokV::Punct(':', false),
        TokV::Ident(entry_resolved(es[i]).fact),
        TokV::Punct(',', false),
    ] by {
        assert(fact_param_toks(rs[i]) =~= seq![
            TokV::Ident(entry_resolved(es[i]).field),
            TokV::Punct(':', false),
            TokV::Ident(entry_resolved(es[i]).fact),
            TokV::Punct(',', false),
        ]);
    }
    assert forall|i: int| 0 <= i < es.len() implies #[trigger] fact_init_toks(rs[i]) == seq![
        TokV::Ident(entry_resolved(es[i]).field),
        TokV::Punct(',', false),
    ] by {
        assert(fact_init_toks(rs[i]) =~= seq![TokV::Ident(entry_resolved(es[i]).field), TokV::Punct(',', false)]);
    }
    assert(rs.map_values(|r: ResolvedV| fact_field_toks(r)) =~= es.map_values(|e: EntryV| seq![
        TokV::Ident("pub"@),
        TokV::Ident(entry_resolved(e).field),
        TokV::Punct(':', false),
        TokV::Ident(entry_resolved(e).fact),
        TokV::Punct(',', false),
    ]));
    assert(rs.map_values(|r: ResolvedV| fact_param_toks(r)) =~= es.map_values(|e: EntryV| seq![
        TokV::Ident(entry_resolved(e).field),
        TokV::Punct(':', false),
        TokV::Ident(entry_resolved(e).fact),
        TokV::Punct(',', false),
    ]));
    assert(rs.map_values(|r: ResolvedV| fact_init_toks(r)) =~= es.map_values(
        |e: EntryV| seq![TokV::Ident(entry_resolved(e).field), TokV::Punct(',', false)],
    ));
    let inits = concat_seqs(es.map_values(|e: EntryV| seq![TokV::Ident(entry_resolved(e).field), TokV::Punct(',', false)]));
    assert(word("Self"@) + group(Delim::Brace, concat_seqs(rs.map_values(|r: ResolvedV| fact_init_toks(r)))) =~= seq![
        TokV::Ident("Self"@),
        TokV::Group(Delim::Brace, inits),
    ]);
    assert(word("struct"@) + word(name) + group(Delim::Brace, concat_seqs(rs.map_values(|r: ResolvedV| fact_field_toks(r))))
        =~= struct_of_entries(name, es));
    let params = concat_seqs(rs.map_values(|r: ResolvedV| fact_param_toks(r)));
    let body = word("pub"@) + word("fn"@) + word("new"@) + group(Delim::Paren, params) + arrow() + word("Self"@) + group(
        Delim::Brace,
        word("Self"@) + group(Delim::Brace, concat_seqs(rs.map_values(|r: ResolvedV| fact_init_toks(r)))),
    );
    assert(body =~= new_of_entries(es)[0]->Group_1);
    assert(group(Delim::Brace, body) =~= new_of_entries(es));
}

/// The struct of an accepted fact set has one public field per entry, whatever their
/// number, holding the entry's fact, in order; and, after it, its impl holds the
/// constructor that takes every fact.
pub proof fn law_fact_set_struct_holds_every_entry(i: FactSetV)
    ensures
        fact_set_spec(i) matches Ok(out) ==> in_order(out, seq![struct_of_entries(i.name, i.facts), new_of_entries(i.facts)]),
{
    if let Ok(out) = fact_set_spec(i) {
        let rs = resolve_facts_spec(i.facts)->Ok_0;
        let name = i.name;
        lemma_resolve_entries(i.facts);
        lemma_entries_struct_and_new(i.facts, rs, name);
        let s = struct_of_entries(name, i.facts);
        let g = new_of_entries(i.facts);
        let a = i.attrs + derive_clone_copy() + word("pub"@);
        let b = word("impl"@) + word(name);
        let d = concat_seqs(rs.map_values(|r: ResolvedV| has_fact_impl(r, name)));
        assert(out =~= a + s + b + g + d);
        let k1 = a.len() as int;
        let k2 = (a.len() + s.len() + b.len()) as int;
        assert(out.subrange(k1, k1 + s.len()) =~= s);
        assert(out.subrange(k2, k2 + g.len()) =~= g);
        lemma_two_in_order(out, s, g, k1, k2);
    }
}

} // verus!
