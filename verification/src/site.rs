use vstd::prelude::*;
use crate::error::{MacroError, ErrV};
use crate::lexer::{lex, lex_spec};
use crate::tokens::{Tok, TokV, toks_view, lemma_toks_view_len};
use crate::derive::parse::{sp_attrs, parse_attrs};
use crate::rose::facts::{
    FactEntry, FactSetInput, sp_fact_set, fact_sites, lemma_fact_sites, first_refused, resolve_facts_spec,
    entry_sites, resolve_entries, entries_view,
};

verus! {

/// Where a refusal is reported in a macro's input: the token at `index` among the input's
/// tokens, or, with `inner`, the token at `inner` within the group at `index`.
#[derive(Clone, Copy, Debug)]
pub struct Site {
    pub index: usize,
    pub inner: Option<usize>,
}

pub struct SiteV {
    pub index: int,
    pub inner: Option<int>,
}

impl View for Site {
    type V = SiteV;

    open spec fn view(&self) -> SiteV {
        SiteV {
            index: self.index as int,
            inner: match self.inner {
                Some(i) => Some(i as int),
                None => None,
            },
        }
    }
}

/// The name that the input declares: the identifier after its attributes.
pub open spec fn name_site(ts: Seq<TokV>) -> Option<SiteV> {
    match sp_attrs(ts, 0) {
        Some(a) => if a < ts.len() && ts[a] is Ident {
            Some(SiteV { index: a, inner: None })
        } else {
            None
        },
        None => None,
    }
}

/// The entry of a fact set at which resolving its facts is refused: its fact, or, for a
/// field clash of an entry with `as`, the field it names.
pub open spec fn fact_refusal_site(ts: Seq<TokV>, clash: bool) -> Option<SiteV> {
    match (sp_fact_set(ts), sp_attrs(ts, 0)) {
        (Some(fs), Some(a)) => if resolve_facts_spec(fs.facts) is Err {
            let k = first_refused(fs.facts);
            let at = fact_sites(ts[a + 2]->Group_1, 0)[k];
            Some(SiteV {
                index: a + 2,
                inner: Some(if clash && fs.facts[k] is Aliased { at + 2 } else { at }),
            })
        } else {
            None
        },
        _ => None,
    }
}

/// Where a refusal of the given input is reported: a refusal about the proposition or list
/// as a whole at the name it declares; a repeated fact, or a fact whose field is taken, at
/// that entry; elsewhere, nowhere in particular.
pub open spec fn site_spec(ts: Seq<TokV>, e: ErrV) -> Option<SiteV> {
    match e {
        ErrV::DuplicateFact { .. } => fact_refusal_site(ts, false),
        ErrV::FactFieldClash { .. } => fact_refusal_site(ts, true),
        ErrV::DisjunctionOperands(_) => name_site(ts),
        ErrV::EmptyConjunction(_) => name_site(ts),
        ErrV::TooFewVariants(_) => name_site(ts),
        ErrV::NotAnImplication(_) => name_site(ts),
        ErrV::NoPropositions(_) => name_site(ts),
        ErrV::TooFewPropositions(_) => name_site(ts),
        ErrV::NoFacts(_) => name_site(ts),
        _ => None,
    }
}

fn name_site_exec(ts: &Vec<Tok>) -> (r: Option<Site>)
    ensures
        match r {
            Some(s) => name_site(toks_view(ts@)) == Some(s@),
            None => name_site(toks_view(ts@)) is None,
        },
{
    proof {
        lemma_toks_view_len(ts@);
    }
    match parse_attrs(ts, 0) {
        Ok(a) => if a < ts.len() {
            match &ts[a] {
                Tok::Ident(_) => Some(Site { index: a, inner: None }),
                _ => None,
            }
        } else {
            None
        },
        Err(_) => None,
    }
}

fn fact_refusal_site_exec(text: &str, ts: &Vec<Tok>, clash: bool) -> (r: Option<Site>)
    requires
        lex_spec(text@) == Some(toks_view(ts@)),
    ensures
        match r {
            Some(s) => fact_refusal_site(toks_view(ts@), clash) == Some(s@),
            None => fact_refusal_site(toks_view(ts@), clash) is None,
        },
{
    let ghost tv = toks_view(ts@);
    proof {
        lemma_toks_view_len(ts@);
    }
    let input = match FactSetInput::parse(text) {
        Ok(i) => i,
        Err(_) => return None,
    };
    let a = match parse_attrs(ts, 0) {
        Ok(a) => a,
        Err(_) => return None,
    };
    assert(sp_fact_set(tv) == Some(input@));
    let n = ts.len();
    assert(a + 3 == n);
    let inner = match &ts[a + 2] {
        Tok::Group(_, inner) => inner,
        _ => return None,
    };
    let ghost es = entries_view(input.facts@);
    assert(tv[a + 2] == crate::tokens::tok_view(ts@[a + 2 as int]));
    assert(tv[a + 2]->Group_1 == toks_view(inner@));
    assert(crate::rose::facts::sp_fact_list(toks_view(inner@), 0) == Some(es));
    let (res, k) = resolve_entries(&input.facts);
    if res.is_ok() {
        return None;
    }
    let sites = entry_sites(inner);
    proof {
        lemma_toks_view_len(inner@);
        lemma_fact_sites(toks_view(inner@), 0);
        assert(sites@.map_values(|x: usize| x as int)[k as int] == sites@[k as int] as int);
    }
    let at = sites[k];
    let inner_len = inner.len();
    let aliased = match &input.facts[k] {
        FactEntry::Aliased { .. } => true,
        FactEntry::Plain(_) => false,
    };
    assert(input.facts@[k as int]@ == es[k as int]);
    if clash && aliased {
        assert(es[k as int] is Aliased);
        assert(fact_sites(toks_view(inner@), 0)[k as int] == at as int);
        assert(at + 2 < inner_len);
        Some(Site { index: a + 2, inner: Some(at + 2) })
    } else {
        Some(Site { index: a + 2, inner: Some(at) })
    }
}

/// Where a refusal of a macro's input text is reported (see `site_spec`); `None` where it
/// has no place of its own, or where the text does not read as tokens.
pub fn refusal_site(text: &str, e: &MacroError) -> (r: Option<Site>)
    ensures
        match lex_spec(text@) {
            Some(ts) => match r {
                Some(s) => site_spec(ts, e@) == Some(s@),
                None => site_spec(ts, e@) is None,
            },
            None => r is None,
        },
{
    let ts = match lex(text) {
        Some(ts) => ts,
        None => return None,
    };
    match e {
        MacroError::DuplicateFact { .. } => fact_refusal_site_exec(text, &ts, false),
        MacroError::FactFieldClash { .. } => fact_refusal_site_exec(text, &ts, true),
        MacroError::DisjunctionOperands(_) => name_site_exec(&ts),
        MacroError::EmptyConjunction(_) => name_site_exec(&ts),
        MacroError::TooFewVariants(_) => name_site_exec(&ts),
        MacroError::NotAnImplication(_) => name_site_exec(&ts),
        MacroError::NoPropositions(_) => name_site_exec(&ts),
        MacroError::TooFewPropositions(_) => name_site_exec(&ts),
        MacroError::NoFacts(_) => name_site_exec(&ts),
        _ => None,
    }
}

} // verus!
