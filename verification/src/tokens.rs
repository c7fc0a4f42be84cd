use vstd::prelude::*;
use crate::text::push_char;

verus! {

/// The delimiter of a token group.
#[derive(PartialEq, Eq, Structural, Clone, Copy, Debug)]
pub enum Delim {
    Paren,
    Bracket,
    Brace,
}

/// A token of Rust source text, as read from and written to the propositional macros.
///
/// `Punct(c, joint)` is one punctuation character; `joint` tells that it is glued to the
/// punctuation character after it (as the `-` of `->`).
#[derive(Debug)]
pub enum Tok {
    Ident(String),
    Punct(char, bool),
    Lit(String),
    Group(Delim, Vec<Tok>),
}

/// The mathematical model of a token.
pub enum TokV {
    Ident(Seq<char>),
    Punct(char, bool),
    Lit(Seq<char>),
    Group(Delim, Seq<TokV>),
}

/// The model of a token.
pub open spec fn tok_view(t: Tok) -> TokV
    decreases t,
{
    match t {
        Tok::Ident(s) => TokV::Ident(s@),
        Tok::Punct(c, j) => TokV::Punct(c, j),
        Tok::Lit(s) => TokV::Lit(s@),
        Tok::Group(d, v) => {
            proof {
                assert(decreases_to!(v => v@));
            }
            TokV::Group(d, toks_view(v@))
        },
    }
}

/// The model of a sequence of tokens.
pub open spec fn toks_view(v: Seq<Tok>) -> Seq<TokV>
    decreases v,
{
    if v.len() == 0 {
        seq![]
    } else {
        toks_view(v.drop_last()).push(tok_view(v.last()))
    }
}

impl View for Tok {
    type V = TokV;

    open spec fn view(&self) -> TokV {
        tok_view(*self)
    }
}

/// Text that opens a group.
pub open spec fn open_text(d: Delim) -> Seq<char> {
    match d {
        Delim::Paren => seq!['('],
        Delim::Bracket => seq!['['],
        Delim::Brace => seq!['{', ' '],
    }
}

/// Text that closes a group.
pub open spec fn close_text(d: Delim) -> Seq<char> {
    match d {
        Delim::Paren => seq![')'],
        Delim::Bracket => seq![']'],
        Delim::Brace => seq!['}'],
    }
}

/// Whether a token is a punctuation character glued to the next one.
pub open spec fn is_joint(t: TokV) -> bool {
    t matches TokV::Punct(_, true)
}

/// The text of one token: groups print their delimiters around their contents, and a
/// non-empty brace group keeps a space before its closing brace.
pub open spec fn render_tok(t: TokV) -> Seq<char>
    decreases t,
{
    match t {
        TokV::Ident(s) => s,
        TokV::Punct(c, _) => seq![c],
        TokV::Lit(s) => s,
        TokV::Group(d, ts) => open_text(d) + render_seq(ts) + (if d == Delim::Brace && ts.len() > 0 {
            seq![' ']
        } else {
            seq![]
        }) + close_text(d),
    }
}

/// The text of a token sequence: tokens are separated by one space, except after a
/// punctuation character that is glued to the next one.
pub open spec fn render_seq(ts: Seq<TokV>) -> Seq<char>
    decreases ts,
{
    if ts.len() == 0 {
        seq![]
    } else {
        let prefix = ts.drop_last();
        let sep = if prefix.len() > 0 && !is_joint(prefix.last()) {
            seq![' ']
        } else {
            seq![]
        };
        render_seq(prefix) + sep + render_tok(ts.last())
    }
}

/// Appends the text of the tokens to `out`.
pub fn render_into(ts: &Vec<Tok>, out: &mut String)
    ensures
        final(out)@ == old(out)@ + render_seq(toks_view(ts@)),
    decreases ts@,
{
    let ghost start = out@;
    let n = ts.len();
    let mut i: usize = 0;
    proof {
        lemma_toks_view_len(ts@);
        assert(toks_view(ts@).take(0) =~= seq![]);
    }
    while i < n
        invariant
            n == ts@.len(),
            i <= n,
            toks_view(ts@).len() == n,
            forall|j: int| 0 <= j < n ==> #[trigger] toks_view(ts@)[j] == tok_view(ts@[j]),
            out@ == start + render_seq(toks_view(ts@).take(i as int)),
        decreases n - i,
    {
        let ghost tv = toks_view(ts@);
        if i > 0 {
            let glued = match &ts[i - 1] {
                Tok::Punct(_, j) => *j,
                _ => false,
            };
            if !glued {
                push_char(out, ' ');
            }
        }
        render_tok_into(&ts[i], out);
        proof {
            assert(tv.take(i + 1).drop_last() =~= tv.take(i as int));
            assert(tv.take(i + 1).last() == tv[i as int]);
        }
        assert(out@ =~= start + render_seq(tv.take(i + 1)));
        i = i + 1;
    }
    assert(toks_view(ts@).take(n as int) =~= toks_view(ts@));
}

/// Appends the text of one token to `out`.
pub fn render_tok_into(t: &Tok, out: &mut String)
    ensures
        final(out)@ == old(out)@ + render_tok(t@),
    decreases t,
{
    match t {
        Tok::Ident(s) => {
            out.append(s.as_str());
        },
        Tok::Punct(c, _) => {
            push_char(out, *c);
            assert(final(out)@ =~= old(out)@ + render_tok(t@));
        },
        Tok::Lit(s) => {
            out.append(s.as_str());
        },
        Tok::Group(d, inner) => {
            let ghost start = out@;
            match d {
                Delim::Paren => push_char(out, '('),
                Delim::Bracket => push_char(out, '['),
                Delim::Brace => {
                    push_char(out, '{');
                    push_char(out, ' ');
                },
            }
            let ghost mid = out@;
            assert(mid =~= start + open_text(*d));
            render_into(inner, out);
            let ghost after = out@;
            if *d == Delim::Brace && inner.len() > 0 {
                push_char(out, ' ');
            }
            proof {
                lemma_toks_view_len(inner@);
            }
            match d {
                Delim::Paren => push_char(out, ')'),
                Delim::Bracket => push_char(out, ']'),
                Delim::Brace => push_char(out, '}'),
            }
            assert(out@ =~= start + render_tok(t@));
        },
    }
}

/// The text of a token sequence, as a new string.
pub fn render(ts: &Vec<Tok>) -> (s: String)
    ensures
        s@ == render_seq(toks_view(ts@)),
{
    let mut s = String::new();
    render_into(ts, &mut s);
    assert(s@ =~= render_seq(toks_view(ts@)));
    s
}


pub proof fn lemma_toks_view_push(v: Seq<Tok>, t: Tok)
    ensures
        toks_view(v.push(t)) == toks_view(v).push(tok_view(t)),
{
    assert(v.push(t).drop_last() =~= v);
}

pub proof fn lemma_toks_view_concat(a: Seq<Tok>, b: Seq<Tok>)
    ensures
        toks_view(a + b) == toks_view(a) + toks_view(b),
    decreases b.len(),
{
    if b.len() == 0 {
        assert(a + b =~= a);
        assert(toks_view(a) + toks_view(b) =~= toks_view(a));
    } else {
        lemma_toks_view_concat(a, b.drop_last());
        assert((a + b).drop_last() =~= a + b.drop_last());
        assert((a + b).last() == b.last());
        assert(toks_view(a + b) =~= toks_view(a) + toks_view(b));
    }
}

pub proof fn lemma_toks_view_len(v: Seq<Tok>)
    ensures
        toks_view(v).len() == v.len(),
        forall|i: int| 0 <= i < v.len() ==> #[trigger] toks_view(v)[i] == tok_view(v[i]),
    decreases v.len(),
{
    if v.len() > 0 {
        lemma_toks_view_len(v.drop_last());
    }
}

/// An identifier token.
pub fn ident(s: &str) -> (t: Tok)
    ensures
        t@ == TokV::Ident(s@),
{
    Tok::Ident(String::from_str(s))
}

/// A punctuation token.
pub fn punct(c: char, joint: bool) -> (t: Tok)
    ensures
        t@ == TokV::Punct(c, joint),
{
    Tok::Punct(c, joint)
}

/// Appends one token.
pub fn push_tok(out: &mut Vec<Tok>, t: Tok)
    ensures
        toks_view(final(out)@) == toks_view(old(out)@).push(t@),
{
    proof {
        lemma_toks_view_push(out@, t);
    }
    out.push(t);
}

/// Appends an identifier token.
pub fn push_ident(out: &mut Vec<Tok>, s: &str)
    ensures
        toks_view(final(out)@) == toks_view(old(out)@).push(TokV::Ident(s@)),
{
    push_tok(out, ident(s));
}

/// Appends a punctuation token.
pub fn push_punct(out: &mut Vec<Tok>, c: char, joint: bool)
    ensures
        toks_view(final(out)@) == toks_view(old(out)@).push(TokV::Punct(c, joint)),
{
    push_tok(out, Tok::Punct(c, joint));
}

/// Appends a group of the given tokens.
pub fn push_group(out: &mut Vec<Tok>, d: Delim, inner: Vec<Tok>)
    ensures
        toks_view(final(out)@) == toks_view(old(out)@).push(TokV::Group(d, toks_view(inner@))),
{
    push_tok(out, Tok::Group(d, inner));
}

/// Appends all the given tokens.
pub fn extend_toks(out: &mut Vec<Tok>, other: Vec<Tok>)
    ensures
        toks_view(final(out)@) == toks_view(old(out)@) + toks_view(other@),
{
    let mut other = other;
    proof {
        lemma_toks_view_concat(out@, other@);
    }
    out.append(&mut other);
}

/// A copy of a token with the same model.
pub fn copy_tok(t: &Tok) -> (r: Tok)
    ensures
        r@ == t@,
    decreases t,
{
    match t {
        Tok::Ident(s) => Tok::Ident(s.clone()),
        Tok::Punct(c, j) => Tok::Punct(*c, *j),
        Tok::Lit(s) => Tok::Lit(s.clone()),
        Tok::Group(d, v) => Tok::Group(*d, copy_toks(v)),
    }
}

/// A copy of a token sequence with the same model.
pub fn copy_toks(v: &Vec<Tok>) -> (r: Vec<Tok>)
    ensures
        toks_view(r@) == toks_view(v@),
    decreases v,
{
    let mut r: Vec<Tok> = Vec::new();
    let n = v.len();
    let mut i: usize = 0;
    while i < n
        invariant
            n == v@.len(),
            i <= n,
            toks_view(r@) == toks_view(v@.take(i as int)),
        decreases n - i,
    {
        let t = copy_tok(&v[i]);
        push_tok(&mut r, t);
        assert(v@.take(i + 1).drop_last() =~= v@.take(i as int));
        i = i + 1;
    }
    assert(v@.take(n as int) =~= v@);
    r
}


/// Copies of the tokens `ts[i..j]`.
pub fn copy_range(ts: &Vec<Tok>, i: usize, j: usize) -> (r: Vec<Tok>)
    requires
        i <= j <= ts@.len(),
    ensures
        toks_view(r@) == toks_view(ts@).subrange(i as int, j as int),
{
    let mut r: Vec<Tok> = Vec::new();
    let mut k = i;
    proof {
        lemma_toks_view_len(ts@);
        lemma_toks_view_len(r@);
    }
    while k < j
        invariant
            i <= k <= j,
            j <= ts@.len(),
            r@.len() == k - i,
            forall|x: int| 0 <= x < r@.len() ==> tok_view(#[trigger] r@[x]) == tok_view(ts@[i + x]),
        decreases j - k,
    {
        r.push(copy_tok(&ts[k]));
        k = k + 1;
    }
    proof {
        lemma_toks_view_len(ts@);
        lemma_toks_view_len(r@);
    }
    assert(toks_view(r@) =~= toks_view(ts@).subrange(i as int, j as int));
    r
}

/// One identifier.
pub open spec fn word(s: Seq<char>) -> Seq<TokV> {
    seq![TokV::Ident(s)]
}

/// One punctuation character that is not glued to the next one.
pub open spec fn mark(c: char) -> Seq<TokV> {
    seq![TokV::Punct(c, false)]
}

/// One group.
pub open spec fn group(d: Delim, inner: Seq<TokV>) -> Seq<TokV> {
    seq![TokV::Group(d, inner)]
}

/// A sequence that holds one identifier.
pub fn word_toks(s: &str) -> (r: Vec<Tok>)
    ensures
        toks_view(r@) == word(s@),
{
    let mut r: Vec<Tok> = Vec::new();
    push_ident(&mut r, s);
    assert(toks_view(r@) =~= word(s@));
    r
}

/// Appends an identifier.
pub fn app_word(out: &mut Vec<Tok>, s: &str)
    ensures
        toks_view(final(out)@) == toks_view(old(out)@) + word(s@),
{
    push_ident(out, s);
    assert(toks_view(out@) =~= toks_view(old(out)@) + word(s@));
}

/// Appends an identifier given as a string.
pub fn app_name(out: &mut Vec<Tok>, s: &String)
    ensures
        toks_view(final(out)@) == toks_view(old(out)@) + word(s@),
{
    push_tok(out, Tok::Ident(s.clone()));
    assert(toks_view(out@) =~= toks_view(old(out)@) + word(s@));
}

/// Appends a punctuation character that is not glued to the next one.
pub fn app_mark(out: &mut Vec<Tok>, c: char)
    ensures
        toks_view(final(out)@) == toks_view(old(out)@) + mark(c),
{
    push_punct(out, c, false);
    assert(toks_view(out@) =~= toks_view(old(out)@) + mark(c));
}

/// Appends a group.
pub fn app_group(out: &mut Vec<Tok>, d: Delim, inner: Vec<Tok>)
    ensures
        toks_view(final(out)@) == toks_view(old(out)@) + group(d, toks_view(inner@)),
{
    let ghost iv = toks_view(inner@);
    push_group(out, d, inner);
    assert(toks_view(out@) =~= toks_view(old(out)@) + group(d, iv));
}

/// Appends a copy of the tokens.
pub fn app_copy(out: &mut Vec<Tok>, other: &Vec<Tok>)
    ensures
        toks_view(final(out)@) == toks_view(old(out)@) + toks_view(other@),
{
    extend_toks(out, copy_toks(other));
}

} // verus!
