use vstd::prelude::*;
use crate::tokens::{Delim, Tok, TokV, toks_view, push_ident, push_punct, push_tok, push_group, extend_toks};
use crate::derive::ast::strings_view;
use crate::derive::generics::{const_params_spec, const_args_spec, emit_const_params, emit_const_arg_list};

verus! {

/// `::`, the path separator.
pub open spec fn path_sep() -> Seq<TokV> {
    seq![TokV::Punct(':', true), TokV::Punct(':', false)]
}

/// `->`.
pub open spec fn arrow() -> Seq<TokV> {
    seq![TokV::Punct('-', true), TokV::Punct('>', false)]
}

/// An item of the runtime crate, by absolute path: `::rprop::Name`.
pub open spec fn rprop_path(last: Seq<char>) -> Seq<TokV> {
    path_sep() + seq![TokV::Ident("rprop"@)] + path_sep() + seq![TokV::Ident(last)]
}

/// An item of the calling crate's framework module: `crate::framework::Name`.
pub open spec fn framework_path(last: Seq<char>) -> Seq<TokV> {
    seq![TokV::Ident("crate"@)] + path_sep() + seq![TokV::Ident("framework"@)] + path_sep() + seq![TokV::Ident(last)]
}

/// `#[derive(Clone, Copy)]`.
pub open spec fn derive_clone_copy() -> Seq<TokV> {
    seq![
        TokV::Punct('#', false),
        TokV::Group(
            Delim::Bracket,
            seq![
                TokV::Ident("derive"@),
                TokV::Group(
                    Delim::Paren,
                    seq![TokV::Ident("Clone"@), TokV::Punct(',', false), TokV::Ident("Copy"@)],
                ),
            ],
        ),
    ]
}

/// `#[doc(hidden)]`.
pub open spec fn doc_hidden() -> Seq<TokV> {
    seq![
        TokV::Punct('#', false),
        TokV::Group(
            Delim::Bracket,
            seq![TokV::Ident("doc"@), TokV::Group(Delim::Paren, seq![TokV::Ident("hidden"@)])],
        ),
    ]
}

/// `#[allow(lint)]`.
pub open spec fn allow_lint(lint: Seq<char>) -> Seq<TokV> {
    seq![
        TokV::Punct('#', false),
        TokV::Group(
            Delim::Bracket,
            seq![TokV::Ident("allow"@), TokV::Group(Delim::Paren, seq![TokV::Ident(lint)])],
        ),
    ]
}

/// Appends `::`.
pub fn push_path_sep(out: &mut Vec<Tok>)
    ensures
        toks_view(final(out)@) == toks_view(old(out)@) + path_sep(),
{
    push_punct(out, ':', true);
    push_punct(out, ':', false);
    assert(toks_view(final(out)@) =~= toks_view(old(out)@) + path_sep());
}

/// Appends `->`.
pub fn push_arrow(out: &mut Vec<Tok>)
    ensures
        toks_view(final(out)@) == toks_view(old(out)@) + arrow(),
{
    push_punct(out, '-', true);
    push_punct(out, '>', false);
    assert(toks_view(final(out)@) =~= toks_view(old(out)@) + arrow());
}

/// Appends `::rprop::last`.
pub fn push_rprop_path(out: &mut Vec<Tok>, last: &str)
    ensures
        toks_view(final(out)@) == toks_view(old(out)@) + rprop_path(last@),
{
    let ghost start = toks_view(out@);
    push_path_sep(out);
    push_ident(out, "rprop");
    push_path_sep(out);
    push_ident(out, last);
    assert(toks_view(out@) =~= start + rprop_path(last@));
}

/// Appends `crate::framework::last`.
pub fn push_framework_path(out: &mut Vec<Tok>, last: &str)
    ensures
        toks_view(final(out)@) == toks_view(old(out)@) + framework_path(last@),
{
    let ghost start = toks_view(out@);
    push_ident(out, "crate");
    push_path_sep(out);
    push_ident(out, "framework");
    push_path_sep(out);
    push_ident(out, last);
    assert(toks_view(out@) =~= start + framework_path(last@));
}

/// Appends `#[derive(Clone, Copy)]`.
pub fn push_derive_clone_copy(out: &mut Vec<Tok>)
    ensures
        toks_view(final(out)@) == toks_view(old(out)@) + derive_clone_copy(),
{
    let ghost start = toks_view(out@);
    let mut list: Vec<Tok> = Vec::new();
    push_ident(&mut list, "Clone");
    push_punct(&mut list, ',', false);
    push_ident(&mut list, "Copy");
    assert(toks_view(list@) =~= seq![TokV::Ident("Clone"@), TokV::Punct(',', false), TokV::Ident("Copy"@)]);
    let mut inner: Vec<Tok> = Vec::new();
    push_ident(&mut inner, "derive");
    let ghost lv = toks_view(list@);
    push_group(&mut inner, Delim::Paren, list);
    assert(toks_view(inner@) =~= seq![TokV::Ident("derive"@), TokV::Group(Delim::Paren, lv)]);
    push_punct(out, '#', false);
    push_group(out, Delim::Bracket, inner);
    assert(toks_view(out@) =~= start + derive_clone_copy());
}

/// Appends `#[doc(hidden)]`.
pub fn push_doc_hidden(out: &mut Vec<Tok>)
    ensures
        toks_view(final(out)@) == toks_view(old(out)@) + doc_hidden(),
{
    let ghost start = toks_view(out@);
    let mut list: Vec<Tok> = Vec::new();
    push_ident(&mut list, "hidden");
    assert(toks_view(list@) =~= seq![TokV::Ident("hidden"@)]);
    let mut inner: Vec<Tok> = Vec::new();
    push_ident(&mut inner, "doc");
    let ghost lv = toks_view(list@);
    push_group(&mut inner, Delim::Paren, list);
    assert(toks_view(inner@) =~= seq![TokV::Ident("doc"@), TokV::Group(Delim::Paren, lv)]);
    push_punct(out, '#', false);
    push_group(out, Delim::Bracket, inner);
    assert(toks_view(out@) =~= start + doc_hidden());
}

/// Appends `#[allow(lint)]`.
pub fn push_allow(out: &mut Vec<Tok>, lint: &str)
    ensures
        toks_view(final(out)@) == toks_view(old(out)@) + allow_lint(lint@),
{
    let ghost start = toks_view(out@);
    let mut list: Vec<Tok> = Vec::new();
    push_ident(&mut list, lint);
    assert(toks_view(list@) =~= seq![TokV::Ident(lint@)]);
    let mut inner: Vec<Tok> = Vec::new();
    push_ident(&mut inner, "allow");
    let ghost lv = toks_view(list@);
    push_group(&mut inner, Delim::Paren, list);
    assert(toks_view(inner@) =~= seq![TokV::Ident("allow"@), TokV::Group(Delim::Paren, lv)]);
    push_punct(out, '#', false);
    push_group(out, Delim::Bracket, inner);
    assert(toks_view(out@) =~= start + allow_lint(lint@));
}


/// The token sequences one after the other.
pub open spec fn concat_seqs(parts: Seq<Seq<TokV>>) -> Seq<TokV>
    decreases parts.len(),
{
    if parts.len() == 0 {
        seq![]
    } else {
        concat_seqs(parts.drop_last()) + parts.last()
    }
}

pub proof fn lemma_concat_push(parts: Seq<Seq<TokV>>, x: Seq<TokV>)
    ensures
        concat_seqs(parts.push(x)) == concat_seqs(parts) + x,
{
    assert(parts.push(x).drop_last() =~= parts);
}

/// The type an item's own impls are for: `Name<N, ...>`.
pub open spec fn self_ty(name: Seq<char>, binders: Seq<Seq<char>>) -> Seq<TokV> {
    seq![TokV::Ident(name)] + const_args_spec(binders)
}

/// `impl<params> ::rprop::Trait for Name<args> {}`.
pub open spec fn marker_impl(tr: Seq<char>, name: Seq<char>, binders: Seq<Seq<char>>) -> Seq<TokV> {
    seq![TokV::Ident("impl"@)] + const_params_spec(binders) + rprop_path(tr) + seq![TokV::Ident("for"@)]
        + self_ty(name, binders) + seq![TokV::Group(Delim::Brace, seq![])]
}

/// Appends `Name<N, ...>`.
pub fn push_self_ty(out: &mut Vec<Tok>, name: &String, binders: &Vec<String>)
    ensures
        toks_view(final(out)@) == toks_view(old(out)@) + self_ty(name@, strings_view(binders@)),
{
    let ghost start = toks_view(out@);
    push_tok(out, Tok::Ident(name.clone()));
    extend_toks(out, emit_const_arg_list(binders));
    assert(toks_view(out@) =~= start + self_ty(name@, strings_view(binders@)));
}

/// Appends `impl<params> ::rprop::Trait for Name<args> {}`.
pub fn push_marker_impl(out: &mut Vec<Tok>, tr: &str, name: &String, binders: &Vec<String>)
    ensures
        toks_view(final(out)@) == toks_view(old(out)@) + marker_impl(tr@, name@, strings_view(binders@)),
{
    let ghost start = toks_view(out@);
    push_ident(out, "impl");
    extend_toks(out, emit_const_params(binders));
    push_rprop_path(out, tr);
    push_ident(out, "for");
    push_self_ty(out, name, binders);
    let empty: Vec<Tok> = Vec::new();
    assert(toks_view(empty@) =~= seq![]);
    push_group(out, Delim::Brace, empty);
    assert(toks_view(out@) =~= start + marker_impl(tr@, name@, strings_view(binders@)));
}

} // verus!

verus! {

/// Whether `piece` stands in `out` from index `k` on.
pub open spec fn occurs_at(out: Seq<TokV>, piece: Seq<TokV>, k: int) -> bool {
    0 <= k && k + piece.len() <= out.len() && out.subrange(k, k + piece.len()) == piece
}

/// Whether each of the pieces stands in `out`, one after the other in their order and
/// without overlapping: `out` holds as many of them as there are.
pub open spec fn in_order(out: Seq<TokV>, pieces: Seq<Seq<TokV>>) -> bool {
    exists|ks: Seq<int>|
        ks.len() == pieces.len() && (forall|i: int| 0 <= i < ks.len() ==> occurs_at(out, pieces[i], #[trigger] ks[i]))
            && (forall|i: int, j: int| 0 <= i < j < ks.len() ==> #[trigger] ks[i] + pieces[i].len() <= #[trigger] ks[j])
}

/// Where the pieces of a concatenation stand in a sequence that holds it.
pub proof fn lemma_concat_offsets(pre: Seq<TokV>, parts: Seq<Seq<TokV>>, post: Seq<TokV>) -> (ks: Seq<int>)
    ensures
        ks.len() == parts.len(),
        forall|i: int| 0 <= i < ks.len() ==> occurs_at(pre + concat_seqs(parts) + post, parts[i], #[trigger] ks[i]),
        forall|i: int, j: int| 0 <= i < j < ks.len() ==> #[trigger] ks[i] + parts[i].len() <= #[trigger] ks[j],
        forall|i: int| 0 <= i < ks.len() ==> #[trigger] ks[i] + parts[i].len() <= pre.len() + concat_seqs(parts).len(),
    decreases parts.len(),
{
    if parts.len() == 0 {
        seq![]
    } else {
        let d = parts.drop_last();
        let l = parts.last();
        let out = pre + concat_seqs(parts) + post;
        assert(out =~= pre + concat_seqs(d) + (l + post));
        let ks0 = lemma_concat_offsets(pre, d, l + post);
        let k: int = (pre.len() + concat_seqs(d).len()) as int;
        let ks = ks0.push(k);
        assert(out.subrange(k, k + l.len() as int) =~= l);
        assert forall|i: int| 0 <= i < ks.len() implies occurs_at(out, parts[i], #[trigger] ks[i]) by {
            if i < ks0.len() {
                assert(parts[i] == d[i]);
                assert(ks[i] == ks0[i]);
            }
        }
        assert forall|i: int, j: int| 0 <= i < j < ks.len() implies #[trigger] ks[i] + parts[i].len() <= #[trigger] ks[j] by {
            assert(parts[i] == d[i]);
            assert(ks[i] == ks0[i]);
            if j < ks0.len() {
                assert(ks[j] == ks0[j]);
            }
        }
        assert forall|i: int| 0 <= i < ks.len() implies #[trigger] ks[i] + parts[i].len() <= pre.len() + concat_seqs(parts).len() by {
            if i < ks0.len() {
                assert(parts[i] == d[i]);
                assert(ks[i] == ks0[i]);
            }
        }
        ks
    }
}

/// What a sequence holds in order, it still holds with more tokens after it.
pub proof fn lemma_in_order_extend(out: Seq<TokV>, pieces: Seq<Seq<TokV>>, more: Seq<TokV>)
    requires
        in_order(out, pieces),
    ensures
        in_order(out + more, pieces),
{
    let ks = choose|ks: Seq<int>|
        ks.len() == pieces.len() && (forall|i: int| 0 <= i < ks.len() ==> occurs_at(out, pieces[i], #[trigger] ks[i]))
            && (forall|i: int, j: int| 0 <= i < j < ks.len() ==> #[trigger] ks[i] + pieces[i].len() <= #[trigger] ks[j]);
    assert forall|i: int| 0 <= i < ks.len() implies occurs_at(out + more, pieces[i], #[trigger] ks[i]) by {
        assert(occurs_at(out, pieces[i], ks[i]));
        assert((out + more).subrange(ks[i], ks[i] + pieces[i].len()) =~= out.subrange(ks[i], ks[i] + pieces[i].len()));
    }
}

/// Two pieces that stand one after the other are held in order.
pub proof fn lemma_two_in_order(out: Seq<TokV>, p: Seq<TokV>, q: Seq<TokV>, k1: int, k2: int)
    requires
        occurs_at(out, p, k1),
        occurs_at(out, q, k2),
        k1 + p.len() <= k2,
    ensures
        in_order(out, seq![p, q]),
{
    let pieces = seq![p, q];
    let ks = seq![k1, k2];
    assert(pieces[0] == p && pieces[1] == q);
    assert forall|i: int| 0 <= i < ks.len() implies occurs_at(out, pieces[i], #[trigger] ks[i]) by {
        if i == 0 {
            assert(ks[i] == k1);
        } else {
            assert(ks[i] == k2);
        }
    }
    assert forall|i: int, j: int| 0 <= i < j < ks.len() implies #[trigger] ks[i] + pieces[i].len() <= #[trigger] ks[j] by {
        assert(i == 0 && j == 1);
    }
    assert(ks.len() == pieces.len());
}

/// A sequence that holds a concatenation holds its pieces in order.
pub proof fn lemma_concat_in_order(pre: Seq<TokV>, parts: Seq<Seq<TokV>>, post: Seq<TokV>)
    ensures
        in_order(pre + concat_seqs(parts) + post, parts),
{
    let ks = lemma_concat_offsets(pre, parts, post);
    assert(ks.len() == parts.len());
}

} // verus!
