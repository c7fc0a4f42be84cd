use vstd::prelude::*;
use crate::derive::ast::strings_view;

verus! {

/// The position of the first occurrence of `x` in `s`.
pub open spec fn first_index<T>(s: Seq<T>, x: T) -> Option<int>
    decreases s.len(),
{
    if s.len() == 0 {
        None
    } else {
        match first_index(s.drop_last(), x) {
            Some(j) => Some(j),
            None => if s.last() == x {
                Some(s.len() - 1)
            } else {
                None
            },
        }
    }
}

/// What `first_index` finds is an occurrence, and nothing before it is one.
pub proof fn lemma_first_index<T>(s: Seq<T>, x: T)
    ensures
        match first_index(s, x) {
            Some(j) => 0 <= j < s.len() && s[j] == x && forall|k: int| 0 <= k < j ==> s[k] != x,
            None => forall|k: int| 0 <= k < s.len() ==> s[k] != x,
        },
    decreases s.len(),
{
    if s.len() > 0 {
        lemma_first_index(s.drop_last(), x);
        assert(forall|k: int| 0 <= k < s.len() - 1 ==> s.drop_last()[k] == #[trigger] s[k]);
    }
}

/// Appending to a sequence keeps an occurrence that was found.
pub proof fn lemma_first_index_push<T>(s: Seq<T>, y: T, x: T)
    ensures
        first_index(s.push(y), x) == match first_index(s, x) {
            Some(j) => Some(j),
            None => if y == x {
                Some(s.len() as int)
            } else {
                None
            },
        },
{
    assert(s.push(y).drop_last() =~= s);
}

/// An occurrence found in a prefix is the first one of the whole sequence.
pub proof fn lemma_first_index_prefix<T>(s: Seq<T>, t: Seq<T>, x: T)
    requires
        first_index(s, x) is Some,
    ensures
        first_index(s + t, x) == first_index(s, x),
    decreases t.len(),
{
    if t.len() > 0 {
        lemma_first_index_prefix(s, t.drop_last(), x);
        assert((s + t).drop_last() =~= s + t.drop_last());
    } else {
        assert(s + t =~= s);
    }
}

/// Where a string occurs first among the strings.
pub fn position_of(names: &Vec<String>, x: &String) -> (r: Option<usize>)
    ensures
        r matches Some(j) ==> first_index(strings_view(names@), x@) == Some(j as int),
        r is None ==> first_index(strings_view(names@), x@) is None,
{
    let ghost nv = strings_view(names@);
    let n = names.len();
    let mut i: usize = 0;
    while i < n
        invariant
            n == names@.len(),
            nv == strings_view(names@),
            i <= n,
            first_index(nv.take(i as int), x@) is None,
        decreases n - i,
    {
        assert(nv.take(i + 1) =~= nv.take(i as int).push(nv[i as int]));
        proof {
            lemma_first_index_push(nv.take(i as int), nv[i as int], x@);
        }
        if names[i] == *x {
            proof {
                assert(nv.take(i + 1) + nv.skip(i + 1) =~= nv);
                lemma_first_index_prefix(nv.take(i + 1), nv.skip(i + 1), x@);
            }
            return Some(i);
        }
        i = i + 1;
    }
    assert(nv.take(n as int) =~= nv);
    None
}

} // verus!
