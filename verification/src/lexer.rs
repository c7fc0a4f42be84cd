use vstd::prelude::*;
use crate::text::push_char;
use crate::tokens::{Delim, Tok, TokV, toks_view, push_tok};

verus! {

/// A token before delimiters are matched into groups.
pub enum Flat {
    Ident(String),
    Punct(char, bool),
    Lit(String),
    Open(Delim),
    Close(Delim),
}

/// The model of a flat token.
pub enum FlatV {
    Ident(Seq<char>),
    Punct(char, bool),
    Lit(Seq<char>),
    Open(Delim),
    Close(Delim),
}

impl View for Flat {
    type V = FlatV;

    open spec fn view(&self) -> FlatV {
        match self {
            Flat::Ident(s) => FlatV::Ident(s@),
            Flat::Punct(c, j) => FlatV::Punct(*c, *j),
            Flat::Lit(s) => FlatV::Lit(s@),
            Flat::Open(d) => FlatV::Open(*d),
            Flat::Close(d) => FlatV::Close(*d),
        }
    }
}

pub open spec fn flats_view(v: Seq<Flat>) -> Seq<FlatV> {
    v.map_values(|f: Flat| f@)
}

pub open spec fn is_space(c: char) -> bool {
    c == ' ' || c == '\t' || c == '\n' || c == '\r'
}

/// A character that starts an identifier: a letter, `_`, or any character beyond ASCII
/// (outside literals, the compiler's printed text holds such characters only in
/// identifiers).
pub open spec fn is_ident_start(c: char) -> bool {
    ('a' <= c && c <= 'z') || ('A' <= c && c <= 'Z') || c == '_' || c > '\u{7f}'
}

pub open spec fn is_digit(c: char) -> bool {
    '0' <= c && c <= '9'
}

pub open spec fn is_ident_continue(c: char) -> bool {
    is_ident_start(c) || is_digit(c)
}

/// The characters that make up operators.
pub open spec fn is_punct_char(c: char) -> bool {
    c == '~' || c == '!' || c == '@' || c == '#' || c == '$' || c == '%' || c == '^' || c == '&'
        || c == '*' || c == '-' || c == '=' || c == '+' || c == '|' || c == ';' || c == ':'
        || c == ',' || c == '<' || c == '.' || c == '>' || c == '/' || c == '?'
}

/// The end of the run of identifier characters that starts at `j`.
pub open spec fn ident_end(s: Seq<char>, j: int) -> int
    decreases s.len() - j,
{
    if 0 <= j < s.len() && is_ident_continue(s[j]) {
        ident_end(s, j + 1)
    } else {
        j
    }
}

/// The index just after the closing quote of a quoted string whose contents start at `j`
/// (a backslash escapes the next character).
pub open spec fn quoted_end(s: Seq<char>, j: int) -> Option<int>
    decreases s.len() - j,
{
    if j < 0 || j >= s.len() {
        None
    } else if s[j] == '"' {
        Some(j + 1)
    } else if s[j] == '\\' {
        if j + 1 >= s.len() {
            None
        } else {
            quoted_end(s, j + 2)
        }
    } else {
        quoted_end(s, j + 1)
    }
}

/// The index just after the closing `'` of a character literal whose contents start at
/// `j` (a backslash escapes the next character).
pub open spec fn char_end(s: Seq<char>, j: int) -> Option<int>
    decreases s.len() - j,
{
    if j < 0 || j >= s.len() {
        None
    } else if s[j] == '\'' {
        Some(j + 1)
    } else if s[j] == '\\' {
        if j + 1 >= s.len() {
            None
        } else {
            char_end(s, j + 2)
        }
    } else {
        char_end(s, j + 1)
    }
}

/// The end of a number literal that starts with a digit at `i`: its digits, letters and
/// underscores, and a fraction after a point where a digit follows the point.
pub open spec fn number_end(s: Seq<char>, i: int) -> int {
    let j = ident_end(s, i + 1);
    if j + 1 < s.len() && s[j] == '.' && is_digit(s[j + 1]) {
        ident_end(s, j + 2)
    } else {
        j
    }
}

/// Whether a raw identifier (`r#name`) starts at `i`.
pub open spec fn is_raw_ident_start(s: Seq<char>, i: int) -> bool {
    0 <= i && i + 2 < s.len() && s[i] == 'r' && s[i + 1] == '#' && is_ident_start(s[i + 2])
}

/// Whether the character after `i` glues to a punctuation character at `i`.
pub open spec fn joins_next(s: Seq<char>, i: int) -> bool {
    i + 1 < s.len() && (is_punct_char(s[i + 1]) || s[i + 1] == '\'')
}

/// The number of `#` characters starting at `j`.
pub open spec fn hashes_from(s: Seq<char>, j: int) -> int
    decreases s.len() - j,
{
    if 0 <= j < s.len() && s[j] == '#' {
        1 + hashes_from(s, j + 1)
    } else {
        0
    }
}

/// Whether `k` hashes start at `p`.
pub open spec fn hashes_at(s: Seq<char>, p: int, k: int) -> bool {
    0 <= p && p + k <= s.len() && forall|q: int| p <= q < p + k ==> s[q] == '#'
}

/// The index just after the end of a raw string whose contents start at `j` and which
/// is closed by a quote and `k` hashes.
pub open spec fn raw_end(s: Seq<char>, j: int, k: int) -> Option<int>
    decreases s.len() - j,
{
    if j < 0 || j >= s.len() {
        None
    } else if s[j] == '"' && hashes_at(s, j + 1, k) {
        Some(j + 1 + k)
    } else {
        raw_end(s, j + 1, k)
    }
}

/// Whether a raw string literal (`r"..."` or `r#"..."#`) starts at `i`.
pub open spec fn is_raw_start(s: Seq<char>, i: int) -> bool {
    0 <= i < s.len() && s[i] == 'r' && 0 <= i + 1 + hashes_from(s, i + 1) < s.len() && s[i + 1
        + hashes_from(s, i + 1)] == '"'
}

/// The delimiter that a character opens.
pub open spec fn opener(c: char) -> Option<Delim> {
    if c == '(' {
        Some(Delim::Paren)
    } else if c == '[' {
        Some(Delim::Bracket)
    } else if c == '{' {
        Some(Delim::Brace)
    } else {
        None
    }
}

/// The delimiter that a character closes.
pub open spec fn closer(c: char) -> Option<Delim> {
    if c == ')' {
        Some(Delim::Paren)
    } else if c == ']' {
        Some(Delim::Bracket)
    } else if c == '}' {
        Some(Delim::Brace)
    } else {
        None
    }
}

/// The token that starts at `i` (not at a space), and the index just after it.
pub open spec fn lex_one(s: Seq<char>, i: int) -> Option<(FlatV, int)> {
    let c = s[i];
    if is_raw_start(s, i) {
        let k = hashes_from(s, i + 1);
        match raw_end(s, i + 2 + k, k) {
            Some(e) => Some((FlatV::Lit(s.subrange(i, e)), e)),
            None => None,
        }
    } else if is_raw_ident_start(s, i) {
        let j = ident_end(s, i + 3);
        Some((FlatV::Ident(s.subrange(i, j)), j))
    } else if is_ident_start(c) {
        let j = ident_end(s, i + 1);
        Some((FlatV::Ident(s.subrange(i, j)), j))
    } else if is_digit(c) {
        let j = number_end(s, i);
        Some((FlatV::Lit(s.subrange(i, j)), j))
    } else if c == '"' {
        match quoted_end(s, i + 1) {
            Some(e) => Some((FlatV::Lit(s.subrange(i, e)), e)),
            None => None,
        }
    } else if c == '\'' {
        if i + 1 < s.len() && s[i + 1] == '\\' {
            match char_end(s, i + 1) {
                Some(e) => Some((FlatV::Lit(s.subrange(i, e)), e)),
                None => None,
            }
        } else if i + 2 < s.len() && s[i + 2] == '\'' {
            Some((FlatV::Lit(s.subrange(i, i + 3)), i + 3))
        } else if i + 1 < s.len() && is_ident_start(s[i + 1]) {
            Some((FlatV::Punct('\'', true), i + 1))
        } else {
            None
        }
    } else if opener(c) is Some {
        Some((FlatV::Open(opener(c).unwrap()), i + 1))
    } else if closer(c) is Some {
        Some((FlatV::Close(closer(c).unwrap()), i + 1))
    } else if is_punct_char(c) {
        Some((FlatV::Punct(c, joins_next(s, i)), i + 1))
    } else {
        None
    }
}

/// The flat tokens of the text from `i` on: spaces separate tokens and are dropped;
/// any other character that starts no token makes the text unreadable.
pub open spec fn lex_from(s: Seq<char>, i: int) -> Option<Seq<FlatV>>
    decreases s.len() - i,
{
    if i < 0 {
        None
    } else if i >= s.len() {
        Some(seq![])
    } else if is_space(s[i]) {
        lex_from(s, i + 1)
    } else {
        match lex_one(s, i) {
            None => None,
            Some((t, j)) => if j <= i || j > s.len() {
                None
            } else {
                match lex_from(s, j) {
                    Some(rest) => Some(seq![t] + rest),
                    None => None,
                }
            },
        }
    }
}

/// The tokens read from `i` on, up to the first closing delimiter or the end, with the
/// index where reading stopped.
pub open spec fn nest_seq(f: Seq<FlatV>, i: int) -> Option<(Seq<TokV>, int)>
    decreases f.len() - i, 1int,
{
    if i < 0 || i >= f.len() || f[i] is Close {
        if 0 <= i <= f.len() {
            Some((seq![], i))
        } else {
            None
        }
    } else {
        match nest_one(f, i) {
            None => None,
            Some((t, k)) => if k <= i || k > f.len() {
                None
            } else {
                match nest_seq(f, k) {
                    None => None,
                    Some((rest, j)) => Some((seq![t] + rest, j)),
                }
            },
        }
    }
}

/// The token that starts at `i`: an opening delimiter starts a group that ends at the
/// matching closing delimiter, which must be of the same kind.
pub open spec fn nest_one(f: Seq<FlatV>, i: int) -> Option<(TokV, int)>
    decreases f.len() - i, 0int,
{
    if i < 0 || i >= f.len() {
        None
    } else {
        match f[i] {
            FlatV::Ident(s) => Some((TokV::Ident(s), i + 1)),
            FlatV::Punct(c, j) => Some((TokV::Punct(c, j), i + 1)),
            FlatV::Lit(s) => Some((TokV::Lit(s), i + 1)),
            FlatV::Close(_) => None,
            FlatV::Open(d) => match nest_seq(f, i + 1) {
                None => None,
                Some((inner, j)) => if 0 <= j < f.len() && f[j] == FlatV::Close(d) {
                    Some((TokV::Group(d, inner), j + 1))
                } else {
                    None
                },
            },
        }
    }
}

/// The token tree of a flat token sequence, if every delimiter is matched.
pub open spec fn nest(f: Seq<FlatV>) -> Option<Seq<TokV>> {
    match nest_seq(f, 0) {
        Some((ts, j)) => if j == f.len() {
            Some(ts)
        } else {
            None
        },
        None => None,
    }
}

/// The tokens of a text, if it can be read.
pub open spec fn lex_spec(s: Seq<char>) -> Option<Seq<TokV>> {
    match lex_from(s, 0) {
        Some(f) => nest(f),
        None => None,
    }
}

fn is_space_exec(c: char) -> (r: bool)
    ensures
        r == is_space(c),
{
    c == ' ' || c == '\t' || c == '\n' || c == '\r'
}

fn is_ident_start_exec(c: char) -> (r: bool)
    ensures
        r == is_ident_start(c),
{
    ('a' <= c && c <= 'z') || ('A' <= c && c <= 'Z') || c == '_' || c > '\u{7f}'
}

fn is_digit_exec(c: char) -> (r: bool)
    ensures
        r == is_digit(c),
{
    '0' <= c && c <= '9'
}

fn is_ident_continue_exec(c: char) -> (r: bool)
    ensures
        r == is_ident_continue(c),
{
    is_ident_start_exec(c) || is_digit_exec(c)
}

fn is_punct_char_exec(c: char) -> (r: bool)
    ensures
        r == is_punct_char(c),
{
    c == '~' || c == '!' || c == '@' || c == '#' || c == '$' || c == '%' || c == '^' || c == '&'
        || c == '*' || c == '-' || c == '=' || c == '+' || c == '|' || c == ';' || c == ':'
        || c == ',' || c == '<' || c == '.' || c == '>' || c == '/' || c == '?'
}

fn opener_exec(c: char) -> (r: Option<Delim>)
    ensures
        r == opener(c),
{
    if c == '(' {
        Some(Delim::Paren)
    } else if c == '[' {
        Some(Delim::Bracket)
    } else if c == '{' {
        Some(Delim::Brace)
    } else {
        None
    }
}

fn closer_exec(c: char) -> (r: Option<Delim>)
    ensures
        r == closer(c),
{
    if c == ')' {
        Some(Delim::Paren)
    } else if c == ']' {
        Some(Delim::Bracket)
    } else if c == '}' {
        Some(Delim::Brace)
    } else {
        None
    }
}

/// The characters of a text.
fn chars_of(text: &str) -> (v: Vec<char>)
    ensures
        v@ == text@,
{
    let n = text.unicode_len();
    let mut v: Vec<char> = Vec::new();
    let mut i: usize = 0;
    while i < n
        invariant
            n == text@.len(),
            i <= n,
            v@ == text@.take(i as int),
        decreases n - i,
    {
        v.push(text.get_char(i));
        assert(text@.take(i + 1) =~= text@.take(i as int).push(text@[i as int]));
        i = i + 1;
    }
    assert(text@.take(n as int) =~= text@);
    v
}

/// The string made of the characters `s[i..j]`.
fn substring(s: &Vec<char>, i: usize, j: usize) -> (r: String)
    requires
        i <= j <= s@.len(),
    ensures
        r@ == s@.subrange(i as int, j as int),
{
    let mut r = String::new();
    let mut k = i;
    while k < j
        invariant
            i <= k <= j,
            j <= s@.len(),
            r@ == s@.subrange(i as int, k as int),
        decreases j - k,
    {
        push_char(&mut r, s[k]);
        assert(s@.subrange(i as int, k + 1) =~= s@.subrange(i as int, k as int).push(s@[k as int]));
        k = k + 1;
    }
    r
}

fn ident_end_exec(s: &Vec<char>, j: usize) -> (r: usize)
    requires
        j <= s@.len(),
    ensures
        r == ident_end(s@, j as int),
        j <= r <= s@.len(),
{
    let mut k = j;
    while k < s.len() && is_ident_continue_exec(s[k])
        invariant
            j <= k <= s@.len(),
            ident_end(s@, j as int) == ident_end(s@, k as int),
        decreases s@.len() - k,
    {
        k = k + 1;
    }
    k
}

fn quoted_end_exec(s: &Vec<char>, j: usize) -> (r: Option<usize>)
    requires
        j <= s@.len(),
    ensures
        r matches Some(e) ==> quoted_end(s@, j as int) == Some(e as int) && j < e <= s@.len(),
        r is None ==> quoted_end(s@, j as int) is None,
{
    let n = s.len();
    let mut k = j;
    while k < n
        invariant
            n == s@.len(),
            j <= k <= s@.len(),
            quoted_end(s@, j as int) == quoted_end(s@, k as int),
        decreases s@.len() - k,
    {
        if s[k] == '"' {
            return Some(k + 1);
        } else if s[k] == '\\' {
            if k + 1 == n {
                return None;
            }
            k = k + 2;
        } else {
            k = k + 1;
        }
    }
    None
}

fn char_end_exec(s: &Vec<char>, j: usize) -> (r: Option<usize>)
    requires
        j <= s@.len(),
    ensures
        r matches Some(e) ==> char_end(s@, j as int) == Some(e as int) && j < e <= s@.len(),
        r is None ==> char_end(s@, j as int) is None,
{
    let n = s.len();
    let mut k = j;
    while k < n
        invariant
            n == s@.len(),
            j <= k <= s@.len(),
            char_end(s@, j as int) == char_end(s@, k as int),
        decreases s@.len() - k,
    {
        if s[k] == '\'' {
            return Some(k + 1);
        } else if s[k] == '\\' {
            if k + 1 == n {
                return None;
            }
            k = k + 2;
        } else {
            k = k + 1;
        }
    }
    None
}

fn hashes_from_exec(s: &Vec<char>, j: usize) -> (r: usize)
    requires
        j <= s@.len(),
    ensures
        r == hashes_from(s@, j as int),
        j + r <= s@.len(),
        forall|q: int| j <= q < j + r ==> s@[q] == '#',
{
    let mut k = j;
    while k < s.len() && s[k] == '#'
        invariant
            j <= k <= s@.len(),
            hashes_from(s@, j as int) == (k - j) + hashes_from(s@, k as int),
            forall|q: int| j <= q < k ==> s@[q] == '#',
        decreases s@.len() - k,
    {
        k = k + 1;
    }
    k - j
}

fn hashes_at_exec(s: &Vec<char>, p: usize, k: usize) -> (r: bool)
    requires
        p <= s@.len(),
    ensures
        r == hashes_at(s@, p as int, k as int),
{
    let n = s.len();
    if k > n - p {
        return false;
    }
    let mut q: usize = p;
    while q < p + k
        invariant
            n == s@.len(),
            p <= q <= p + k,
            p + k <= s@.len(),
            forall|x: int| p <= x < q ==> s@[x] == '#',
        decreases p + k - q,
    {
        if s[q] != '#' {
            return false;
        }
        q = q + 1;
    }
    true
}

fn raw_end_exec(s: &Vec<char>, j: usize, k: usize) -> (r: Option<usize>)
    requires
        j <= s@.len(),
    ensures
        r matches Some(e) ==> raw_end(s@, j as int, k as int) == Some(e as int) && j < e <= s@.len(),
        r is None ==> raw_end(s@, j as int, k as int) is None,
{
    let mut q = j;
    while q < s.len()
        invariant
            j <= q <= s@.len(),
            raw_end(s@, j as int, k as int) == raw_end(s@, q as int, k as int),
        decreases s@.len() - q,
    {
        if s[q] == '"' && hashes_at_exec(s, q + 1, k) {
            return Some(q + 1 + k);
        }
        q = q + 1;
    }
    None
}

/// Reads the token that starts at `i`.
fn lex_one_exec(s: &Vec<char>, i: usize) -> (r: Option<(Flat, usize)>)
    requires
        i < s@.len(),
    ensures
        r matches Some((t, j)) ==> lex_one(s@, i as int) == Some((t@, j as int)) && i < j <= s@.len(),
        r is None ==> lex_one(s@, i as int) is None,
{
    let n = s.len();
    let c = s[i];
    if c == 'r' {
        let k = hashes_from_exec(s, i + 1);
        if i + 1 + k < s.len() && s[i + 1 + k] == '"' {
            assert(is_raw_start(s@, i as int));
            match raw_end_exec(s, i + 2 + k, k) {
                Some(e) => {
                    return Some((Flat::Lit(substring(s, i, e)), e));
                },
                None => {
                    return None;
                },
            }
        }
    }
    assert(!is_raw_start(s@, i as int));
    if c == 'r' && n - i > 2 && s[i + 1] == '#' && is_ident_start_exec(s[i + 2]) {
        let j = ident_end_exec(s, i + 3);
        return Some((Flat::Ident(substring(s, i, j)), j));
    }
    assert(!is_raw_ident_start(s@, i as int));
    if is_ident_start_exec(c) {
        let j = ident_end_exec(s, i + 1);
        Some((Flat::Ident(substring(s, i, j)), j))
    } else if is_digit_exec(c) {
        let j0 = ident_end_exec(s, i + 1);
        let j = if n - j0 > 1 && s[j0] == '.' && is_digit_exec(s[j0 + 1]) {
            ident_end_exec(s, j0 + 2)
        } else {
            j0
        };
        Some((Flat::Lit(substring(s, i, j)), j))
    } else if c == '"' {
        match quoted_end_exec(s, i + 1) {
            Some(e) => Some((Flat::Lit(substring(s, i, e)), e)),
            None => None,
        }
    } else if c == '\'' {
        if n - i > 1 && s[i + 1] == '\\' {
            match char_end_exec(s, i + 1) {
                Some(e) => Some((Flat::Lit(substring(s, i, e)), e)),
                None => None,
            }
        } else if n - i > 2 && s[i + 2] == '\'' {
            Some((Flat::Lit(substring(s, i, i + 3)), i + 3))
        } else if n - i > 1 && is_ident_start_exec(s[i + 1]) {
            Some((Flat::Punct('\'', true), i + 1))
        } else {
            None
        }
    } else if let Some(d) = opener_exec(c) {
        Some((Flat::Open(d), i + 1))
    } else if let Some(d) = closer_exec(c) {
        Some((Flat::Close(d), i + 1))
    } else if is_punct_char_exec(c) {
        let joint = n - i > 1 && (is_punct_char_exec(s[i + 1]) || s[i + 1] == '\'');
        Some((Flat::Punct(c, joint), i + 1))
    } else {
        None
    }
}

/// The flat tokens of a text.
fn lex_flat(s: &Vec<char>) -> (r: Option<Vec<Flat>>)
    ensures
        r matches Some(v) ==> lex_from(s@, 0) == Some(flats_view(v@)),
        r is None ==> lex_from(s@, 0) is None,
{
    let mut out: Vec<Flat> = Vec::new();
    let mut i: usize = 0;
    while i < s.len()
        invariant
            i <= s@.len(),
            lex_from(s@, 0) == (match lex_from(s@, i as int) {
                Some(rest) => Some(flats_view(out@) + rest),
                None => None::<Seq<FlatV>>,
            }),
        decreases s@.len() - i,
    {
        if is_space_exec(s[i]) {
            i = i + 1;
        } else {
            match lex_one_exec(s, i) {
                None => {
                    return None;
                },
                Some((t, j)) => {
                    let ghost before = flats_view(out@);
                    let ghost tv = t@;
                    out.push(t);
                    proof {
                        assert(flats_view(out@) =~= before.push(tv));
                        match lex_from(s@, j as int) {
                            Some(rest) => {
                                assert(before + (seq![tv] + rest) =~= before.push(tv) + rest);
                            },
                            None => {},
                        }
                    }
                    i = j;
                },
            }
        }
    }
    proof {
        assert(flats_view(out@) + seq![] =~= flats_view(out@));
    }
    Some(out)
}

/// Reads tokens from `i` up to a closing delimiter or the end.
fn nest_seq_exec(f: &Vec<Flat>, i: usize) -> (r: Option<(Vec<Tok>, usize)>)
    requires
        i <= f@.len(),
    ensures
        r matches Some((ts, j)) ==> nest_seq(flats_view(f@), i as int) == Some((toks_view(ts@), j as int))
            && i <= j <= f@.len(),
        r is None ==> nest_seq(flats_view(f@), i as int) is None,
    decreases f@.len() - i, 1int,
{
    let ghost fv = flats_view(f@);
    let mut out: Vec<Tok> = Vec::new();
    let mut k = i;
    loop
        invariant
            i <= k <= f@.len(),
            fv == flats_view(f@),
            fv.len() == f@.len(),
            nest_seq(fv, i as int) == (match nest_seq(fv, k as int) {
                Some((rest, j)) => Some((toks_view(out@) + rest, j)),
                None => None::<(Seq<TokV>, int)>,
            }),
        decreases f@.len() - k,
    {
        if k == f.len() {
            assert(toks_view(out@) + seq![] =~= toks_view(out@));
            return Some((out, k));
        }
        if let Flat::Close(_) = &f[k] {
            assert(toks_view(out@) + seq![] =~= toks_view(out@));
            return Some((out, k));
        }
        match nest_one_exec(f, k) {
            None => {
                return None;
            },
            Some((t, k2)) => {
                let ghost before = toks_view(out@);
                let ghost tv = t@;
                push_tok(&mut out, t);
                proof {
                    match nest_seq(fv, k2 as int) {
                        Some((rest, j)) => {
                            assert(before + (seq![tv] + rest) =~= before.push(tv) + rest);
                        },
                        None => {},
                    }
                }
                k = k2;
            },
        }
    }
}

/// Reads the token that starts at `i`, a whole group if it is an opening delimiter.
fn nest_one_exec(f: &Vec<Flat>, i: usize) -> (r: Option<(Tok, usize)>)
    requires
        i < f@.len(),
    ensures
        r matches Some((t, j)) ==> nest_one(flats_view(f@), i as int) == Some((t@, j as int)) && i < j <= f@.len(),
        r is None ==> nest_one(flats_view(f@), i as int) is None,
    decreases f@.len() - i, 0int,
{
    let ghost fv = flats_view(f@);
    let n = f.len();
    assert(fv[i as int] == f@[i as int]@);
    match &f[i] {
        Flat::Ident(s) => Some((Tok::Ident(s.clone()), i + 1)),
        Flat::Punct(c, j) => Some((Tok::Punct(*c, *j), i + 1)),
        Flat::Lit(s) => Some((Tok::Lit(s.clone()), i + 1)),
        Flat::Close(_) => None,
        Flat::Open(d) => {
            match nest_seq_exec(f, i + 1) {
                None => None,
                Some((inner, j)) => {
                    if j < f.len() {
                        let closes = match &f[j] {
                            Flat::Close(d2) => *d2 == *d,
                            _ => false,
                        };
                        if closes {
                            assert(fv[j as int] == FlatV::Close(*d));
                            Some((Tok::Group(*d, inner), j + 1))
                        } else {
                            None
                        }
                    } else {
                        None
                    }
                },
            }
        },
    }
}

/// The token tree of a text, if it can be read and its delimiters match.
pub fn lex(text: &str) -> (r: Option<Vec<Tok>>)
    ensures
        r matches Some(ts) ==> lex_spec(text@) == Some(toks_view(ts@)),
        r is None ==> lex_spec(text@) is None,
{
    let s = chars_of(text);
    match lex_flat(&s) {
        None => None,
        Some(f) => {
            match nest_seq_exec(&f, 0) {
                None => None,
                Some((ts, j)) => {
                    if j == f.len() {
                        Some(ts)
                    } else {
                        None
                    }
                },
            }
        },
    }
}

} // verus!
