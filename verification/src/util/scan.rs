//! Scanning character sequences: where the next white space or quote stands,
//! how a command line splits into tokens.
use vstd::prelude::*;
use crate::util::text::{is_white_space, white_space, string_of_range};

verus! {

/// The first position at or after `i` that holds white space, or the length.
pub open spec fn ws_end(s: Seq<char>, i: int) -> int
    decreases s.len() - i,
{
    if i >= s.len() {
        s.len() as int
    } else if is_white_space(s[i]) {
        i
    } else {
        ws_end(s, i + 1)
    }
}

/// The first position at or after `i` that holds `"`, or the length.
pub open spec fn quote_end(s: Seq<char>, i: int) -> int
    decreases s.len() - i,
{
    if i >= s.len() {
        s.len() as int
    } else if s[i] == '"' {
        i
    } else {
        quote_end(s, i + 1)
    }
}

/// The first position at or after `i` that holds `"` or a line feed, or the length.
pub open spec fn quote_or_newline_end(s: Seq<char>, i: int) -> int
    decreases s.len() - i,
{
    if i >= s.len() {
        s.len() as int
    } else if s[i] == '"' || s[i] == '\n' {
        i
    } else {
        quote_or_newline_end(s, i + 1)
    }
}

/// `ws_end` stops within the text, after a run of characters that are not
/// white space, at a white space character or at the end.
pub proof fn lemma_ws_end_bounds(s: Seq<char>, i: int)
    requires
        0 <= i <= s.len(),
    ensures
        i <= ws_end(s, i) <= s.len(),
        forall|j: int| i <= j < ws_end(s, i) ==> !is_white_space(#[trigger] s[j]),
        ws_end(s, i) < s.len() ==> is_white_space(s[ws_end(s, i)]),
    decreases s.len() - i,
{
    if i < s.len() && !is_white_space(s[i]) {
        lemma_ws_end_bounds(s, i + 1);
    }
}

/// `quote_end` stops within the text, after a run without `"`, at a `"` or
/// at the end.
pub proof fn lemma_quote_end_bounds(s: Seq<char>, i: int)
    requires
        0 <= i <= s.len(),
    ensures
        i <= quote_end(s, i) <= s.len(),
        forall|j: int| i <= j < quote_end(s, i) ==> #[trigger] s[j] != '"',
        quote_end(s, i) < s.len() ==> s[quote_end(s, i)] == '"',
    decreases s.len() - i,
{
    if i < s.len() && s[i] != '"' {
        lemma_quote_end_bounds(s, i + 1);
    }
}

/// `quote_or_newline_end` stops within the text.
pub proof fn lemma_quote_or_newline_end_bounds(s: Seq<char>, i: int)
    requires
        0 <= i <= s.len(),
    ensures
        i <= quote_or_newline_end(s, i) <= s.len(),
    decreases s.len() - i,
{
    if i < s.len() && s[i] != '"' && s[i] != '\n' {
        lemma_quote_or_newline_end_bounds(s, i + 1);
    }
}

/// Finds `ws_end(s, i)`.
pub fn scan_to_white_space(s: &Vec<char>, i: usize) -> (r: usize)
    requires
        i <= s@.len(),
    ensures
        r == ws_end(s@, i as int),
{
    let mut j = i;
    while j < s.len() && !white_space(s[j])
        invariant
            i <= j <= s@.len(),
            ws_end(s@, j as int) == ws_end(s@, i as int),
        decreases s@.len() - j,
    {
        j = j + 1;
    }
    j
}

/// Finds `quote_end(s, i)`.
pub fn scan_to_quote(s: &Vec<char>, i: usize) -> (r: usize)
    requires
        i <= s@.len(),
    ensures
        r == quote_end(s@, i as int),
{
    let mut j = i;
    while j < s.len() && s[j] != '"'
        invariant
            i <= j <= s@.len(),
            quote_end(s@, j as int) == quote_end(s@, i as int),
        decreases s@.len() - j,
    {
        j = j + 1;
    }
    j
}

/// Finds `quote_or_newline_end(s, i)`.
pub fn scan_to_quote_or_newline(s: &Vec<char>, i: usize) -> (r: usize)
    requires
        i <= s@.len(),
    ensures
        r == quote_or_newline_end(s@, i as int),
{
    let mut j = i;
    while j < s.len() && s[j] != '"' && s[j] != '\n'
        invariant
            i <= j <= s@.len(),
            quote_or_newline_end(s@, j as int) == quote_or_newline_end(s@, i as int),
        decreases s@.len() - j,
    {
        j = j + 1;
    }
    j
}

/// Where the token that starts at `i` (a character that is not white space)
/// ends. A `"` followed by at least one other character and a closing `"`
/// makes a quoted token up to and with that closing quote; any other token runs
/// up to the next white space. These are the matches of the regular expression
/// `("[^"]+")|\S+`, tried in that order at the start of the token.
pub open spec fn token_end(s: Seq<char>, i: int) -> int {
    let q = quote_end(s, i + 1);
    if s[i] == '"' && q < s.len() && q >= i + 2 {
        q + 1
    } else {
        ws_end(s, i)
    }
}

/// A token is never empty and never runs past the end of the text.
pub proof fn lemma_token_end_bounds(s: Seq<char>, i: int)
    requires
        0 <= i < s.len(),
        !is_white_space(s[i]),
    ensures
        i < token_end(s, i) <= s.len(),
{
    lemma_quote_end_bounds(s, i + 1);
    lemma_ws_end_bounds(s, i + 1);
}

/// The tokens of `s` from position `i` on, in order: the successive
/// non-overlapping matches of `("[^"]+")|\S+`, each the leftmost one after the
/// previous.
pub open spec fn tokens_from(s: Seq<char>, i: int) -> Seq<Seq<char>>
    decreases s.len() - i,
{
    if i < 0 || i >= s.len() {
        Seq::empty()
    } else if is_white_space(s[i]) {
        tokens_from(s, i + 1)
    } else {
        proof {
            lemma_token_end_bounds(s, i);
        }
        seq![s.subrange(i, token_end(s, i))] + tokens_from(s, token_end(s, i))
    }
}

/// The views of a sequence of strings.
pub open spec fn string_views(a: Seq<String>) -> Seq<Seq<char>> {
    a.map_values(|s: String| s@)
}

/// Finds `token_end(s, i)`.
pub fn scan_token(s: &Vec<char>, i: usize) -> (r: usize)
    requires
        i < s.len(),
        !is_white_space(s@[i as int]),
    ensures
        r == token_end(s@, i as int),
        i < r <= s@.len(),
{
    proof {
        lemma_token_end_bounds(s@, i as int);
    }
    if s[i] == '"' {
        let q = scan_to_quote(s, i + 1);
        if q < s.len() && q > i + 1 {
            return q + 1;
        }
    }
    scan_to_white_space(s, i)
}

/// Splits `s` into its tokens (see `tokens_from`).
pub fn split_tokens(s: &Vec<char>) -> (r: Vec<String>)
    ensures
        string_views(r@) == tokens_from(s@, 0),
{
    let n = s.len();
    let mut out: Vec<String> = Vec::new();
    let mut i: usize = 0;
    while i < n
        invariant
            n == s@.len(),
            i <= n,
            string_views(out@) + tokens_from(s@, i as int) == tokens_from(s@, 0),
        decreases n - i,
    {
        if white_space(s[i]) {
            i = i + 1;
        } else {
            let e = scan_token(s, i);
            let t = string_of_range(s, i, e);
            let ghost before = string_views(out@);
            out.push(t);
            assert(string_views(out@) =~= before.push(s@.subrange(i as int, e as int)));
            assert(tokens_from(s@, i as int) == seq![s@.subrange(i as int, e as int)]
                + tokens_from(s@, e as int));
            assert(string_views(out@) + tokens_from(s@, e as int) =~= before + tokens_from(
                s@,
                i as int,
            ));
            i = e;
        }
    }
    assert(tokens_from(s@, n as int) =~= Seq::<Seq<char>>::empty());
    assert(string_views(out@) + Seq::<Seq<char>>::empty() =~= string_views(out@));
    out
}

/// A plain word: not empty, and holding neither white space nor `"`.
pub open spec fn is_plain_word(w: Seq<char>) -> bool {
    w.len() > 0 && forall|i: int| 0 <= i < w.len() ==> !is_white_space(#[trigger] w[i]) && w[i] != '"'
}

/// Words joined by single spaces.
pub open spec fn join_words(ws: Seq<Seq<char>>) -> Seq<char>
    decreases ws.len(),
{
    if ws.len() == 0 {
        Seq::empty()
    } else if ws.len() == 1 {
        ws[0]
    } else {
        ws[0] + seq![' '] + join_words(ws.subrange(1, ws.len() as int))
    }
}

/// Joined words start with the first word; with more words a space follows
/// it, then the rest joined.
pub proof fn lemma_join_words_shape(ws: Seq<Seq<char>>)
    requires
        ws.len() > 0,
    ensures
        join_words(ws).len() >= ws[0].len(),
        forall|m: int| 0 <= m < ws[0].len() ==> #[trigger] join_words(ws)[m] == ws[0][m],
        ws.len() == 1 ==> join_words(ws).len() == ws[0].len(),
        ws.len() > 1 ==> join_words(ws)[ws[0].len() as int] == ' ',
        ws.len() > 1 ==> join_words(ws).subrange(ws[0].len() + 1int, join_words(ws).len() as int)
            == join_words(ws.subrange(1, ws.len() as int)),
{
    if ws.len() > 1 {
        let j = join_words(ws);
        assert(j == ws[0] + seq![' '] + join_words(ws.subrange(1, ws.len() as int)));
        assert(j.subrange(ws[0].len() + 1int, j.len() as int) =~= join_words(
            ws.subrange(1, ws.len() as int),
        ));
    }
}

/// `ws_end` from inside a run of non-white-space characters that ends at `e`
/// (at white space or the end) is `e`.
pub proof fn lemma_ws_end_run(s: Seq<char>, j: int, e: int)
    requires
        0 <= j <= e <= s.len(),
        forall|m: int| j <= m < e ==> !is_white_space(#[trigger] s[m]),
        e == s.len() || is_white_space(s[e]),
    ensures
        ws_end(s, j) == e,
    decreases e - j,
{
    if j < e {
        lemma_ws_end_run(s, j + 1, e);
    }
}

/// `quote_end` from inside a run without `"` that ends at a `"` at `e` is `e`.
pub proof fn lemma_quote_end_run(s: Seq<char>, j: int, e: int)
    requires
        0 <= j <= e < s.len(),
        forall|m: int| j <= m < e ==> #[trigger] s[m] != '"',
        s[e] == '"',
    ensures
        quote_end(s, j) == e,
    decreases e - j,
{
    if j < e {
        lemma_quote_end_run(s, j + 1, e);
    }
}

/// `quote_or_newline_end` from inside a run without `"` or line feed that ends
/// at a `"` at `e` is `e`.
pub proof fn lemma_quote_or_newline_end_run(s: Seq<char>, j: int, e: int)
    requires
        0 <= j <= e < s.len(),
        forall|m: int| j <= m < e ==> #[trigger] s[m] != '"' && s[m] != '\n',
        s[e] == '"',
    ensures
        quote_or_newline_end(s, j) == e,
    decreases e - j,
{
    if j < e {
        lemma_quote_or_newline_end_run(s, j + 1, e);
    }
}

/// A quoted token runs to its closing quote, however long it is: at a `"`
/// whose next `"` stands at `q`, with at least one character between them,
/// the first token is the text from the opening to the closing quote, and the
/// tokens go on after it.
pub proof fn lemma_quoted_token(s: Seq<char>, i: int, q: int)
    requires
        0 <= i,
        i + 2 <= q < s.len(),
        s[i] == '"',
        s[q] == '"',
        forall|m: int| i < m < q ==> #[trigger] s[m] != '"',
    ensures
        tokens_from(s, i) == seq![s.subrange(i, q + 1)] + tokens_from(s, q + 1),
{
    lemma_quote_end_run(s, i + 1, q);
    assert(!is_white_space(s[i]));
    lemma_token_end_bounds(s, i);
    assert(token_end(s, i) == q + 1);
}

/// A program word followed by one quoted argument gives that quoted argument,
/// whole, as the only argument.
pub proof fn lemma_quoted_argument(p: Seq<char>, w: Seq<char>)
    requires
        is_plain_word(p),
        w.len() > 0,
        !w.contains('"'),
    ensures
        ({
            let arg = seq!['"'] + w + seq!['"'];
            tokens_from(p + seq![' '] + arg, 0) == seq![p, arg]
        }),
{
    let arg = seq!['"'] + w + seq!['"'];
    let s = p + seq![' '] + arg;
    let l = p.len() as int;
    let q = s.len() - 1;
    assert forall|m: int| 0 <= m < l implies !is_white_space(#[trigger] s[m]) by {
        assert(s[m] == p[m]);
    }
    assert(s[l] == ' ');
    lemma_ws_end_run(s, 0, l);
    lemma_token_end_bounds(s, 0);
    assert(s[0] == p[0]);
    assert(s[0] != '"');
    assert(token_end(s, 0) == l);
    assert(s.subrange(0, l) =~= p);
    assert(tokens_from(s, 0) == seq![p] + tokens_from(s, l));
    assert(tokens_from(s, l) == tokens_from(s, l + 1));
    assert forall|m: int| l + 1 < m < q implies #[trigger] s[m] != '"' by {
        assert(s[m] == w[m - l - 2]);
        if s[m] == '"' {
            assert(w.contains(w[m - l - 2]));
        }
    }
    lemma_quoted_token(s, l + 1, q);
    assert(s.subrange(l + 1, q + 1) =~= arg);
    assert(tokens_from(s, q + 1) == Seq::<Seq<char>>::empty());
    assert(seq![p] + (seq![arg] + Seq::<Seq<char>>::empty()) =~= seq![p, arg]);
}

/// The tokens of plain words joined by spaces are the words themselves.
pub proof fn lemma_tokens_of_words(s: Seq<char>, i: int, ws: Seq<Seq<char>>)
    requires
        0 <= i <= s.len(),
        ws.len() > 0,
        forall|k: int| 0 <= k < ws.len() ==> is_plain_word(#[trigger] ws[k]),
        s.subrange(i, s.len() as int) == join_words(ws),
    ensures
        tokens_from(s, i) == ws,
    decreases ws.len(),
{
    let w = ws[0];
    let l = w.len() as int;
    let t = s.subrange(i, s.len() as int);
    assert(is_plain_word(ws[0]));
    lemma_join_words_shape(ws);
    assert forall|m: int| 0 <= m < l implies s[i + m] == #[trigger] w[m] by {
        assert(t[m] == s[i + m]);
        assert(join_words(ws)[m] == w[m]);
    }
    assert(s[i] == w[0]) by {
        assert(s[i + 0] == w[0]);
    }
    assert(!is_white_space(s[i]) && s[i] != '"');
    assert forall|m: int| i <= m < i + l implies !is_white_space(#[trigger] s[m]) by {
        assert(s[i + (m - i)] == w[m - i]);
        assert(!is_white_space(w[m - i]));
    }
    if ws.len() > 1 {
        assert(t[l] == s[i + l]);
    }
    lemma_ws_end_run(s, i, i + l);
    lemma_token_end_bounds(s, i);
    assert(token_end(s, i) == i + l);
    assert(s.subrange(i, i + l) =~= w);
    assert(tokens_from(s, i) == seq![w] + tokens_from(s, i + l));
    if ws.len() == 1 {
        assert(tokens_from(s, i + l) == Seq::<Seq<char>>::empty());
        assert(seq![w] + Seq::<Seq<char>>::empty() =~= ws);
    } else {
        let rest = ws.subrange(1, ws.len() as int);
        assert(tokens_from(s, i + l) == tokens_from(s, i + l + 1));
        assert(s.subrange(i + l + 1, s.len() as int) =~= t.subrange(l + 1, t.len() as int));
        assert forall|k: int| 0 <= k < rest.len() implies is_plain_word(#[trigger] rest[k]) by {
            assert(rest[k] == ws[k + 1]);
        }
        lemma_tokens_of_words(s, i + l + 1, rest);
        assert(seq![w] + rest =~= ws);
    }
}

} // verus!
