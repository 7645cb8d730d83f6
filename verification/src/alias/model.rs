//! Aliases: named commands with a description and an optional working directory.
use vstd::prelude::*;
use crate::util::key_map::{KeyMap, has_key, lookup};
use crate::util::scan::{
    ws_end, quote_or_newline_end, tokens_from, string_views, scan_to_white_space,
    scan_to_quote_or_newline, split_tokens, lemma_ws_end_bounds,
    lemma_quote_or_newline_end_bounds, is_plain_word, join_words, lemma_join_words_shape,
    lemma_ws_end_run, lemma_tokens_of_words, lemma_quoted_argument,
    lemma_quote_or_newline_end_run,
};
use crate::util::text::{is_white_space, white_space, chars_of, string_of_range};

verus! {

/// What an alias runs.
#[derive(Debug, PartialEq, Eq)]
pub struct Details {
    pub command: String,
    pub description: String,
    pub directory: Option<String>,
}

impl Clone for Details {
    fn clone(&self) -> (r: Self)
        ensures
            r == *self,
    {
        let directory = match &self.directory {
            Some(d) => Some(d.clone()),
            None => None,
        };
        Details {
            command: self.command.clone(),
            description: self.description.clone(),
            directory,
        }
    }
}

/// After trimming white space from both ends, `s` still holds a space
/// character.
pub open spec fn has_inner_space(s: Seq<char>) -> bool {
    exists|i: int|
        0 <= i < s.len() && s[i] == ' ' && (exists|j: int| 0 <= j < i && !is_white_space(s[j]))
            && (exists|k: int| i < k < s.len() && !is_white_space(s[k]))
}

/// The text between a leading `"` and the next `"`, when no line feed comes
/// first (the group of `^"(.*?)".*`); empty when there is no such quote.
pub open spec fn quoted_head(s: Seq<char>) -> Seq<char> {
    let q = quote_or_newline_end(s, 1);
    if s.len() > 0 && s[0] == '"' && q < s.len() && s[q] == '"' {
        s.subrange(1, q)
    } else {
        Seq::empty()
    }
}

/// The program of a command line: the whole line when it has no inner space;
/// else the non-empty quoted text it starts with; else everything before its
/// first white space (the group of `^(.*?)\s`).
pub open spec fn command_name(s: Seq<char>) -> Seq<char> {
    if !has_inner_space(s) {
        s
    } else if quoted_head(s).len() > 0 {
        quoted_head(s)
    } else {
        s.subrange(0, ws_end(s, 0))
    }
}

/// The arguments of a command line: all its tokens but the first.
pub open spec fn command_arguments(s: Seq<char>) -> Seq<Seq<char>> {
    let t = tokens_from(s, 0);
    if t.len() == 0 {
        t
    } else {
        t.subrange(1, t.len() as int)
    }
}

/// A command made of plain words joined by single spaces splits back into its
/// words: the program is the first word and the arguments are the others.
pub proof fn lemma_program_and_arguments_of_words(ws: Seq<Seq<char>>)
    requires
        ws.len() > 0,
        forall|k: int| 0 <= k < ws.len() ==> is_plain_word(#[trigger] ws[k]),
    ensures
        seq![command_name(join_words(ws))] + command_arguments(join_words(ws)) == ws,
{
    let s = join_words(ws);
    let w = ws[0];
    let l = w.len() as int;
    assert(is_plain_word(ws[0]));
    lemma_join_words_shape(ws);
    assert(s.subrange(0, s.len() as int) =~= s);
    lemma_tokens_of_words(s, 0, ws);
    assert forall|m: int| 0 <= m < l implies !is_white_space(#[trigger] s[m]) && s[m] != '"' by {
        assert(s[m] == w[m]);
    }
    if ws.len() == 1 {
        assert(!has_inner_space(s)) by {
            if has_inner_space(s) {
                let i = choose|i: int|
                    0 <= i < s.len() && s[i] == ' ' && (exists|j: int|
                        0 <= j < i && !is_white_space(s[j])) && (exists|k: int|
                        i < k < s.len() && !is_white_space(s[k]));
                assert(!is_white_space(s[i]));
            }
        }
        assert(s =~= w);
    } else {
        let rest = ws.subrange(1, ws.len() as int);
        assert(is_plain_word(ws[1]));
        assert(rest[0] == ws[1]);
        lemma_join_words_shape(rest);
        let rs = join_words(rest);
        assert(s.subrange(l + 1, s.len() as int) == rs);
        assert(s[l + 1] == rs[0]);
        assert(rs[0] == ws[1][0]);
        assert(!is_white_space(s[l + 1]));
        assert(!is_white_space(s[0]));
        assert(s[l] == ' ');
        assert(has_inner_space(s));
        assert(quoted_head(s).len() == 0);
        lemma_ws_end_run(s, 0, l);
        assert(s.subrange(0, l) =~= w);
    }
    assert(seq![w] + ws.subrange(1, ws.len() as int) =~= ws);
}

/// A line that starts with a quoted text holding a space, closed before any
/// line feed, runs the quoted text, whatever follows the closing quote (also
/// nothing).
pub proof fn lemma_quoted_program(w: Seq<char>, t: Seq<char>)
    requires
        w.contains(' '),
        !w.contains('"'),
        !w.contains('\n'),
    ensures
        command_name(seq!['"'] + w + seq!['"'] + t) == w,
{
    let s = seq!['"'] + w + seq!['"'] + t;
    let l = w.len() as int;
    assert forall|m: int| 1 <= m < l + 1 implies #[trigger] s[m] != '"' && s[m] != '\n' by {
        assert(s[m] == w[m - 1]);
        if s[m] == '"' || s[m] == '\n' {
            assert(w.contains(w[m - 1]));
        }
    }
    assert(s[l + 1] == '"');
    lemma_quote_or_newline_end_run(s, 1, l + 1);
    let i = choose|i: int| 0 <= i < w.len() && w[i] == ' ';
    assert(s[i + 1] == ' ');
    assert(!is_white_space(s[0]));
    assert(!is_white_space(s[l + 1]));
    assert(has_inner_space(s));
    assert(s.subrange(1, l + 1) =~= w);
}

/// A program word followed by one quoted argument has that quoted argument,
/// whole and whatever its length, as its only argument.
pub proof fn lemma_quoted_argument_kept_whole(p: Seq<char>, w: Seq<char>)
    requires
        is_plain_word(p),
        w.len() > 0,
        !w.contains('"'),
    ensures
        command_arguments(p + seq![' '] + (seq!['"'] + w + seq!['"'])) == seq![
            seq!['"'] + w + seq!['"'],
        ],
{
    let arg = seq!['"'] + w + seq!['"'];
    lemma_quoted_argument(p, w);
    assert(seq![p, arg].subrange(1, 2) =~= seq![arg]);
}

/// Decides `has_inner_space`.
pub fn inner_space(s: &Vec<char>) -> (r: bool)
    ensures
        r == has_inner_space(s@),
{
    let n = s.len();
    let mut lo: usize = 0;
    while lo < n && white_space(s[lo])
        invariant
            n == s@.len(),
            lo <= n,
            forall|j: int| 0 <= j < lo ==> is_white_space(#[trigger] s@[j]),
        decreases n - lo,
    {
        lo = lo + 1;
    }
    if lo == n {
        return false;
    }
    let mut hi: usize = n - 1;
    while white_space(s[hi])
        invariant
            n == s@.len(),
            lo < n,
            lo <= hi < n,
            !is_white_space(s@[lo as int]),
            forall|k: int| hi < k < n ==> is_white_space(#[trigger] s@[k]),
        decreases hi,
    {
        hi = hi - 1;
    }
    let mut i: usize = lo + 1;
    while i < hi
        invariant
            n == s@.len(),
            lo < i,
            lo <= hi < n,
            i <= hi || i == lo + 1,
            !is_white_space(s@[lo as int]),
            !is_white_space(s@[hi as int]),
            forall|j: int| 0 <= j < lo ==> is_white_space(#[trigger] s@[j]),
            forall|k: int| hi < k < n ==> is_white_space(#[trigger] s@[k]),
            forall|m: int| lo < m < i ==> #[trigger] s@[m] != ' ',
        decreases hi - i,
    {
        if s[i] == ' ' {
            assert(0 <= lo < i && !is_white_space(s@[lo as int]));
            assert(i < hi < n && !is_white_space(s@[hi as int]));
            return true;
        }
        i = i + 1;
    }
    assert forall|m: int|
        0 <= m < n && s@[m] == ' ' && (exists|j: int| 0 <= j < m && !is_white_space(s@[j])) && (
        exists|k: int| m < k < n && !is_white_space(s@[k])) implies false by {
        let j = choose|j: int| 0 <= j < m && !is_white_space(s@[j]);
        let k = choose|k: int| m < k < n && !is_white_space(s@[k]);
        assert(j >= lo);
        assert(k <= hi);
        assert(is_white_space(s@[m]));
    }
    false
}

impl Details {
    /// The program that the command runs (see `command_name`).
    pub fn get_command_without_parameters(&self) -> (r: String)
        ensures
            r@ == command_name(self.command@),
    {
        let cs = chars_of(self.command.as_str());
        if !inner_space(&cs) {
            return self.command.clone();
        }
        proof {
            lemma_quote_or_newline_end_bounds(cs@, 1);
            lemma_ws_end_bounds(cs@, 0);
        }
        if cs.len() > 0 && cs[0] == '"' {
            let q = scan_to_quote_or_newline(&cs, 1);
            if q < cs.len() && cs[q] == '"' && q > 1 {
                return string_of_range(&cs, 1, q);
            }
        }
        let w = scan_to_white_space(&cs, 0);
        string_of_range(&cs, 0, w)
    }

    /// The arguments that the command passes (see `command_arguments`).
    pub fn get_command_arguments(&self) -> (r: Vec<String>)
        ensures
            string_views(r@) == command_arguments(self.command@),
    {
        let cs = chars_of(self.command.as_str());
        let tokens = split_tokens(&cs);
        let mut args: Vec<String> = Vec::new();
        if tokens.len() == 0 {
            assert(string_views(args@) =~= command_arguments(cs@));
            return args;
        }
        let mut i: usize = 1;
        assert(string_views(args@) =~= string_views(tokens@).subrange(1, 1));
        while i < tokens.len()
            invariant
                1 <= i <= tokens@.len(),
                string_views(tokens@) == tokens_from(cs@, 0),
                string_views(args@) == string_views(tokens@).subrange(1, i as int),
            decreases tokens@.len() - i,
        {
            let ghost before = string_views(args@);
            args.push(tokens[i].clone());
            assert(string_views(args@) =~= before.push(tokens@[i as int]@));
            assert(string_views(tokens@).subrange(1, i + 1) =~= string_views(tokens@).subrange(
                1,
                i as int,
            ).push(tokens@[i as int]@));
            i = i + 1;
        }
        assert(string_views(args@) =~= command_arguments(cs@));
        args
    }
}

/// A group of aliases, each under its name.
#[derive(Debug, PartialEq, Eq)]
pub enum Alias {
    Commands(KeyMap<Details>),
}

impl Alias {
    /// The aliases, by name.
    pub open spec fn commands(&self) -> KeyMap<Details> {
        match self {
            Alias::Commands(m) => *m,
        }
    }

    /// Whether an alias is named `alias_key`.
    pub fn is_key_exists(&self, alias_key: &str) -> (r: bool)
        ensures
            r == has_key(self.commands()@, alias_key@),
    {
        match self {
            Alias::Commands(value) => value.contains_key(alias_key),
        }
    }

    /// A copy of what the alias `alias_key` runs, if there is such an alias.
    pub fn get_details_for(&self, alias_key: &str) -> (r: Option<Details>)
        ensures
            r == lookup(self.commands()@, alias_key@),
    {
        match self {
            Alias::Commands(value) => match value.get(alias_key) {
                Some(d) => Some(d.clone()),
                None => None,
            },
        }
    }
}

} // verus!
