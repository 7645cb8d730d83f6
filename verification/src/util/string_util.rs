//! String helpers: padding and command personalisation.
use vstd::prelude::*;
use crate::util::expand::{
    expand, expansion_safe, ExpandError, has_no_variable, has_no_leading_tilde,
};
use crate::util::pattern::{regex_is_match, regex_compiles, regex_matches};
use crate::util::scan::string_views;
use crate::util::text::{push_char, chars_of, contains_char, decimal, decimal_string};

verus! {

/// `n` copies of the character `c`.
pub open spec fn repeat_char(c: char, n: nat) -> Seq<char> {
    Seq::new(n, |i: int| c)
}

/// Prefixes `s` with `pad` copies of `padchar`.
pub fn left_pad(s: &str, pad: usize, padchar: char) -> (r: String)
    ensures
        r@ == repeat_char(padchar, pad as nat) + s@,
{
    let mut ret = String::new();
    let mut i: usize = 0;
    while i < pad
        invariant
            i <= pad,
            ret@ == repeat_char(padchar, i as nat),
        decreases pad - i,
    {
        push_char(&mut ret, padchar);
        i = i + 1;
        assert(ret@ =~= repeat_char(padchar, i as nat));
    }
    ret.append(s);
    ret
}

/// `p` is a prefix of `s`.
pub open spec fn starts_with(s: Seq<char>, p: Seq<char>) -> bool {
    p.len() <= s.len() && s.subrange(0, p.len() as int) == p
}

/// `s` with every occurrence of the non-empty `pat` replaced by `rep`,
/// scanning from the left and never overlapping (the behaviour of `str::replace`).
pub open spec fn replace_all(s: Seq<char>, pat: Seq<char>, rep: Seq<char>) -> Seq<char>
    decreases s.len(),
{
    if s.len() == 0 {
        s
    } else if pat.len() > 0 && starts_with(s, pat) {
        rep + replace_all(s.subrange(pat.len() as int, s.len() as int), pat, rep)
    } else {
        seq![s[0]] + replace_all(s.subrange(1, s.len() as int), pat, rep)
    }
}

/// Whether `pat` occurs in `s` at position `i`.
fn occurs_at(s: &Vec<char>, i: usize, pat: &Vec<char>) -> (r: bool)
    requires
        i <= s@.len(),
    ensures
        r == starts_with(s@.subrange(i as int, s@.len() as int), pat@),
{
    if pat.len() > s.len() - i {
        return false;
    }
    let mut j: usize = 0;
    while j < pat.len()
        invariant
            i + pat@.len() <= s.len(),
            j <= pat@.len(),
            forall|k: int| 0 <= k < j ==> s@[i + k] == pat@[k],
        decreases pat@.len() - j,
    {
        if s[i + j] != pat[j] {
            assert(s@.subrange(i as int, s@.len() as int).subrange(0, pat@.len() as int)[j as int]
                != pat@[j as int]);
            return false;
        }
        j = j + 1;
    }
    assert(s@.subrange(i as int, s@.len() as int).subrange(0, pat@.len() as int) =~= pat@);
    true
}

/// Replaces every occurrence of `pat` in `s` by `rep`.
pub fn replace_all_occurrences(s: &str, pat: &str, rep: &str) -> (r: String)
    requires
        pat@.len() > 0,
    ensures
        r@ == replace_all(s@, pat@, rep@),
{
    let sc = chars_of(s);
    let pc = chars_of(pat);
    let n = sc.len();
    let mut out = String::new();
    let mut i: usize = 0;
    assert(sc@.subrange(0, n as int) =~= sc@);
    while i < n
        invariant
            n == sc@.len(),
            sc@ == s@,
            pc@ == pat@,
            pat@.len() > 0,
            i <= n,
            out@ + replace_all(sc@.subrange(i as int, n as int), pat@, rep@) == replace_all(
                s@,
                pat@,
                rep@,
            ),
        decreases n - i,
    {
        let ghost rest = sc@.subrange(i as int, n as int);
        if occurs_at(&sc, i, &pc) {
            out.append(rep);
            assert(rest.subrange(pat@.len() as int, rest.len() as int) =~= sc@.subrange(
                i + pat@.len(),
                n as int,
            ));
            i = i + pc.len();
        } else {
            push_char(&mut out, sc[i]);
            assert(rest.subrange(1, rest.len() as int) =~= sc@.subrange(i + 1, n as int));
            i = i + 1;
        }
    }
    assert(sc@.subrange(n as int, n as int) =~= Seq::<char>::empty());
    assert(out@ + Seq::<char>::empty() =~= out@);
    out
}

/// The placeholder `{n}` that stands for the `n`-th parameter.
pub open spec fn placeholder(n: nat) -> Seq<char> {
    seq!['{'] + decimal(n) + seq!['}']
}

/// Writes the placeholder `{n}`.
pub fn placeholder_string(n: usize) -> (r: String)
    ensures
        r@ == placeholder(n as nat),
{
    let mut r = String::new();
    push_char(&mut r, '{');
    let d = decimal_string(n);
    r.append(d.as_str());
    push_char(&mut r, '}');
    assert(r@ =~= placeholder(n as nat));
    r
}

/// `command` after replacing `{1}` by `args[0]`, then `{2}` by `args[1]`, and so
/// on for the first `k` parameters; each step works on the outcome of the one
/// before.
pub open spec fn substitute(command: Seq<char>, args: Seq<Seq<char>>, k: nat) -> Seq<char>
    decreases k,
{
    if k == 0 {
        command
    } else {
        replace_all(substitute(command, args, (k - 1) as nat), placeholder(k), args[k - 1])
    }
}

/// `command` with every parameter put in for its placeholder.
pub open spec fn substituted(command: Seq<char>, args: Seq<Seq<char>>) -> Seq<char> {
    substitute(command, args, args.len())
}

/// Replacing a pattern that starts with a character absent from `s` leaves
/// `s` as it is.
pub proof fn lemma_replace_absent(s: Seq<char>, pat: Seq<char>, rep: Seq<char>)
    requires
        pat.len() > 0,
        !s.contains(pat[0]),
    ensures
        replace_all(s, pat, rep) == s,
    decreases s.len(),
{
    if s.len() > 0 {
        let rest = s.subrange(1, s.len() as int);
        assert(s[0] != pat[0]);
        assert(!starts_with(s, pat)) by {
            if starts_with(s, pat) {
                assert(s.subrange(0, pat.len() as int)[0] == pat[0]);
            }
        }
        assert(!rest.contains(pat[0])) by {
            if rest.contains(pat[0]) {
                let j = choose|j: int| 0 <= j < rest.len() && rest[j] == pat[0];
                assert(s[j + 1] == pat[0]);
            }
        }
        lemma_replace_absent(rest, pat, rep);
        assert(seq![s[0]] + rest =~= s);
    }
}

/// A command without `{` holds no placeholder, so substitution leaves it
/// unchanged whatever the parameters.
pub proof fn lemma_substitute_without_braces(command: Seq<char>, args: Seq<Seq<char>>, k: nat)
    requires
        !command.contains('{'),
    ensures
        substitute(command, args, k) == command,
    decreases k,
{
    if k > 0 {
        lemma_substitute_without_braces(command, args, (k - 1) as nat);
        assert(placeholder(k)[0] == '{');
        lemma_replace_absent(command, placeholder(k), args[k - 1]);
    }
}

/// `pat` occurs somewhere in `s`.
pub open spec fn occurs_in(s: Seq<char>, pat: Seq<char>) -> bool {
    exists|i: int| 0 <= i <= s.len() && #[trigger] starts_with(s.subrange(i, s.len() as int), pat)
}

/// Replacing a non-empty pattern that does not occur in `s` leaves `s` as it is.
pub proof fn lemma_replace_not_occurring(s: Seq<char>, pat: Seq<char>, rep: Seq<char>)
    requires
        pat.len() > 0,
        !occurs_in(s, pat),
    ensures
        replace_all(s, pat, rep) == s,
    decreases s.len(),
{
    if s.len() > 0 {
        let rest = s.subrange(1, s.len() as int);
        assert(s.subrange(0, s.len() as int) =~= s);
        assert(!starts_with(s, pat)) by {
            if starts_with(s, pat) {
                assert(starts_with(s.subrange(0, s.len() as int), pat));
            }
        }
        assert(!occurs_in(rest, pat)) by {
            if occurs_in(rest, pat) {
                let i = choose|i: int| 0 <= i <= rest.len() && #[trigger] starts_with(rest.subrange(i, rest.len() as int), pat);
                assert(rest.subrange(i, rest.len() as int) =~= s.subrange(i + 1, s.len() as int));
                assert(starts_with(s.subrange(i + 1, s.len() as int), pat));
            }
        }
        lemma_replace_not_occurring(rest, pat, rep);
        assert(seq![s[0]] + rest =~= s);
    }
}

/// Substituting the first `k` parameters reads no parameter after them.
pub proof fn lemma_substitute_prefix(command: Seq<char>, args: Seq<Seq<char>>, x: Seq<char>, k: nat)
    requires
        k <= args.len(),
    ensures
        substitute(command, args.push(x), k) == substitute(command, args, k),
    decreases k,
{
    if k > 0 {
        lemma_substitute_prefix(command, args, x, (k - 1) as nat);
        assert(args.push(x)[k - 1] == args[k - 1]);
    }
}

/// A parameter added after the others, whose placeholder does not occur in
/// the command once the others are put in, changes nothing: trailing
/// parameters that fill no placeholder are ignored.
pub proof fn lemma_unused_trailing_parameter(command: Seq<char>, args: Seq<Seq<char>>, x: Seq<char>)
    requires
        !occurs_in(substituted(command, args), placeholder(args.len() + 1)),
    ensures
        substituted(command, args.push(x)) == substituted(command, args),
{
    let n = args.len();
    lemma_substitute_prefix(command, args, x, n);
    assert(args.push(x).len() == n + 1);
    assert(args.push(x)[n as int] == x);
    assert(placeholder((n + 1) as nat).len() > 0);
    lemma_replace_not_occurring(substituted(command, args), placeholder((n + 1) as nat), x);
}

/// `parts` joined with `sep` between each two of them.
pub open spec fn join_with(parts: Seq<Seq<char>>, sep: Seq<char>) -> Seq<char>
    decreases parts.len(),
{
    if parts.len() == 0 {
        Seq::empty()
    } else if parts.len() == 1 {
        parts[0]
    } else {
        parts[0] + sep + join_with(parts.subrange(1, parts.len() as int), sep)
    }
}

/// Replacing in a text that begins with a part holding no first character of
/// the pattern keeps that part in front.
pub proof fn lemma_replace_after_plain_prefix(a: Seq<char>, b: Seq<char>, pat: Seq<char>, rep: Seq<char>)
    requires
        pat.len() > 0,
        !a.contains(pat[0]),
    ensures
        replace_all(a + b, pat, rep) == a + replace_all(b, pat, rep),
    decreases a.len(),
{
    if a.len() > 0 {
        let s = a + b;
        let ra = a.subrange(1, a.len() as int);
        assert(s[0] == a[0]);
        assert(!starts_with(s, pat)) by {
            if starts_with(s, pat) {
                assert(s.subrange(0, pat.len() as int)[0] == pat[0]);
                assert(a.contains(a[0]));
            }
        }
        assert(s.subrange(1, s.len() as int) =~= ra + b);
        assert(!ra.contains(pat[0])) by {
            if ra.contains(pat[0]) {
                let j = choose|j: int| 0 <= j < ra.len() && ra[j] == pat[0];
                assert(a[j + 1] == pat[0]);
            }
        }
        lemma_replace_after_plain_prefix(ra, b, pat, rep);
        assert(seq![a[0]] + (ra + replace_all(b, pat, rep)) =~= a + replace_all(b, pat, rep));
    } else {
        assert(a + b =~= b);
        assert(a + replace_all(b, pat, rep) =~= replace_all(b, pat, rep));
    }
}

/// Parts without `{`, joined by a placeholder, become the same parts joined
/// by the parameter: every occurrence of the placeholder is filled.
pub proof fn lemma_replace_joined(parts: Seq<Seq<char>>, pat: Seq<char>, rep: Seq<char>)
    requires
        parts.len() > 0,
        pat.len() > 0,
        pat[0] == '{',
        forall|i: int| 0 <= i < parts.len() ==> !(#[trigger] parts[i]).contains('{'),
    ensures
        replace_all(join_with(parts, pat), pat, rep) == join_with(parts, rep),
    decreases parts.len(),
{
    if parts.len() == 1 {
        assert(!parts[0].contains('{'));
        lemma_replace_absent(parts[0], pat, rep);
    } else {
        let rest = parts.subrange(1, parts.len() as int);
        let tail = join_with(rest, pat);
        assert(!parts[0].contains('{'));
        assert(join_with(parts, pat) == parts[0] + pat + tail);
        assert(parts[0] + pat + tail =~= parts[0] + (pat + tail));
        lemma_replace_after_plain_prefix(parts[0], pat + tail, pat, rep);
        let s = pat + tail;
        assert(s.subrange(0, pat.len() as int) =~= pat);
        assert(s.subrange(pat.len() as int, s.len() as int) =~= tail);
        assert(replace_all(s, pat, rep) == rep + replace_all(tail, pat, rep));
        assert forall|i: int| 0 <= i < rest.len() implies !(#[trigger] rest[i]).contains('{') by {
            assert(rest[i] == parts[i + 1]);
        }
        lemma_replace_joined(rest, pat, rep);
        assert(parts[0] + (rep + join_with(rest, rep)) =~= parts[0] + rep + join_with(rest, rep));
    }
}

/// Putting in the `k`-th parameter fills every occurrence of the placeholder
/// `{k}`: when the text so far is parts without `{` joined by `{k}`, it becomes
/// those parts joined by the parameter (so `cp {1} {1}.bak` with `notes.txt`
/// gives `cp notes.txt notes.txt.bak`).
pub proof fn lemma_every_occurrence_filled(
    command: Seq<char>,
    args: Seq<Seq<char>>,
    k: nat,
    parts: Seq<Seq<char>>,
)
    requires
        1 <= k <= args.len(),
        parts.len() > 0,
        forall|i: int| 0 <= i < parts.len() ==> !(#[trigger] parts[i]).contains('{'),
        substitute(command, args, (k - 1) as nat) == join_with(parts, placeholder(k)),
    ensures
        substitute(command, args, k) == join_with(parts, args[k - 1]),
{
    assert(placeholder(k)[0] == '{');
    lemma_replace_joined(parts, placeholder(k), args[k - 1]);
}

/// Puts `args[i]` in for each placeholder `{i+1}` of `command`, in order of `i`.
pub fn substitute_placeholders(command: &str, args: &[String]) -> (r: String)
    ensures
        r@ == substituted(command@, string_views(args@)),
{
    let mut ret = command.to_owned();
    let mut i: usize = 0;
    while i < args.len()
        invariant
            i <= args@.len(),
            ret@ == substitute(command@, string_views(args@), i as nat),
        decreases args@.len() - i,
    {
        let ph = placeholder_string(i + 1);
        ret = replace_all_occurrences(ret.as_str(), ph.as_str(), args[i].as_str());
        i = i + 1;
    }
    ret
}

/// The pattern of a placeholder left in a command: a number in braces.
pub const PLACEHOLDER_PATTERN: &'static str = r"(?m)\{\d+\}";

/// The answer when a placeholder stays unfilled.
pub const NOT_ENOUGH_PARAMETERS: &'static str = "Not enough parameters for command";

/// The answer when the variables of the command cannot be expanded: a
/// variable is not set, or a `$` is followed by a letter or digit outside ASCII.
pub const EXPANSION_FAILED: &'static str = "Could not expand the variables of the command";

/// The answer when the placeholder pattern cannot be compiled.
pub const PATTERN_FAILED: &'static str = "Could not compile the placeholder pattern";

/// What personalisation makes of a command.
#[derive(Debug, PartialEq, Eq)]
pub enum Personalized {
    /// The command, ready to run.
    Ready(String),
    /// The assembled command, in which a placeholder is left unfilled.
    PlaceholdersLeft(String),
    /// The command could not be assembled; the message says why.
    Failed(&'static str),
}

/// How personalisation settles on the expanded command `e`: a text without
/// `{` holds no placeholder; otherwise the placeholder pattern decides.
pub open spec fn settles(r: Personalized, e: Seq<char>) -> bool {
    if !e.contains('{') {
        r matches Personalized::Ready(s) && s@ == e
    } else if !regex_compiles(PLACEHOLDER_PATTERN@) {
        r == Personalized::Failed(PATTERN_FAILED)
    } else if regex_matches(PLACEHOLDER_PATTERN@, e) {
        r matches Personalized::PlaceholdersLeft(s) && s@ == e
    } else {
        r matches Personalized::Ready(s) && s@ == e
    }
}

/// Decides on an expanded command, given whether placeholders are left in it
/// (`Ok(true)`), none are (`Ok(false)`), or the search could not run (`Err`).
pub fn placeholder_check(expanded: String, leftover: Result<bool, regex::Error>) -> (r:
    Personalized)
    ensures
        leftover matches Ok(false) ==> r == Personalized::Ready(expanded),
        leftover matches Ok(true) ==> r == Personalized::PlaceholdersLeft(expanded),
        leftover is Err ==> r == Personalized::Failed(PATTERN_FAILED),
{
    match leftover {
        Ok(false) => Personalized::Ready(expanded),
        Ok(true) => Personalized::PlaceholdersLeft(expanded),
        Err(_) => Personalized::Failed(PATTERN_FAILED),
    }
}

/// Finishes personalisation from the outcome of the shell expansion: a failed
/// expansion is refused, and an expanded command is settled as `settles` says.
/// Every placeholder holds a `{`, so a text without `{` needs no search.
pub fn finish_personalize(expanded: Result<String, ExpandError>) -> (r: Personalized)
    ensures
        expanded is Err ==> r == Personalized::Failed(EXPANSION_FAILED),
        expanded matches Ok(e) ==> settles(r, e@),
{
    match expanded {
        Err(_) => Personalized::Failed(EXPANSION_FAILED),
        Ok(e) => {
            if !contains_char(e.as_str(), '{') {
                return Personalized::Ready(e);
            }
            let leftover = regex_is_match(PLACEHOLDER_PATTERN, e.as_str());
            placeholder_check(e, leftover)
        },
    }
}

/// Fills the placeholders `{1}`, `{2}`, ... of `command` with `args`, expands
/// `~` and environment variables, and checks that no placeholder is left.
pub fn personalize_command(command: &str, args: &[String]) -> (r: Personalized)
    ensures
        ({
            let sub = substituted(command@, string_views(args@));
            &&& r matches Personalized::Ready(s) ==> !s@.contains('{') || (regex_compiles(
                PLACEHOLDER_PATTERN@,
            ) && !regex_matches(PLACEHOLDER_PATTERN@, s@))
            &&& r matches Personalized::PlaceholdersLeft(s) ==> s@.contains('{') && regex_compiles(
                PLACEHOLDER_PATTERN@,
            ) && regex_matches(PLACEHOLDER_PATTERN@, s@)
            &&& r matches Personalized::Failed(m) ==> m == EXPANSION_FAILED || (m == PATTERN_FAILED
                && !regex_compiles(PLACEHOLDER_PATTERN@))
            &&& !expansion_safe(sub) ==> r == Personalized::Failed(EXPANSION_FAILED)
            &&& has_no_variable(sub) ==> r != Personalized::Failed(EXPANSION_FAILED)
            &&& has_no_variable(sub) && has_no_leading_tilde(sub) ==> settles(r, sub)
        }),
        !command@.contains('{') && has_no_variable(command@) && has_no_leading_tilde(command@)
            ==> (r matches Personalized::Ready(s) && s@ == command@),
{
    proof {
        if !command@.contains('{') {
            lemma_substitute_without_braces(command@, string_views(args@), args@.len());
        }
    }
    let substituted_command = substitute_placeholders(command, args);
    let expanded = expand(substituted_command.as_str());
    finish_personalize(expanded)
}

/// Fills the placeholders `{1}`, `{2}`, ... of `command` with `args`, expands
/// `~` and environment variables, and refuses the outcome if a placeholder is
/// left in it.
pub fn personalize(command: &str, args: &[String]) -> (r: Result<String, &'static str>)
    ensures
        ({
            let sub = substituted(command@, string_views(args@));
            &&& r matches Ok(s) ==> !s@.contains('{') || (regex_compiles(PLACEHOLDER_PATTERN@)
                && !regex_matches(PLACEHOLDER_PATTERN@, s@))
            &&& r == Err::<String, &'static str>(NOT_ENOUGH_PARAMETERS) ==> regex_compiles(
                PLACEHOLDER_PATTERN@,
            )
            &&& r matches Err(e) ==> e == NOT_ENOUGH_PARAMETERS || e == EXPANSION_FAILED || (e
                == PATTERN_FAILED && !regex_compiles(PLACEHOLDER_PATTERN@))
            &&& !expansion_safe(sub) ==> r == Err::<String, &'static str>(EXPANSION_FAILED)
            &&& has_no_variable(sub) ==> r != Err::<String, &'static str>(EXPANSION_FAILED)
            &&& has_no_variable(sub) && has_no_leading_tilde(sub) && !sub.contains('{') ==> (
            r matches Ok(s) && s@ == sub)
            &&& has_no_variable(sub) && has_no_leading_tilde(sub) && sub.contains('{') ==> {
                &&& !regex_compiles(PLACEHOLDER_PATTERN@) ==> r == Err::<String, &'static str>(
                    PATTERN_FAILED,
                )
                &&& regex_compiles(PLACEHOLDER_PATTERN@) && regex_matches(
                    PLACEHOLDER_PATTERN@,
                    sub,
                ) ==> r == Err::<String, &'static str>(NOT_ENOUGH_PARAMETERS)
                &&& regex_compiles(PLACEHOLDER_PATTERN@) && !regex_matches(
                    PLACEHOLDER_PATTERN@,
                    sub,
                ) ==> (r matches Ok(s) && s@ == sub)
            }
        }),
        !command@.contains('{') && has_no_variable(command@) && has_no_leading_tilde(command@)
            ==> (r matches Ok(s) && s@ == command@),
{
    match personalize_command(command, args) {
        Personalized::Ready(s) => Ok(s),
        Personalized::PlaceholdersLeft(_) => Err(NOT_ENOUGH_PARAMETERS),
        Personalized::Failed(m) => Err(m),
    }
}

} // verus!
