//! Shell-like expansion of `~` and `$VAR`, as done by the `shellexpand` crate.
use vstd::prelude::*;
use crate::util::text::chars_of;

verus! {

/// Why an expansion failed.
#[derive(Debug, PartialEq, Eq)]
pub enum ExpandError {
    /// The lookup of this variable failed: it is not set, or its value is not
    /// valid Unicode.
    Lookup { var_name: String },
    /// A `$` is followed by a letter or digit outside ASCII, which the
    /// expansion cannot take apart.
    UnexpandableName,
}

/// `s` holds no `$`, so no variable can be expanded in it.
pub open spec fn has_no_variable(s: Seq<char>) -> bool {
    !s.contains('$')
}

/// `s` does not start with `~`, so no home directory can be put in front of it.
pub open spec fn has_no_leading_tilde(s: Seq<char>) -> bool {
    s.len() == 0 || s[0] != '~'
}

/// Whether `char::is_alphanumeric` holds of `c` (the Unicode `Alphabetic` or
/// `Numeric` property).
pub uninterp spec fn unicode_alphanumeric(c: char) -> bool;

/// Calls `char::is_alphanumeric`. Claimed: the answer depends on `c` alone.
#[verifier::external_body]
pub fn is_alphanumeric_char(c: char) -> (r: bool)
    ensures
        r == unicode_alphanumeric(c),
{
    c.is_alphanumeric()
}

/// No `$` of `s` is followed by a letter or digit outside ASCII.
pub open spec fn expansion_safe(s: Seq<char>) -> bool {
    forall|i: int|
        0 <= i < s.len() - 1 && s[i] == '$' && (s[i + 1] as u32) >= 0x80 ==> !unicode_alphanumeric(
            #[trigger] s[i + 1],
        )
}

/// Decides `expansion_safe`.
pub fn expansion_is_safe(s: &str) -> (r: bool)
    ensures
        r == expansion_safe(s@),
{
    let cs = chars_of(s);
    let n = cs.len();
    let mut i: usize = 0;
    while i < n && i + 1 < n
        invariant
            cs@ == s@,
            n == cs@.len(),
            i <= n,
            forall|j: int|
                0 <= j < i && j < s@.len() - 1 && s@[j] == '$' && (s@[j + 1] as u32) >= 0x80
                    ==> !unicode_alphanumeric(#[trigger] s@[j + 1]),
        decreases cs@.len() - i,
    {
        if cs[i] == '$' && (cs[i + 1] as u32) >= 0x80 && is_alphanumeric_char(cs[i + 1]) {
            return false;
        }
        i = i + 1;
    }
    true
}

/// Calls `shellexpand::full`, which expands a leading `~` to the home
/// directory and each `$NAME` / `${NAME}` to the environment variable.
/// The outcome depends on the environment and the home directory, so little
/// is stated of it. What its source shows for every environment: variables are
/// only looked up (and a lookup can only fail) where the input holds a `$`;
/// with no `$` the text is returned unchanged unless it starts with `~`.
/// Its source slices the text one byte after a `$` that a letter or digit
/// follows, which panics when that character takes more than one byte; such
/// inputs are left out. The error keeps the name of the variable whose lookup
/// failed; the values that the expansion puts in are left unsaid.
#[verifier::external_body]
fn shell_expand(input: &str) -> (r: Result<String, ExpandError>)
    requires
        expansion_safe(input@),
    ensures
        r matches Err(e) ==> e is Lookup,
        has_no_variable(input@) ==> r is Ok,
        has_no_variable(input@) && has_no_leading_tilde(input@) ==> r.unwrap()@ == input@,
{
    match shellexpand::full(input) {
        Ok(s) => Ok(s.into_owned()),
        Err(e) => Err(ExpandError::Lookup { var_name: e.var_name }),
    }
}

/// Expands `~` and variables in `input`, refusing the inputs that the
/// expansion cannot take apart.
pub fn expand(input: &str) -> (r: Result<String, ExpandError>)
    ensures
        !expansion_safe(input@) ==> r == Err::<String, ExpandError>(ExpandError::UnexpandableName),
        r == Err::<String, ExpandError>(ExpandError::UnexpandableName) ==> !expansion_safe(input@),
        has_no_variable(input@) ==> r is Ok,
        has_no_variable(input@) && has_no_leading_tilde(input@) ==> r.unwrap()@ == input@,
{
    if !expansion_is_safe(input) {
        return Err(ExpandError::UnexpandableName);
    }
    shell_expand(input)
}

} // verus!
