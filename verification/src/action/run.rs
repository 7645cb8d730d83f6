//! Running a command: what to execute, where, and with which exit code.
use vstd::prelude::*;
use crate::alias::model::{Details, command_name, command_arguments};
use crate::util::expand::{
    expand, expansion_safe, ExpandError, has_no_variable, has_no_leading_tilde,
};
use crate::util::key_map::{compare_keys, KeyOrder};
use crate::util::pattern::{regex_compiles, regex_matches};
use crate::util::scan::string_views;
use crate::util::string_util::{
    personalize_command, settles, substituted, Personalized, PLACEHOLDER_PATTERN,
    NOT_ENOUGH_PARAMETERS, EXPANSION_FAILED, PATTERN_FAILED,
};
use crate::util::text::chars_of;

verus! {

/// A directory setting with this text counts as no directory.
pub const NO_DIRECTORY: &'static str = "No dir!";

/// The exit code when a command cannot be personalised.
pub const PERSONALIZE_FAILED_EXIT: i32 = 9;

/// The exit code when the command was ended by a signal.
pub const SIGNAL_EXIT: i32 = 255;

/// What to execute for an alias.
#[derive(Debug, PartialEq, Eq)]
pub struct Invocation {
    /// The personalised command line.
    pub command: String,
    /// The program to start.
    pub program: String,
    /// The arguments to hand it.
    pub arguments: Vec<String>,
    /// The working directory, expanded, if one is set.
    pub directory: Option<String>,
    /// The description to show.
    pub description: String,
}

/// Why a command cannot be run.
#[derive(Debug, PartialEq, Eq)]
pub enum RunError {
    /// The command could not be personalised; the message says why.
    Personalize(&'static str),
    /// A placeholder is left in the assembled command.
    PlaceholdersLeft(String),
    /// The working directory cannot be expanded.
    Directory(ExpandError),
}

/// The invocation of a personalised `command`: its program and arguments as
/// `command_name` and `command_arguments` split it.
pub fn invocation_for(command: String, description: String, directory: Option<String>) -> (r:
    Invocation)
    ensures
        r.command == command,
        r.program@ == command_name(command@),
        string_views(r.arguments@) == command_arguments(command@),
        r.directory == directory,
        r.description == description,
{
    let d = Details { command, description, directory };
    let program = d.get_command_without_parameters();
    let arguments = d.get_command_arguments();
    Invocation {
        command: d.command,
        program,
        arguments,
        directory: d.directory,
        description: d.description,
    }
}

/// Whether a directory setting names a directory (any text but `NO_DIRECTORY`).
pub open spec fn names_directory(directory: Option<String>) -> bool {
    directory matches Some(d) && d@ != NO_DIRECTORY@
}

/// Expands the working directory of an alias, if it names one.
pub fn expand_directory(directory: &Option<String>) -> (r: Result<Option<String>, ExpandError>)
    ensures
        !names_directory(*directory) ==> r == Ok::<Option<String>, ExpandError>(None),
        r matches Ok(o) ==> (o is Some <==> names_directory(*directory)),
        names_directory(*directory) && !expansion_safe(directory.unwrap()@) ==> r == Err::<
            Option<String>,
            ExpandError,
        >(ExpandError::UnexpandableName),
        names_directory(*directory) && has_no_variable(directory.unwrap()@) ==> (r matches Ok(
            o,
        ) && o is Some),
        names_directory(*directory) && has_no_variable(directory.unwrap()@)
            && has_no_leading_tilde(directory.unwrap()@) ==> (r matches Ok(o) && o matches Some(
            e,
        ) && e@ == directory.unwrap()@),
{
    match directory {
        Some(d) => {
            let dc = chars_of(d.as_str());
            let nc = chars_of(NO_DIRECTORY);
            match compare_keys(&dc, &nc) {
                KeyOrder::Same => Ok(None),
                _ => match expand(d.as_str()) {
                    Ok(e) => Ok(Some(e)),
                    Err(err) => Err(err),
                },
            }
        },
        None => Ok(None),
    }
}

/// What preparing a run yields, given how personalisation came out: the
/// ready command goes on, a left placeholder or a failure stops the run.
pub open spec fn run_follows(r: Result<Invocation, RunError>, p: Personalized) -> bool {
    match p {
        Personalized::Ready(c) => r matches Ok(inv) ==> inv.command == c,
        Personalized::PlaceholdersLeft(c) => r == Err::<Invocation, RunError>(
            RunError::PlaceholdersLeft(c),
        ),
        Personalized::Failed(m) => r == Err::<Invocation, RunError>(RunError::Personalize(m)),
    }
}

/// Prepares to run `details` with the parameters `params`: personalises the
/// command, expands the working directory, and splits the command into
/// program and arguments.
pub fn prepare_run(details: &Details, params: &[String]) -> (r: Result<Invocation, RunError>)
    ensures
        r matches Ok(inv) ==> {
            &&& inv.program@ == command_name(inv.command@)
            &&& string_views(inv.arguments@) == command_arguments(inv.command@)
            &&& inv.description == details.description
            &&& (inv.directory is Some <==> names_directory(details.directory))
            &&& !inv.command@.contains('{') || (regex_compiles(PLACEHOLDER_PATTERN@)
                && !regex_matches(PLACEHOLDER_PATTERN@, inv.command@))
        },
        r matches Err(RunError::Personalize(m)) ==> m == EXPANSION_FAILED || (m == PATTERN_FAILED
            && !regex_compiles(PLACEHOLDER_PATTERN@)),
        r matches Err(RunError::PlaceholdersLeft(c)) ==> c@.contains('{') && regex_compiles(
            PLACEHOLDER_PATTERN@,
        ) && regex_matches(PLACEHOLDER_PATTERN@, c@),
        ({
            let sub = substituted(details.command@, string_views(params@));
            &&& !expansion_safe(sub) ==> r == Err::<Invocation, RunError>(
                RunError::Personalize(EXPANSION_FAILED),
            )
            &&& has_no_variable(sub) ==> r != Err::<Invocation, RunError>(
                RunError::Personalize(EXPANSION_FAILED),
            )
            &&& has_no_variable(sub) && has_no_leading_tilde(sub) ==> exists|p: Personalized|
                settles(p, sub) && run_follows(r, p)
        }),
        ({
            let sub = substituted(details.command@, string_views(params@));
            &&& has_no_variable(sub) && has_no_leading_tilde(sub)
            &&& !sub.contains('{') || (regex_compiles(PLACEHOLDER_PATTERN@) && !regex_matches(
                PLACEHOLDER_PATTERN@,
                sub,
            ))
            &&& !names_directory(details.directory) || (has_no_variable(details.directory.unwrap()@)
                && has_no_leading_tilde(details.directory.unwrap()@))
        }) ==> (r matches Ok(inv) && inv.command@ == substituted(details.command@, string_views(params@))
            && (names_directory(details.directory) ==> inv.directory.unwrap()@
            == details.directory.unwrap()@)),
{
    let p = personalize_command(details.command.as_str(), params);
    let ghost pg = p;
    let command = match p {
        Personalized::Ready(c) => c,
        Personalized::PlaceholdersLeft(c) => {
            return Err(RunError::PlaceholdersLeft(c));
        },
        Personalized::Failed(m) => {
            return Err(RunError::Personalize(m));
        },
    };
    let directory = match expand_directory(&details.directory) {
        Ok(d) => d,
        Err(e) => {
            return Err(RunError::Directory(e));
        },
    };
    let r = Ok(invocation_for(command, details.description.clone(), directory));
    assert(run_follows(r, pg));
    r
}

/// The exit code of a finished command: its own, or `SIGNAL_EXIT` when a
/// signal ended it.
pub fn exit_code(status: Option<i32>) -> (r: i32)
    ensures
        status matches Some(c) ==> r == c,
        status is None ==> r == SIGNAL_EXIT,
{
    match status {
        Some(c) => c,
        None => SIGNAL_EXIT,
    }
}

} // verus!
