//! What the `run` subcommand runs, from its parameters.
use vstd::prelude::*;
use crate::util::key_map::{KeyMap, lookup};
use crate::action::run::{exit_code, PERSONALIZE_FAILED_EXIT, SIGNAL_EXIT};
use crate::util::scan::string_views;

verus! {

/// The exit code when the snippet has no details.
pub const NO_DETAILS_EXIT: i32 = 4;

/// The exit code when no snippet has the name.
pub const NO_SNIPPET_EXIT: i32 = 5;

/// The command to run: the file of its group, when a group was named, and its
/// name.
#[derive(Debug, PartialEq, Eq)]
pub struct RunTarget {
    pub group_path: Option<String>,
    pub key: String,
}

/// Reads the parameters of `run`: a single one names the command; with more,
/// the first names a group if there is such a group, and then the second names
/// the command; otherwise the first names the command.
pub fn resolve_run_target(params: &Vec<String>, groups: &KeyMap<String>) -> (r: RunTarget)
    requires
        params@.len() >= 1,
    ensures
        params@.len() == 1 ==> r.group_path is None && r.key@ == params@[0]@,
        params@.len() >= 2 ==> match lookup(groups@, params@[0]@) {
            Some(p) => r.group_path == Some(p) && r.key@ == params@[1]@,
            None => r.group_path is None && r.key@ == params@[0]@,
        },
{
    if params.len() == 1 {
        return RunTarget { group_path: None, key: params[0].clone() };
    }
    match groups.get(params[0].as_str()) {
        Some(p) => RunTarget { group_path: Some(p.clone()), key: params[1].clone() },
        None => RunTarget { group_path: None, key: params[0].clone() },
    }
}

/// How many leading program arguments come before the parameters of the
/// command: the program, `run` and the command name, and the group name when
/// one was given.
pub open spec fn leading_args(group_given: bool) -> int {
    if group_given {
        4
    } else {
        3
    }
}

/// The parameters for the command: the program arguments after the program,
/// `run`, the group (when given) and the command name.
pub fn run_parameters(args: &Vec<String>, group_given: bool) -> (r: Vec<String>)
    requires
        args@.len() >= leading_args(group_given),
    ensures
        string_views(r@) == string_views(args@).subrange(leading_args(group_given), args@.len() as int),
{
    let start: usize = if group_given {
        4
    } else {
        3
    };
    let mut out: Vec<String> = Vec::new();
    let mut i: usize = start;
    while i < args.len()
        invariant
            start == leading_args(group_given),
            start <= i <= args@.len(),
            string_views(out@) == string_views(args@).subrange(start as int, i as int),
        decreases args@.len() - i,
    {
        let ghost before = string_views(out@);
        out.push(args[i].clone());
        assert(string_views(out@) =~= before.push(args@[i as int]@));
        assert(string_views(args@).subrange(start as int, i + 1) =~= string_views(args@).subrange(start as int, i as int).push(args@[i as int]@));
        i = i + 1;
    }
    out
}

/// How a `run` ended.
#[derive(Debug, PartialEq, Eq)]
pub enum RunOutcome {
    /// No snippet file holds the name.
    NoSnippet,
    /// The snippet gives no details for the name.
    NoDetails,
    /// The command could not be personalised.
    NotPersonalized,
    /// The command ran; its exit status, if a signal did not end it.
    Finished(Option<i32>),
}

/// The exit code of the program for how `run` ended.
pub fn run_exit_code(outcome: &RunOutcome) -> (r: i32)
    ensures
        *outcome == RunOutcome::NoSnippet ==> r == NO_SNIPPET_EXIT,
        *outcome == RunOutcome::NoDetails ==> r == NO_DETAILS_EXIT,
        *outcome == RunOutcome::NotPersonalized ==> r == PERSONALIZE_FAILED_EXIT,
        *outcome == RunOutcome::Finished(None) ==> r == SIGNAL_EXIT,
        outcome matches RunOutcome::Finished(Some(c)) ==> r == c,
{
    match outcome {
        RunOutcome::NoSnippet => NO_SNIPPET_EXIT,
        RunOutcome::NoDetails => NO_DETAILS_EXIT,
        RunOutcome::NotPersonalized => PERSONALIZE_FAILED_EXIT,
        RunOutcome::Finished(status) => exit_code(*status),
    }
}

} // verus!
