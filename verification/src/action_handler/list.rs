//! What the `list` subcommand lists, from its parameters and flags.
use vstd::prelude::*;
use crate::action::list::ActionListMode;
use crate::util::key_map::{KeyMap, lookup};

verus! {

/// The exit code when the group to list does not exist.
pub const UNKNOWN_GROUP_EXIT: i32 = 7;

/// What to list.
#[derive(Debug, PartialEq, Eq)]
pub enum ListTarget {
    /// Every group.
    All,
    /// One group, read from its file.
    Group { name: String, path: String },
    /// A group that does not exist.
    UnknownGroup { name: String },
}

/// The group to list: none named means all of them; otherwise only the first
/// parameter counts, and it must name a group.
pub fn resolve_list_target(params: &Vec<String>, groups: &KeyMap<String>) -> (r: ListTarget)
    ensures
        params@.len() == 0 ==> r == ListTarget::All,
        params@.len() > 0 ==> match lookup(groups@, params@[0]@) {
            Some(p) => (r matches ListTarget::Group { name, path } && name@ == params@[0]@ && path
                == p),
            None => (r matches ListTarget::UnknownGroup { name } && name@ == params@[0]@),
        },
{
    if params.len() == 0 {
        return ListTarget::All;
    }
    match groups.get(params[0].as_str()) {
        Some(p) => ListTarget::Group { name: params[0].clone(), path: p.clone() },
        None => ListTarget::UnknownGroup { name: params[0].clone() },
    }
}

/// The listing mode from the flags: group names only, else short, else verbose.
pub fn list_mode(groups_only: bool, short: bool) -> (r: ActionListMode)
    ensures
        groups_only ==> r == ActionListMode::Group,
        !groups_only && short ==> r == ActionListMode::Short,
        !groups_only && !short ==> r == ActionListMode::Verbose,
{
    if groups_only {
        ActionListMode::Group
    } else if short {
        ActionListMode::Short
    } else {
        ActionListMode::Verbose
    }
}

} // verus!
