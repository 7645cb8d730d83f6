//! Snippets: named commands kept in snippet files, shaped as aliases are.
use vstd::prelude::*;
pub use crate::alias::model::Details;
use crate::util::key_map::{KeyMap, has_key, lookup};

verus! {

/// A group of snippets, each under its name.
#[derive(Debug, PartialEq, Eq)]
pub enum Snippet {
    Commands(KeyMap<Details>),
}

impl Snippet {
    /// The snippets, by name.
    pub open spec fn commands(&self) -> KeyMap<Details> {
        match self {
            Snippet::Commands(m) => *m,
        }
    }

    /// Whether a snippet is named `key`.
    pub fn is_key_exists(&self, key: &str) -> (r: bool)
        ensures
            r == has_key(self.commands()@, key@),
    {
        match self {
            Snippet::Commands(value) => value.contains_key(key),
        }
    }

    /// A copy of what the snippet `key` runs, if there is such a snippet.
    pub fn get_details_for(&self, key: &str) -> (r: Option<Details>)
        ensures
            r == lookup(self.commands()@, key@),
    {
        match self {
            Snippet::Commands(value) => match value.get(key) {
                Some(d) => Some(d.clone()),
                None => None,
            },
        }
    }
}

} // verus!
