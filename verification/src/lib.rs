//! Command-line alias runner: verified text handling for aliases, snippets and
//! the commands they describe.

pub mod util;
pub mod alias;
pub mod snippet;
pub mod action;
pub mod action_handler;
