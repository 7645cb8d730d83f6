//! Which snippet file to read.
use vstd::prelude::*;
use crate::util::text::push_char;

verus! {

/// The folder of the snippet files.
pub const SNIPPET_ROOT: &'static str = "snippets";

/// The snippet file read when no group is named.
pub const DEFAULT_SNIPPET_FILE: &'static str = "snippets/shell.yaml";

/// The path of the snippet file of `group`, or the default snippet file.
pub fn snippet_file_path(group: Option<&str>) -> (r: String)
    ensures
        group is None ==> r@ == DEFAULT_SNIPPET_FILE@,
        group is Some ==> r@ == SNIPPET_ROOT@ + seq!['/'] + group.unwrap()@,
{
    match group {
        Some(g) => {
            let mut path = SNIPPET_ROOT.to_owned();
            push_char(&mut path, '/');
            path.append(g);
            path
        },
        None => DEFAULT_SNIPPET_FILE.to_owned(),
    }
}

} // verus!
