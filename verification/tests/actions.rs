use mya::action::list::{
    list_sources, longest_key_length, verbose_entries, ActionListMode, VerboseEntry,
};
use mya::action::run::{
    exit_code, expand_directory, invocation_for, prepare_run, RunError, SIGNAL_EXIT,
};
use mya::action_handler::list::{list_mode, resolve_list_target, ListTarget};
use mya::action_handler::run::{
    resolve_run_target, run_exit_code, run_parameters, RunOutcome, RunTarget,
};
use mya::alias::loader::group_names_from_entries;
use mya::alias::model::Details;
use mya::util::key_map::KeyMap;

fn d(command: &str, description: &str) -> Details {
    Details { command: String::from(command), description: String::from(description), directory: None }
}

fn s(x: &str) -> String {
    String::from(x)
}

#[test]
fn verbose_listing_aligns_commands() {
    let mut m = KeyMap::new();
    m.insert(s("ll"), d("ls -l", "long list"));
    m.insert(s("status"), d("git status", "state"));
    m.insert(s("é"), d("echo", "accent"));
    assert_eq!(longest_key_length(&m), 6);
    let rows = verbose_entries(&m);
    assert_eq!(
        rows,
        vec![
            VerboseEntry { label: s("  ll"), command: s("    ls -l"), description: s("         long list") },
            VerboseEntry { label: s("  status"), command: s("git status"), description: s("         state") },
            VerboseEntry { label: s("  é"), command: s("    echo"), description: s("         accent") },
        ]
    );
    for r in &rows {
        let pad = r.command.len() - r.command.trim_start().len();
        assert_eq!(r.label.len() + pad, 6 + 2);
    }
}

#[test]
fn empty_listing() {
    let m: KeyMap<Details> = KeyMap::new();
    assert_eq!(longest_key_length(&m), 0);
    assert!(verbose_entries(&m).is_empty());
}

#[test]
fn sources_to_list() {
    let groups = group_names_from_entries(&vec![(s("b"), s("/b")), (s("a"), s("/a"))]);
    let p = s("/given");
    assert_eq!(list_sources(Some("g"), Some(&p), &groups), vec![(s("g"), s("/given"))]);
    assert_eq!(list_sources(None, Some(&p), &groups), vec![(s(""), s("/given"))]);
    assert_eq!(list_sources(None, None, &groups), vec![(s("a"), s("/a")), (s("b"), s("/b"))]);
}

#[test]
fn list_target_and_mode() {
    let groups = group_names_from_entries(&vec![(s("shell"), s("/shell.yaml"))]);
    assert_eq!(resolve_list_target(&vec![], &groups), ListTarget::All);
    assert_eq!(
        resolve_list_target(&vec![s("shell"), s("x")], &groups),
        ListTarget::Group { name: s("shell"), path: s("/shell.yaml") }
    );
    assert_eq!(
        resolve_list_target(&vec![s("nope")], &groups),
        ListTarget::UnknownGroup { name: s("nope") }
    );
    assert_eq!(list_mode(true, true), ActionListMode::Group);
    assert_eq!(list_mode(false, true), ActionListMode::Short);
    assert_eq!(list_mode(false, false), ActionListMode::Verbose);
}

#[test]
fn run_target_and_parameters() {
    let groups = group_names_from_entries(&vec![(s("git"), s("/git.yaml"))]);
    assert_eq!(
        resolve_run_target(&vec![s("st")], &groups),
        RunTarget { group_path: None, key: s("st") }
    );
    assert_eq!(
        resolve_run_target(&vec![s("git"), s("st"), s("x")], &groups),
        RunTarget { group_path: Some(s("/git.yaml")), key: s("st") }
    );
    assert_eq!(
        resolve_run_target(&vec![s("st"), s("x")], &groups),
        RunTarget { group_path: None, key: s("st") }
    );
    let args = vec![s("mya"), s("run"), s("st"), s("p1"), s("p2")];
    assert_eq!(run_parameters(&args, false), vec![s("p1"), s("p2")]);
    let args = vec![s("mya"), s("run"), s("git"), s("st"), s("p1")];
    assert_eq!(run_parameters(&args, true), vec![s("p1")]);
    assert_eq!(run_parameters(&vec![s("mya"), s("run"), s("st")], false), Vec::<String>::new());
}

#[test]
fn preparing_a_run() {
    let details = Details {
        command: s("ls -l {1}"),
        description: s("list"),
        directory: Some(s("/tmp")),
    };
    let inv = prepare_run(&details, &[s("/var")]).unwrap();
    assert_eq!(inv.command, "ls -l /var");
    assert_eq!(inv.program, "ls");
    assert_eq!(inv.arguments, vec![s("-l"), s("/var")]);
    assert_eq!(inv.directory, Some(s("/tmp")));
    assert_eq!(inv.description, "list");
    assert_eq!(prepare_run(&details, &[]), Err(RunError::PlaceholdersLeft(s("ls -l {1}"))));
    let bad_dir = Details {
        command: s("pwd"),
        description: s("d"),
        directory: Some(s("$MYA_SURELY_UNSET_VARIABLE_42")),
    };
    assert!(matches!(prepare_run(&bad_dir, &[]), Err(RunError::Directory(_))));
}

#[test]
fn directory_sentinel_and_expansion() {
    assert_eq!(expand_directory(&None), Ok(None));
    assert_eq!(expand_directory(&Some(s("No dir!"))), Ok(None));
    assert_eq!(expand_directory(&Some(s("/srv"))), Ok(Some(s("/srv"))));
    assert_eq!(
        expand_directory(&Some(s("/srv/$ß"))),
        Err(mya::util::expand::ExpandError::UnexpandableName)
    );
    assert_eq!(
        expand_directory(&Some(s("~/w"))),
        Ok(Some(String::from(shellexpand::full("~/w").unwrap())))
    );
}

#[test]
fn invocation_split() {
    let inv = invocation_for(s("\"my tool\" a \"b c\""), s("d"), None);
    assert_eq!(inv.program, "my tool");
    assert_eq!(inv.arguments, vec![s("a"), s("\"b c\"")]);
}

#[test]
fn exit_codes() {
    assert_eq!(exit_code(Some(0)), 0);
    assert_eq!(exit_code(Some(3)), 3);
    assert_eq!(exit_code(None), SIGNAL_EXIT);
    assert_eq!(SIGNAL_EXIT, 255);
}

#[test]
fn run_exit_codes() {
    assert_eq!(run_exit_code(&RunOutcome::NoSnippet), 5);
    assert_eq!(run_exit_code(&RunOutcome::NoDetails), 4);
    assert_eq!(run_exit_code(&RunOutcome::NotPersonalized), 9);
    assert_eq!(run_exit_code(&RunOutcome::Finished(Some(2))), 2);
    assert_eq!(run_exit_code(&RunOutcome::Finished(None)), 255);
}
