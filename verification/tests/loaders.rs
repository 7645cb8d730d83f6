use mya::alias::loader::{alias_files_folder, group_names_from_entries, AliasSearch};
use mya::alias::model::Details;
use mya::snippet::loader::snippet_file_path;
use mya::util::key_map::KeyMap;

fn pair(a: &str, b: &str) -> (String, String) {
    (String::from(a), String::from(b))
}

#[test]
fn folder_from_home_or_setting() {
    assert_eq!(alias_files_folder(None, "/home/me"), Ok(String::from("/home/me")));
    assert_eq!(alias_files_folder(Some("/opt/aliases"), "/home/me"), Ok(String::from("/opt/aliases")));
    let expanded = alias_files_folder(Some("~/aliases"), "/home/me").unwrap();
    assert_eq!(expanded, shellexpand::full("~/aliases").unwrap());
    assert!(alias_files_folder(Some("$MYA_SURELY_UNSET_VARIABLE_42/x"), "/h").is_err());
    assert_eq!(
        alias_files_folder(Some("/x/$ü"), "/h"),
        Err(mya::util::expand::ExpandError::UnexpandableName)
    );
}

#[test]
fn folder_setting_expands_variables() {
    let out = alias_files_folder(Some("${HOME}/aliases"), "/nowhere").unwrap();
    assert_ne!(out, "${HOME}/aliases");
    assert_eq!(out, shellexpand::full("${HOME}/aliases").unwrap());
}

#[test]
fn group_names_later_file_wins() {
    let entries = vec![pair("shell", "/a/shell.yaml"), pair("git", "/a/git.yaml"), pair("shell", "/a/shell.yml")];
    let m = group_names_from_entries(&entries);
    assert_eq!(m.len(), 2);
    assert_eq!(m.get("shell"), Some(&String::from("/a/shell.yml")));
    assert_eq!(m.get("git"), Some(&String::from("/a/git.yaml")));
    assert_eq!(m.key_at(0), "git");
}

fn commands(keys: &[&str]) -> KeyMap<Details> {
    let mut m = KeyMap::new();
    for k in keys {
        m.insert(
            String::from(*k),
            Details { command: String::from("c"), description: String::from("d"), directory: None },
        );
    }
    m
}

#[test]
fn search_all_groups_in_name_order() {
    let groups = group_names_from_entries(&vec![pair("b", "/b.yaml"), pair("a", "/a.yaml"), pair("c", "/c.yaml")]);
    let files = [commands(&["x"]), commands(&["y", "k"]), commands(&["k"])];
    let mut search = AliasSearch::new(None, &groups);
    let mut read = Vec::new();
    let mut hit = None;
    while let Some(f) = search.next_file() {
        let idx = read.len();
        read.push(f.clone());
        if search.consider(&files[idx], "k") {
            hit = Some(f);
            break;
        }
    }
    assert_eq!(read, vec!["/a.yaml", "/b.yaml"]);
    assert_eq!(hit, Some(String::from("/b.yaml")));
    assert_eq!(search.next_file(), None);
}

#[test]
fn search_given_group_only() {
    let groups = group_names_from_entries(&vec![pair("a", "/a.yaml")]);
    let g = String::from("/other.yaml");
    let mut search = AliasSearch::new(Some(&g), &groups);
    assert_eq!(search.next_file(), Some(g.clone()));
    assert!(!search.consider(&commands(&["z"]), "k"));
    assert_eq!(search.next_file(), None);
}

#[test]
fn snippet_paths() {
    assert_eq!(snippet_file_path(None), "snippets/shell.yaml");
    assert_eq!(snippet_file_path(Some("git.yaml")), "snippets/git.yaml");
}
