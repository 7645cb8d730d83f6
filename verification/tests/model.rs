use mya::alias::model::{Alias, Details};
use mya::snippet::model::Snippet;
use mya::util::key_map::KeyMap;

fn details(command: &str) -> Details {
    Details {
        command: String::from(command),
        description: String::from("desc"),
        directory: None,
    }
}

#[test]
fn command_without_inner_space_is_kept_whole() {
    assert_eq!(details("ls").get_command_without_parameters(), "ls");
    assert_eq!(details("  ls  ").get_command_without_parameters(), "  ls  ");
    assert_eq!(details("a\tb").get_command_without_parameters(), "a\tb");
}

#[test]
fn command_name_is_first_word() {
    assert_eq!(details("ls -l /tmp").get_command_without_parameters(), "ls");
    assert_eq!(details("ls\t-l x").get_command_without_parameters(), "ls");
    assert_eq!(details(" ls -l").get_command_without_parameters(), "");
}

#[test]
fn command_name_in_quotes() {
    assert_eq!(
        details("\"my prog\" -x y").get_command_without_parameters(),
        "my prog"
    );
    assert_eq!(details("\"\" -x y").get_command_without_parameters(), "\"\"");
    assert_eq!(details("\"a\nb\" c d").get_command_without_parameters(), "\"a");
    assert_eq!(details("\"abc d").get_command_without_parameters(), "\"abc");
}

#[test]
fn command_arguments_skip_the_program() {
    assert_eq!(details("ls").get_command_arguments(), Vec::<String>::new());
    assert_eq!(details("").get_command_arguments(), Vec::<String>::new());
    assert_eq!(details("ls -l /tmp").get_command_arguments(), vec!["-l", "/tmp"]);
    assert_eq!(
        details("git commit -m \"a message\" --x").get_command_arguments(),
        vec!["commit", "-m", "\"a message\"", "--x"]
    );
    assert_eq!(details("echo a\"b c\"").get_command_arguments(), vec!["a\"b", "c\""]);
    assert_eq!(details("echo \"\" x").get_command_arguments(), vec!["\"\"", "x"]);
    assert_eq!(details("echo \"a b").get_command_arguments(), vec!["\"a", "b"]);
    assert_eq!(details("  a  \t b\n c ").get_command_arguments(), vec!["b", "c"]);
}

#[test]
fn arguments_match_the_regex_pattern() {
    let re = regex::Regex::new(r#"("[^"]+")|\S+"#).unwrap();
    for cmd in [
        "a b c",
        "x \"y z\" w",
        "\"q\"r s",
        "p \"\" \"\"\"",
        "t \"unclosed arg",
        "u\u{3000}v\u{a0}w",
        "\"multi\nline\" end",
    ] {
        let expected: Vec<String> =
            re.find_iter(cmd).skip(1).map(|m| String::from(m.as_str())).collect();
        assert_eq!(details(cmd).get_command_arguments(), expected, "{:?}", cmd);
    }
}

fn alias_of(pairs: &[(&str, &str)]) -> Alias {
    let mut m = KeyMap::new();
    for (k, c) in pairs {
        m.insert(String::from(*k), details(c));
    }
    Alias::Commands(m)
}

#[test]
fn alias_lookup() {
    let a = alias_of(&[("ll", "ls -l"), ("gs", "git status")]);
    assert!(a.is_key_exists("ll"));
    assert!(!a.is_key_exists("l"));
    assert_eq!(a.get_details_for("gs"), Some(details("git status")));
    assert_eq!(a.get_details_for("none"), None);
}

#[test]
fn snippet_lookup() {
    let mut m = KeyMap::new();
    m.insert(String::from("up"), details("docker compose up"));
    let s = Snippet::Commands(m);
    assert!(s.is_key_exists("up"));
    assert_eq!(s.get_details_for("up"), Some(details("docker compose up")));
    assert_eq!(s.get_details_for("down"), None);
}

#[test]
fn details_clone_is_equal() {
    let d = Details {
        command: String::from("c"),
        description: String::from("d"),
        directory: Some(String::from("/tmp")),
    };
    assert_eq!(d.clone(), d);
}

fn program_by_pattern(command: &str) -> String {
    if !command.trim().contains(' ') {
        return String::from(command);
    }
    let re = regex::Regex::new(r#"^"(.*?)".*"#).unwrap();
    let mut ret = match re.captures(command) {
        None => "",
        Some(c) => c.get(1).map_or("", |m| m.as_str()),
    };
    if ret.is_empty() {
        let re = regex::Regex::new(r"^(.*?)\s").unwrap();
        ret = re.captures(command).unwrap().get(1).map_or("", |m| m.as_str());
    }
    String::from(ret)
}

#[test]
fn program_matches_the_regex_patterns() {
    for cmd in [
        "ls",
        "ls -l",
        " ls -l ",
        "\"my prog\" x",
        "\"\" x y",
        "\"a\nb\" c",
        "\"unclosed x",
        "a\u{3000}b c",
        "tab\tsep x",
        "\u{a0}lead x",
        "x \"y z\"",
    ] {
        assert_eq!(details(cmd).get_command_without_parameters(), program_by_pattern(cmd), "{:?}", cmd);
    }
}

#[test]
fn program_and_arguments_give_back_the_words() {
    for words in [vec!["ls"], vec!["ls", "-l", "/tmp"], vec!["git", "commit", "-am", "msg"]] {
        let d = details(&words.join(" "));
        let mut got = vec![d.get_command_without_parameters()];
        got.extend(d.get_command_arguments());
        assert_eq!(got, words);
    }
}
