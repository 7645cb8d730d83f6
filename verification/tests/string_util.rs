use mya::util::expand::ExpandError;
use mya::util::string_util::{
    finish_personalize, left_pad, personalize, personalize_command, placeholder_check,
    placeholder_string, replace_all_occurrences, substitute_placeholders, Personalized,
    EXPANSION_FAILED, NOT_ENOUGH_PARAMETERS, PATTERN_FAILED,
};
use mya::util::text::{chars_of, decimal_string, string_of_range, white_space};

#[test]
fn pad_2_space() {
    assert_eq!("  message ", left_pad("message ", 2, ' '));
}

#[test]
fn pad_3_x() {
    assert_eq!("xxxmessage ", left_pad("message ", 3, 'x'));
}

#[test]
fn pad_3_empty_str() {
    assert_eq!("   ", left_pad("", 3, ' '));
}

#[test]
fn pad_0() {
    assert_eq!("message", left_pad("message", 0, ' '));
}

#[test]
fn with_env() {
    let raw = "ls -l ${HOME}/work/{1}/db ${HOME}/{2}";
    let personalized = personalize(raw, &[String::from("passed1"), String::from("passed2")]);
    let expected = shellexpand::full("ls -l ${HOME}/work/passed1/db ${HOME}/passed2").unwrap();
    assert_eq!(personalized.unwrap(), String::from(expected));
}

#[test]
fn with_tilda() {
    let raw = "ls -l ~/work/sc/{1}/db ~/{2}";
    let personalized = personalize(raw, &[String::from("passed1"), String::from("passed2")]);
    let expected = shellexpand::full("ls -l ~/work/sc/passed1/db ~/passed2").unwrap();
    assert_eq!(personalized.unwrap(), String::from(expected));
}

#[test]
fn more_placeholders_than_params() {
    let raw = "ls -l {1}/db ~/{2} ~/{3}";
    let personalized = personalize(raw, &[String::from("passed1"), String::from("passed2")]);
    assert_eq!(personalized, Err("Not enough parameters for command"));
}

#[test]
fn handles_gap_in_placeholders() {
    let raw = "ls -l {1}/db ~/{3}";
    let personalized = personalize(
        raw,
        &[
            String::from("passed1"),
            String::from("passed2"),
            String::from("passed3"),
        ],
    );
    assert_eq!(
        personalized.unwrap(),
        String::from("ls -l passed1/db ~/passed3")
    );
}

#[test]
fn pad_multibyte_char() {
    assert_eq!("ééab", left_pad("ab", 2, 'é'));
}

#[test]
fn replace_all_is_left_to_right_and_not_overlapping() {
    assert_eq!(replace_all_occurrences("aaaa", "aa", "b"), "bb");
    assert_eq!(replace_all_occurrences("aaa", "aa", "b"), "ba");
    assert_eq!(replace_all_occurrences("x{1}y{1}", "{1}", "Z"), "xZyZ");
    assert_eq!(replace_all_occurrences("abc", "abcd", "Z"), "abc");
    assert_eq!(replace_all_occurrences("", "a", "Z"), "");
}

#[test]
fn placeholders_are_numbered_in_decimal() {
    assert_eq!(placeholder_string(1), "{1}");
    assert_eq!(placeholder_string(10), "{10}");
    assert_eq!(placeholder_string(305), "{305}");
    assert_eq!(decimal_string(0), "0");
    assert_eq!(decimal_string(9), "9");
    assert_eq!(decimal_string(1234567890), "1234567890");
}

#[test]
fn substitution_works_in_parameter_order() {
    // the first parameter brings in a placeholder that the second then fills
    let out = substitute_placeholders("echo {1}", &[String::from("{2}"), String::from("two")]);
    assert_eq!(out, "echo two");
    // a later placeholder text is never touched by an earlier parameter
    let out = substitute_placeholders("{1}{10}", &[String::from("a")]);
    assert_eq!(out, "a{10}");
    let out = substitute_placeholders("no braces", &[String::from("a"), String::from("b")]);
    assert_eq!(out, "no braces");
}

#[test]
fn personalize_without_parameters() {
    assert_eq!(personalize("ls -l", &[]), Ok(String::from("ls -l")));
    assert_eq!(personalize("ls {1}", &[]), Err(NOT_ENOUGH_PARAMETERS));
}

#[test]
fn personalize_reports_missing_variable() {
    let out = personalize("echo $MYA_SURELY_UNSET_VARIABLE_42 {1}", &[String::from("x")]);
    assert_eq!(out, Err(EXPANSION_FAILED));
}

#[test]
fn placeholder_check_each_case() {
    assert_eq!(placeholder_check(String::from("a"), Ok(false)), Personalized::Ready(String::from("a")));
    assert_eq!(
        placeholder_check(String::from("a"), Ok(true)),
        Personalized::PlaceholdersLeft(String::from("a"))
    );
    let bad = regex::Regex::new("(").unwrap_err();
    assert_eq!(placeholder_check(String::from("a"), Err(bad)), Personalized::Failed(PATTERN_FAILED));
}

#[test]
fn finish_personalize_each_case() {
    assert_eq!(
        finish_personalize(Ok(String::from("ls /tmp"))),
        Personalized::Ready(String::from("ls /tmp"))
    );
    assert_eq!(
        finish_personalize(Ok(String::from("ls {12}"))),
        Personalized::PlaceholdersLeft(String::from("ls {12}"))
    );
    assert_eq!(
        finish_personalize(Ok(String::from("ls {x}"))),
        Personalized::Ready(String::from("ls {x}"))
    );
    assert_eq!(
        finish_personalize(Err(ExpandError::Lookup { var_name: String::from("X") })),
        Personalized::Failed(EXPANSION_FAILED)
    );
    assert_eq!(
        finish_personalize(Err(ExpandError::UnexpandableName)),
        Personalized::Failed(EXPANSION_FAILED)
    );
}

#[test]
fn personalize_command_keeps_the_assembled_text() {
    assert_eq!(
        personalize_command("ls {1} {2}", &[String::from("a")]),
        Personalized::PlaceholdersLeft(String::from("ls a {2}"))
    );
}

#[test]
fn dollar_before_a_non_ascii_letter_is_refused() {
    assert_eq!(personalize("echo $é", &[]), Err(EXPANSION_FAILED));
    assert_eq!(personalize("echo ${1}", &[String::from("é")]), Err(EXPANSION_FAILED));
    // a `$` before a non-ASCII character that is no letter or digit is kept
    assert_eq!(personalize("echo $€", &[]), Ok(String::from("echo $€")));
}

#[test]
fn text_helpers() {
    assert_eq!(chars_of("aé"), vec!['a', 'é']);
    assert_eq!(string_of_range(&vec!['a', 'b', 'c', 'd'], 1, 3), "bc");
    assert!(white_space(' '));
    assert!(white_space('\t'));
    assert!(white_space('\u{3000}'));
    assert!(white_space('\u{85}'));
    assert!(!white_space('a'));
    assert!(!white_space('\u{200B}'));
    for c in ['\u{0}', ' ', '\n', '\u{A0}', '\u{2007}', '\u{2029}', 'x', '\u{FEFF}', '\u{180E}'] {
        assert_eq!(white_space(c), c.is_whitespace());
    }
}

#[test]
fn trailing_parameters_without_placeholder_are_ignored() {
    let base = vec![String::from("passed1"), String::from("passed2")];
    let mut more = base.clone();
    more.push(String::from("extra"));
    assert_eq!(
        substitute_placeholders("ls -l {1}/db ~/{2}", &more),
        substitute_placeholders("ls -l {1}/db ~/{2}", &base)
    );
    assert_eq!(personalize("ls -l {1}/db ~/{2}", &more), personalize("ls -l {1}/db ~/{2}", &base));
}
