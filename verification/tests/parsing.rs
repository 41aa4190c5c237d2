use shell_core::errors::ShellError;
use shell_core::lexer::lex;
use shell_core::pipeline::{is_pipeline, split_pipeline};
use shell_core::redirection::{parse_redirection, RedirectionMode};
use shell_core::resolver::{
    command_not_found_message, pick_first_hit, resolve_candidates, split_path_entries,
};
use shell_core::text::{decimal_string, join_from, pad_left, parse_i32, str_eq, trim};

fn words(parts: &[&str]) -> Vec<String> {
    parts.iter().map(|s| s.to_string()).collect()
}

#[test]
fn lex_splits_on_blanks() {
    assert_eq!(lex("echo hello world").unwrap(), words(&["echo", "hello", "world"]));
    assert_eq!(lex("  echo\t hi  ").unwrap(), words(&["echo", "hi"]));
    assert_eq!(lex("").unwrap(), Vec::<String>::new());
}

#[test]
fn lex_single_quotes_keep_everything() {
    assert_eq!(lex("echo 'hello   world'").unwrap(), words(&["echo", "hello   world"]));
    assert_eq!(lex("'a\"b' 'c\\d'").unwrap(), words(&["a\"b", "c\\d"]));
}

#[test]
fn lex_double_quotes_escape_alphabet() {
    assert_eq!(lex("echo \"a\\\"b\" 'c d' ef").unwrap(), words(&["echo", "a\"b", "c d", "ef"]));
    // Backslash before a character outside the alphabet stays literal.
    assert_eq!(lex("\"a\\xb\"").unwrap(), words(&["a\\xb"]));
    // Backslash before backslash and dollar collapses.
    assert_eq!(lex("\"a\\\\b\\$c\"").unwrap(), words(&["a\\b$c"]));
}

#[test]
fn lex_backslash_outside_quotes() {
    assert_eq!(lex("a\\ b").unwrap(), words(&["a b"]));
    assert_eq!(lex("\\'").unwrap(), words(&["'"]));
}

#[test]
fn lex_adjacent_fragments_concatenate() {
    assert_eq!(lex("a'b c'd\"e f\"").unwrap(), words(&["ab cde f"]));
    assert_eq!(lex("''").unwrap(), words(&[""]));
}

#[test]
fn lex_rejects_invalid_quoting() {
    assert!(matches!(lex("'abc"), Err(ShellError::InvalidQuoting)));
    assert!(matches!(lex("\"abc"), Err(ShellError::InvalidQuoting)));
    assert!(matches!(lex("abc\\"), Err(ShellError::InvalidQuoting)));
    assert!(matches!(lex("\"abc\\"), Err(ShellError::InvalidQuoting)));
}

#[test]
fn lex_round_trips_single_quoted_words() {
    // Words without single quotes re-encode under single quoting and lex
    // back to themselves.
    let original = words(&["echo", "hello   world", "a\"b"]);
    let encoded = original
        .iter()
        .map(|w| format!("'{}'", w))
        .collect::<Vec<_>>()
        .join(" ");
    assert_eq!(lex(&encoded).unwrap(), original);
}

#[test]
fn split_pipeline_is_quote_aware() {
    assert_eq!(split_pipeline("echo a | tr a b").unwrap(), words(&["echo a", "tr a b"]));
    assert_eq!(split_pipeline("echo '|'").unwrap(), words(&["echo '|'"]));
    assert_eq!(split_pipeline("echo \\| x").unwrap(), words(&["echo \\| x"]));
    assert_eq!(
        split_pipeline("echo a | tr a b | tr b c").unwrap(),
        words(&["echo a", "tr a b", "tr b c"])
    );
}

#[test]
fn split_pipeline_rejects_empty_fragments() {
    assert!(matches!(split_pipeline("echo a |"), Err(ShellError::InputError(_))));
    assert!(matches!(split_pipeline("| echo a"), Err(ShellError::InputError(_))));
    assert!(matches!(split_pipeline("a || b"), Err(ShellError::InputError(_))));
}

#[test]
fn is_pipeline_sees_only_unquoted_pipes() {
    assert!(is_pipeline("a | b"));
    assert!(!is_pipeline("echo '|'"));
    assert!(!is_pipeline("plain"));
    assert!(!is_pipeline("a \\| b"));
}

#[test]
fn redirections_are_peeled_off() {
    let args = words(&["echo", "hi", ">", "/tmp/out"]);
    let (filtered, stdout_redir, stderr_redir) = parse_redirection(&args).unwrap();
    assert_eq!(filtered, words(&["echo", "hi"]));
    let so = stdout_redir.unwrap();
    assert_eq!(so.file, "/tmp/out");
    assert_eq!(so.mode, RedirectionMode::Overwrite);
    assert!(stderr_redir.is_none());
}

#[test]
fn redirection_operators_cover_both_streams() {
    let args = words(&["c", "1>>", "o", "2>", "e"]);
    let (filtered, stdout_redir, stderr_redir) = parse_redirection(&args).unwrap();
    assert_eq!(filtered, words(&["c"]));
    let so = stdout_redir.unwrap();
    assert_eq!(so.file, "o");
    assert_eq!(so.mode, RedirectionMode::Append);
    let se = stderr_redir.unwrap();
    assert_eq!(se.file, "e");
    assert_eq!(se.mode, RedirectionMode::Overwrite);
}

#[test]
fn redirection_last_occurrence_wins() {
    let args = words(&["c", ">", "first", ">>", "second"]);
    let (filtered, stdout_redir, _) = parse_redirection(&args).unwrap();
    assert_eq!(filtered, words(&["c"]));
    let so = stdout_redir.unwrap();
    assert_eq!(so.file, "second");
    assert_eq!(so.mode, RedirectionMode::Append);
}

#[test]
fn redirection_preserves_argument_order() {
    let args = words(&["a", ">", "f", "b", "2>>", "g", "c"]);
    let (filtered, _, _) = parse_redirection(&args).unwrap();
    assert_eq!(filtered, words(&["a", "b", "c"]));
}

#[test]
fn redirection_missing_target_fails() {
    let args = words(&["c", ">"]);
    match parse_redirection(&args) {
        Err(ShellError::RedirectionError(m)) => {
            assert_eq!(m, "Expected filename after '>'");
        }
        other => panic!("expected a redirection error, got {:?}", other),
    }
    let args2 = words(&["c", "2>>"]);
    match parse_redirection(&args2) {
        Err(ShellError::RedirectionError(m)) => {
            assert_eq!(m, "Expected filename after '2>>'");
        }
        other => panic!("expected a redirection error, got {:?}", other),
    }
}

#[test]
fn parse_i32_matches_std() {
    assert_eq!(parse_i32("42"), Some(42));
    assert_eq!(parse_i32("-7"), Some(-7));
    assert_eq!(parse_i32("+5"), Some(5));
    assert_eq!(parse_i32("0"), Some(0));
    assert_eq!(parse_i32(""), None);
    assert_eq!(parse_i32("abc"), None);
    assert_eq!(parse_i32("1x"), None);
    assert_eq!(parse_i32("-"), None);
    assert_eq!(parse_i32("2147483647"), Some(i32::MAX));
    assert_eq!(parse_i32("2147483648"), None);
    assert_eq!(parse_i32("-2147483648"), Some(i32::MIN));
    assert_eq!(parse_i32("-2147483649"), None);
    assert_eq!(parse_i32("99999999999999999999"), None);
}

#[test]
fn text_helpers() {
    assert_eq!(decimal_string(0), "0");
    assert_eq!(decimal_string(70), "70");
    assert_eq!(decimal_string(12345), "12345");
    assert_eq!(pad_left("7", 5), "    7");
    assert_eq!(pad_left("123456", 5), "123456");
    assert_eq!(trim("  a b \t"), "a b");
    assert_eq!(trim(""), "");
    assert!(str_eq("abc", "abc"));
    assert!(!str_eq("abc", "abd"));
    let parts = vec!["a".to_string(), "b".to_string(), "c".to_string()];
    assert_eq!(join_from(&parts, 0, ' '), "a b c");
    assert_eq!(join_from(&parts, 1, ' '), "b c");
    assert_eq!(join_from(&parts, 3, ' '), "");
}

#[test]
fn path_candidates_follow_path_order() {
    assert_eq!(split_path_entries("/bin:/usr/bin"), words(&["/bin", "/usr/bin"]));
    assert_eq!(split_path_entries("a::b"), words(&["a", "", "b"]));
    let cands = resolve_candidates("ls", &Some("/bin:/usr/bin".to_string()));
    assert_eq!(cands, words(&["/bin/ls", "/usr/bin/ls"]));
    assert_eq!(resolve_candidates("./x", &Some("/bin".to_string())), words(&["./x"]));
    assert_eq!(resolve_candidates("ls", &None), Vec::<String>::new());
    assert_eq!(resolve_candidates("ls", &Some(String::new())), Vec::<String>::new());
}

#[test]
fn first_hit_is_leftmost() {
    assert_eq!(pick_first_hit(&vec![false, true, true]), Some(1));
    assert_eq!(pick_first_hit(&vec![true]), Some(0));
    assert_eq!(pick_first_hit(&vec![false, false]), None);
    assert_eq!(pick_first_hit(&Vec::new()), None);
    assert_eq!(command_not_found_message("nope"), "nope: command not found");
}
